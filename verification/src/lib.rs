//! The parts of a small render engine that hold state from frame to frame: a
//! cache for resources that are expensive to build, and the state of the
//! keyboard and the mouse.
//!
//! A [`resources::ResourceCache`] owns resources of one kind, each under a
//! 64-bit key. A caller asks for a resource by a string identifier and gets a
//! [`handle::Handle`] back; the resource is built the first time its key is
//! asked for and found again from then on. The handle is plain data that the
//! cache resolves on demand. [`identifier`] holds the policy that turns an
//! identifier into a key, and what follows from it. A cache is modelled by the
//! map from its keys to its resources, and every operation says what it does
//! to that map.
//!
//! An [`inputs::Inputs`] follows the inputs of a window: every input takes
//! its state to the next one, and every query reads the state.

pub mod handle;
pub mod identifier;
pub mod inputs;
pub mod resources;
