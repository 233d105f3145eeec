use std::marker::PhantomData;

use forte_engine::handle::Handle;
use forte_engine::resources::ResourceCache;

#[test]
fn handles_with_equal_keys_are_equal() {
    let a: Handle<String> = Handle { hash: 21, data: PhantomData };
    let b: Handle<String> = Handle { hash: 21, data: PhantomData };
    let c: Handle<String> = Handle { hash: 22, data: PhantomData };
    assert!(a == b);
    assert!(a != c);
    assert_eq!(a, b);
}

#[test]
fn handle_copies_keep_the_key() {
    let a: Handle<String> = Handle { hash: 148, data: PhantomData };
    let copied = a;
    let cloned = a.clone();
    assert_eq!(a.hash, 148);
    assert_eq!(copied.hash, 148);
    assert_eq!(cloned.hash, 148);
}

struct Buffer {
    bytes: Vec<u8>,
}

#[test]
fn handle_of_a_resource_that_cannot_be_copied_can_be_copied() {
    let mut cache: ResourceCache<Buffer> = ResourceCache::new();
    let handle = cache.load("buffer".to_string(), || Buffer { bytes: vec![1, 2, 3] });
    let copy = handle;
    assert!(copy == handle);
    assert_eq!(cache.get(&copy).map(|b| b.bytes.len()), Some(3));
    assert_eq!(cache.get(&handle).map(|b| b.bytes.len()), Some(3));
}

#[test]
fn handle_outlives_changes_to_the_cache() {
    let mut cache: ResourceCache<u32> = ResourceCache::new();
    let handle = cache.load("a".to_string(), || 1);
    cache.insert(500, 2);
    cache.load("b".to_string(), || 3);
    assert_eq!(cache.get(&handle), Some(&1));
}

#[test]
fn dropping_a_handle_leaves_the_entry() {
    let mut cache: ResourceCache<u32> = ResourceCache::new();
    {
        let handle = cache.load("a".to_string(), || 1);
        assert_eq!(handle.hash, 10);
    }
    let again: Handle<u32> = Handle { hash: 10, data: PhantomData };
    assert_eq!(cache.get(&again), Some(&1));
}
