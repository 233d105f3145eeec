use std::cell::Cell;
use std::marker::PhantomData;

use forte_engine::resources::{Handle, ResourceCache};

fn handle<T>(hash: u64) -> Handle<T> {
    Handle { hash, data: PhantomData }
}

#[test]
fn new_cache_is_empty() {
    let cache: ResourceCache<u32> = ResourceCache::new();
    for hash in [0, 1, 21, 148, u64::MAX] {
        assert_eq!(cache.get(&handle(hash)), None);
    }
}

#[test]
fn load_builds_once_per_identifier() {
    let calls = Cell::new(0u32);
    let mut cache: ResourceCache<String> = ResourceCache::new();
    let first = cache.load("mesh:cube".to_string(), || {
        calls.set(calls.get() + 1);
        "cube".to_string()
    });
    assert_eq!(calls.get(), 1);
    let second = cache.load("mesh:cube".to_string(), || {
        calls.set(calls.get() + 1);
        "other".to_string()
    });
    assert_eq!(calls.get(), 1);
    assert_eq!(first.hash, second.hash);
    assert_eq!(cache.get(&first), Some(&"cube".to_string()));
    assert_eq!(cache.get(&second), Some(&"cube".to_string()));
}

#[test]
fn load_many_times_builds_once() {
    let calls = Cell::new(0u32);
    let mut cache: ResourceCache<u32> = ResourceCache::new();
    for _ in 0..10 {
        let h = cache.load("textures/stone.png".to_string(), || {
            calls.set(calls.get() + 1);
            7
        });
        assert_eq!(h.hash, 386);
        assert_eq!(cache.get(&h), Some(&7));
    }
    assert_eq!(calls.get(), 1);
}

#[test]
fn load_returns_the_key_of_the_identifier() {
    let mut cache: ResourceCache<u32> = ResourceCache::new();
    assert_eq!(cache.load("ab".to_string(), || 1).hash, 21);
    assert_eq!(cache.load("mesh:cube".to_string(), || 2).hash, 148);
    assert_eq!(cache.load("".to_string(), || 3).hash, 0);
}

#[test]
fn load_builds_for_each_new_key() {
    let calls = Cell::new(0u32);
    let mut cache: ResourceCache<u32> = ResourceCache::new();
    let build = || {
        calls.set(calls.get() + 1);
        calls.get()
    };
    let a = cache.load("a".to_string(), &build);
    let b = cache.load("b".to_string(), &build);
    let c = cache.load("c".to_string(), &build);
    assert_eq!(calls.get(), 3);
    assert_eq!(cache.get(&a), Some(&1));
    assert_eq!(cache.get(&b), Some(&2));
    assert_eq!(cache.get(&c), Some(&3));
}

#[test]
fn load_of_a_colliding_identifier_finds_the_earlier_resource() {
    let calls = Cell::new(0u32);
    let mut cache: ResourceCache<&str> = ResourceCache::new();
    let first = cache.load("ab".to_string(), || "first");
    let second = cache.load("ba".to_string(), || {
        calls.set(calls.get() + 1);
        "second"
    });
    assert_eq!(calls.get(), 0);
    assert_eq!(first.hash, second.hash);
    assert_eq!(cache.get(&second), Some(&"first"));
}

#[test]
fn load_after_insert_under_the_same_key_builds_nothing() {
    let calls = Cell::new(0u32);
    let mut cache: ResourceCache<u32> = ResourceCache::new();
    cache.insert(21, 5);
    let h = cache.load("ab".to_string(), || {
        calls.set(calls.get() + 1);
        6
    });
    assert_eq!(calls.get(), 0);
    assert_eq!(cache.get(&h), Some(&5));
}

#[test]
fn get_of_a_key_never_inserted_is_none() {
    let mut cache: ResourceCache<u32> = ResourceCache::new();
    cache.load("ab".to_string(), || 1);
    assert_eq!(cache.get(&handle(22)), None);
    assert_eq!(cache.get(&handle(0)), None);
    assert_eq!(cache.get_mut(&handle(22)), None);
    assert_eq!(cache.get_mut(&handle(0)), None);
    assert_eq!(cache.get(&handle(22)), None);
}

#[test]
fn get_with_a_handle_from_another_cache_is_none() {
    let mut meshes: ResourceCache<u32> = ResourceCache::new();
    let mut other: ResourceCache<u32> = ResourceCache::new();
    let foreign = other.load("zz".to_string(), || 9);
    meshes.load("ab".to_string(), || 1);
    assert_eq!(foreign.hash, 70);
    assert_eq!(meshes.get(&foreign), None);
    assert_eq!(meshes.get_mut(&foreign), None);
}

#[test]
fn get_mut_changes_the_resource_in_place() {
    let calls = Cell::new(0u32);
    let mut cache: ResourceCache<Vec<u8>> = ResourceCache::new();
    let h = cache.load("buffer".to_string(), || {
        calls.set(calls.get() + 1);
        vec![1, 2]
    });
    cache.get_mut(&h).unwrap().push(3);
    assert_eq!(cache.get(&h), Some(&vec![1, 2, 3]));
    *cache.get_mut(&h).unwrap() = vec![9];
    assert_eq!(cache.get(&h), Some(&vec![9]));
    assert_eq!(calls.get(), 1);
}

#[test]
fn get_mut_leaves_the_other_entries() {
    let mut cache: ResourceCache<u32> = ResourceCache::new();
    cache.insert(1, 10);
    cache.insert(2, 20);
    *cache.get_mut(&handle(1)).unwrap() += 1;
    assert_eq!(cache.get(&handle(1)), Some(&11));
    assert_eq!(cache.get(&handle(2)), Some(&20));
    assert_eq!(cache.get_mut(&handle(3)), None);
    assert_eq!(cache.get(&handle(3)), None);
}

#[test]
fn insert_stores_under_the_raw_key() {
    let mut cache: ResourceCache<&str> = ResourceCache::new();
    cache.insert(u64::MAX, "last");
    cache.insert(0, "first");
    assert_eq!(cache.get(&handle(u64::MAX)), Some(&"last"));
    assert_eq!(cache.get(&handle(0)), Some(&"first"));
}

#[test]
fn insert_overwrites_what_was_there() {
    let mut cache: ResourceCache<&str> = ResourceCache::new();
    cache.insert(5, "old");
    cache.insert(5, "new");
    assert_eq!(cache.get(&handle(5)), Some(&"new"));
}

#[test]
fn replace_after_load_overwrites_without_building() {
    let calls = Cell::new(0u32);
    let mut cache: ResourceCache<&str> = ResourceCache::new();
    let build = || {
        calls.set(calls.get() + 1);
        "v1"
    };
    let h = cache.load("texture".to_string(), &build);
    cache.replace(&h, "v2");
    assert_eq!(cache.get(&h), Some(&"v2"));
    assert_eq!(calls.get(), 1);
    let again = cache.load("texture".to_string(), &build);
    assert_eq!(again.hash, h.hash);
    assert_eq!(cache.get(&again), Some(&"v2"));
    assert_eq!(calls.get(), 1);
}

#[test]
fn replace_stores_where_nothing_was() {
    let mut cache: ResourceCache<u32> = ResourceCache::new();
    cache.replace(&handle(77), 1);
    assert_eq!(cache.get(&handle(77)), Some(&1));
}

#[test]
fn no_operation_removes_an_entry() {
    let mut cache: ResourceCache<u32> = ResourceCache::new();
    let count = |cache: &ResourceCache<u32>| {
        (0..400u64).filter(|k| cache.get(&handle(*k)).is_some()).count()
    };
    assert_eq!(count(&cache), 0);
    let a = cache.load("a".to_string(), || 1);
    assert_eq!(count(&cache), 1);
    cache.insert(300, 2);
    assert_eq!(count(&cache), 2);
    cache.insert(300, 3);
    assert_eq!(count(&cache), 2);
    cache.replace(&a, 4);
    assert_eq!(count(&cache), 2);
    cache.replace(&handle(301), 5);
    assert_eq!(count(&cache), 3);
    cache.load("a".to_string(), || 6);
    assert_eq!(count(&cache), 3);
    assert_eq!(cache.get_mut(&handle(302)), None);
    *cache.get_mut(&a).unwrap() = 7;
    assert_eq!(count(&cache), 3);
    assert_eq!(cache.get(&a), Some(&7));
    assert_eq!(cache.get(&handle(300)), Some(&3));
    assert_eq!(cache.get(&handle(301)), Some(&5));
}

#[test]
fn caches_of_different_kinds_are_independent() {
    let mut meshes: ResourceCache<u32> = ResourceCache::new();
    let mut textures: ResourceCache<String> = ResourceCache::new();
    let mesh = meshes.load("cube".to_string(), || 8);
    let texture: Handle<String> = handle(mesh.hash);
    assert_eq!(textures.get(&texture), None);
    textures.insert(mesh.hash, "stone".to_string());
    assert_eq!(meshes.get(&mesh), Some(&8));
    assert_eq!(textures.get(&texture), Some(&"stone".to_string()));
}

#[test]
fn clone_of_a_cache_holds_the_same_entries_apart() {
    let mut cache: ResourceCache<u32> = ResourceCache::new();
    let h = cache.load("a".to_string(), || 1);
    let mut copy = cache.clone();
    copy.replace(&h, 2);
    copy.insert(99, 3);
    assert_eq!(cache.get(&h), Some(&1));
    assert_eq!(cache.get(&handle(99)), None);
    assert_eq!(copy.get(&h), Some(&2));
}

#[test]
fn load_then_load_again_end_to_end() {
    let calls_a = Cell::new(0u32);
    let calls_b = Cell::new(0u32);
    let builder_a = || {
        calls_a.set(calls_a.get() + 1);
        "built by a".to_string()
    };
    let builder_b = || {
        calls_b.set(calls_b.get() + 1);
        "built by b".to_string()
    };
    let mut cache: ResourceCache<String> = ResourceCache::new();
    assert_eq!(cache.get(&handle(148)), None);

    let h1 = cache.load("mesh:cube".to_string(), &builder_a);
    assert_eq!(calls_a.get(), 1);
    assert_eq!(cache.get(&h1), Some(&"built by a".to_string()));

    let h2 = cache.load("mesh:cube".to_string(), &builder_b);
    assert_eq!(h2.hash, h1.hash);
    assert_eq!(calls_b.get(), 0);
    assert_eq!(calls_a.get(), 1);
    assert_eq!(cache.get(&h2), Some(&"built by a".to_string()));
}
