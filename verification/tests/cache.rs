use dex::annotation::{AnnotationItem, EncodedAnnotation, Visibility};
use dex::cache::{Cache, CachedEntry};
use dex::jtype::TypeRef;

fn item(descriptor: &str) -> CachedEntry {
    CachedEntry::Item(AnnotationItem {
        visibility: Visibility::Build,
        annotation: EncodedAnnotation {
            jtype: TypeRef { index: 0, descriptor: descriptor.to_string() },
            elements: Vec::new(),
        },
    })
}

fn descriptor_of(entry: &CachedEntry) -> &str {
    match entry {
        CachedEntry::Item(it) => it.annotation.jtype.descriptor.as_str(),
        _ => panic!("expected an annotation item entry"),
    }
}

#[test]
fn cache_put_then_get() {
    let mut cache = Cache::new(4);
    cache.put(10, &item("LFoo;"));
    let got = cache.get(10).expect("key must be present");
    assert_eq!(descriptor_of(&got), "LFoo;");
    assert!(cache.get(11).is_none());
}

#[test]
fn cache_update_replaces_value() {
    let mut cache = Cache::new(2);
    cache.put(10, &item("LFoo;"));
    cache.put(10, &item("LBar;"));
    let got = cache.get(10).expect("key must be present");
    assert_eq!(descriptor_of(&got), "LBar;");
}

#[test]
fn cache_evicts_least_recently_used() {
    // Capacity two; inserting a third distinct key evicts the
    // least-recently-accessed one, and a later lookup of it misses.
    let mut cache = Cache::new(2);
    cache.put(1, &item("LA;"));
    cache.put(2, &item("LB;"));
    // Touch key 1 so that key 2 becomes the least recently used.
    assert!(cache.get(1).is_some());
    cache.put(3, &item("LC;"));
    assert!(cache.get(2).is_none(), "least-recently-used key must be evicted");
    assert!(cache.get(1).is_some());
    assert!(cache.get(3).is_some());
}
