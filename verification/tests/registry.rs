use quark::memory::registry::{LayerLocation, LayerRegistry};

#[test]
fn register_locate_and_count_bytes() {
    let mut r = LayerRegistry::new();
    r.register("layer.0000", LayerLocation::Vram, 100);
    r.register("layer.0001", LayerLocation::Ram, 50);
    r.register("layer.0002", LayerLocation::Disk { path: "/o/2".to_owned() }, 70);
    assert!(matches!(r.get("layer.0000"), Some(LayerLocation::Vram)));
    assert!(matches!(r.get("layer.0002"), Some(LayerLocation::Disk { path }) if path == "/o/2"));
    assert!(r.get("head").is_none());
    assert_eq!((r.vram_used_bytes(), r.ram_used_bytes(), r.disk_used_bytes()), (100, 50, 70));

    // Registering again moves the layer and its bytes.
    r.register("layer.0000", LayerLocation::Ram, 120);
    assert!(matches!(r.get("layer.0000"), Some(LayerLocation::Ram)));
    assert_eq!((r.vram_used_bytes(), r.ram_used_bytes()), (0, 170));
    assert!(matches!(r.get("layer.0001"), Some(LayerLocation::Ram)));
}

#[test]
fn touch_reorders_least_recently_used() {
    let mut r = LayerRegistry::new();
    r.register("a", LayerLocation::Vram, 1);
    r.register("b", LayerLocation::Vram, 1);
    r.register("c", LayerLocation::Ram, 1);
    assert_eq!(r.lru_in_vram(), Some("a"));
    r.touch("a");
    assert_eq!(r.lru_in_vram(), Some("b"));
    assert!(matches!(r.get("a"), Some(LayerLocation::Vram)));
    assert_eq!(r.lru_in_ram(), Some("c"));
    r.touch("missing");
    assert_eq!(r.lru_in_vram(), Some("b"));
}

#[test]
fn limits_compare_usage_plus_new_bytes() {
    let mut r = LayerRegistry::new();
    r.register("a", LayerLocation::Vram, 60);
    r.register("b", LayerLocation::Ram, 10);
    assert!(!r.would_exceed_vram(40, 100));
    assert!(r.would_exceed_vram(41, 100));
    assert!(!r.would_exceed_ram(90, 100));
    assert!(r.would_exceed_ram(91, 100));
}
