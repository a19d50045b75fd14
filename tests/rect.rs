use grout::{
    color_to_colorref, rect::transparent_border, GridConfig, GridConfigKey, GridConfigs, Rect,
    Rgba, HIWORD, LOWORD,
};

#[test]
fn contains_point_includes_both_corners() {
    let r = Rect { x: 10, y: 20, width: 30, height: 40 };
    assert!(r.contains_point((10, 20)));
    assert!(r.contains_point((40, 60)));
    assert!(r.contains_point((25, 30)));
    assert!(!r.contains_point((41, 60)));
    assert!(!r.contains_point((40, 61)));
    assert!(!r.contains_point((9, 30)));
    assert!(!r.contains_point((20, 19)));
}

#[test]
fn zero_rect() {
    assert_eq!(Rect::zero(), Rect { x: 0, y: 0, width: 0, height: 0 });
    assert!(Rect::zero().contains_point((0, 0)));
}

#[test]
fn adjust_for_border_grows_bottom_only_vertically() {
    let mut r = Rect { x: 100, y: 50, width: 200, height: 100 };
    r.adjust_for_border((7, 8));
    assert_eq!(r, Rect { x: 93, y: 50, width: 214, height: 108 });
}

#[test]
fn adjusted_for_border_checks_range() {
    let r = Rect { x: 100, y: 50, width: 200, height: 100 };
    assert_eq!(r.adjusted_for_border((7, 8)), Some(Rect { x: 93, y: 50, width: 214, height: 108 }));
    let wide = Rect { x: 0, y: 0, width: i32::MAX - 1, height: 0 };
    assert_eq!(wide.adjusted_for_border((1, 0)), None);
}

#[test]
fn from_corners_and_edges() {
    let r = Rect::from_corners(5, 6, 105, 56);
    assert_eq!(r, Rect { x: 5, y: 6, width: 100, height: 50 });
    assert_eq!(r.right(), 105);
    assert_eq!(r.bottom(), 56);
}

#[test]
fn transparent_border_from_rects() {
    let window = Rect { x: 93, y: 50, width: 214, height: 108 };
    let client = Rect { x: 100, y: 80, width: 200, height: 70 };
    assert_eq!(transparent_border(window, client), (-7 + 14, -30 + 38));
}

#[test]
fn low_and_high_words() {
    assert_eq!(LOWORD(0x1234_5678), 0x5678);
    assert_eq!(HIWORD(0x1234_5678), 0x1234);
    assert_eq!(LOWORD(0xffff_0000), 0);
    assert_eq!(HIWORD(0xabcd_ffff_ffff), 0xffff);
}

#[test]
fn colorref_packs_red_low() {
    assert_eq!(color_to_colorref(Rgba { r: 178, g: 178, b: 178, a: 255 }), 0xb2b2b2);
    assert_eq!(color_to_colorref(Rgba { r: 0, g: 77, b: 128, a: 255 }), 0x804d00);
    assert_eq!(color_to_colorref(Rgba { r: 1, g: 0, b: 0, a: 0 }), 1);
}

#[test]
fn store_upsert_and_get() {
    let a = GridConfigKey::new("A".to_string(), "Default".to_string());
    let b = GridConfigKey::new("A".to_string(), "Profile2".to_string());
    let mut store = GridConfigs::new();
    assert_eq!(store.len(), 0);
    store.upsert(&a, GridConfig { rows: 1, columns: 2 });
    store.upsert(&b, GridConfig { rows: 3, columns: 4 });
    store.upsert(&a, GridConfig { rows: 5, columns: 6 });
    assert_eq!(store.len(), 2);
    assert_eq!(store.get(&a), Some(GridConfig { rows: 5, columns: 6 }));
    assert_eq!(store.get(&b), Some(GridConfig { rows: 3, columns: 4 }));
    let c = GridConfigKey::new("B".to_string(), "Default".to_string());
    assert_eq!(store.get(&c), None);
}

#[test]
fn fallback_store_holds_default_shape() {
    let key = GridConfigKey::for_monitor("M".to_string());
    assert_eq!(key.profile, "Default");
    let store = GridConfigs::loaded_or_fallback(None, key.duplicate());
    assert_eq!(store.len(), 1);
    assert_eq!(store.get(&key), Some(GridConfig { rows: 2, columns: 2 }));
    let (k, shape) = store.entry(0);
    assert!(*k == key);
    assert_eq!(shape, GridConfig::default());
}
