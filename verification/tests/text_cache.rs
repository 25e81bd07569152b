use hilen::text_cache::{MeasureCache, MeasureKey, ShapeCache};

fn key(text: &str) -> MeasureKey {
    MeasureKey {
        text:        text.to_string(),
        size:        12.0_f32.to_bits(),
        width:       None,
        tracking:    0.0_f32.to_bits(),
        line_height: None,
        runs:        vec![],
    }
}

/// `n` milliseconds on a cache clock.
fn ms(n: u64) -> u64 {
    n * 1_000_000
}

#[test]
fn a_hit_returns_the_cached_size() {
    let mut cache: MeasureCache<(f32, f32)> = MeasureCache::new();

    assert_eq!(cache.get(&key("hello")), None);
    cache.insert(key("hello"), (50.0, 14.0));
    assert_eq!(cache.get(&key("hello")), Some((50.0, 14.0)));
}

#[test]
fn different_inputs_are_separate_entries() {
    let mut cache: MeasureCache<(f32, f32)> = MeasureCache::new();

    cache.insert(key("hello"), (50.0, 14.0));

    let mut other = key("hello");
    other.size = 13.0_f32.to_bits();
    assert_eq!(cache.get(&other), None);
}

#[test]
fn runs_are_part_of_the_key() {
    let mut cache: MeasureCache<u32> = MeasureCache::new();
    let mut with_run = key("hi");
    with_run.runs = vec![("Roboto".to_string(), 0, 2)];
    cache.insert_at(with_run, 7, ms(0));
    assert_eq!(cache.get_at(&key("hi"), ms(0)), None);
    let mut same = key("hi");
    same.runs = vec![("Roboto".to_string(), 0, 2)];
    assert_eq!(cache.get_at(&same, ms(0)), Some(7));
}

#[test]
fn sweep_drops_what_went_unused() {
    let mut cache: MeasureCache<u32> = MeasureCache::new();
    cache.insert_at(key("old"), 1, ms(0));
    cache.insert_at(key("new"), 2, ms(5_000));
    cache.sweep_at(ms(10_000));
    assert_eq!(cache.get_at(&key("old"), ms(10_000)), None);
    assert_eq!(cache.get_at(&key("new"), ms(10_000)), Some(2));
}

#[test]
fn sweep_scans_at_most_once_a_second() {
    let mut cache: MeasureCache<u32> = MeasureCache::new();
    cache.insert_at(key("a"), 1, ms(0));
    cache.sweep_at(ms(9_500));
    assert_eq!(cache.get_at(&key("a"), ms(0)), Some(1));
    cache.sweep_at(ms(10_200));
    assert_eq!(cache.get_at(&key("a"), ms(0)), Some(1));
    cache.sweep_at(ms(10_600));
    assert_eq!(cache.get_at(&key("a"), ms(10_600)), None);
}

#[test]
fn a_hit_keeps_an_entry_alive() {
    let mut cache: MeasureCache<u32> = MeasureCache::new();
    cache.insert_at(key("a"), 1, ms(0));
    assert_eq!(cache.get_at(&key("a"), ms(9_000)), Some(1));
    cache.sweep_at(ms(15_000));
    assert_eq!(cache.get_at(&key("a"), ms(15_000)), Some(1));
}

#[test]
fn a_line_shapes_once() {
    let mut cache: ShapeCache<u16> = ShapeCache::new();
    let first = cache.get_or_shape_at("abc", 1, 0, ms(0), || vec![1, 2, 3]);
    assert_eq!(first, vec![1, 2, 3]);
    let again = cache.get_or_shape_at("abc", 1, 0, ms(10), || panic!("shaped twice"));
    assert_eq!(again, vec![1, 2, 3]);
    let other_scale = cache.get_or_shape_at("abc", 2, 0, ms(10), || vec![9]);
    assert_eq!(other_scale, vec![9]);
    cache.sweep_at(ms(10_005));
    let reshaped = cache.get_or_shape_at("abc", 1, 0, ms(10_005), || vec![4]);
    assert_eq!(reshaped, vec![1, 2, 3]);
    cache.sweep_at(ms(30_000));
    let reshaped = cache.get_or_shape_at("abc", 1, 0, ms(30_000), || vec![5]);
    assert_eq!(reshaped, vec![5]);
}

#[test]
fn the_clock_backed_calls_agree() {
    let mut cache: ShapeCache<u8> = ShapeCache::new();
    assert_eq!(cache.get_or_shape("x", 0, 0, || vec![7]), vec![7]);
    assert_eq!(cache.get_or_shape("x", 0, 0, || vec![8]), vec![7]);
    cache.sweep();
    let mut sizes: MeasureCache<u8> = MeasureCache::new();
    sizes.insert(key("k"), 3);
    sizes.sweep();
    assert_eq!(sizes.get(&key("k")), Some(3));
}
