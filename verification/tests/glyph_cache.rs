use bevy_nannou_render::glyph::{snap, AtlasConfig, AtlasRect, CacheError, GlyphBitmap, GlyphCache, GlyphKey};
use std::cell::Cell;

fn key(glyph: u32) -> GlyphKey {
    GlyphKey { font: 1, glyph, scale: 12, offset: 0 }
}

fn bitmap(width: u16, height: u16, value: u8) -> GlyphBitmap {
    GlyphBitmap::new(width, height, vec![value; width as usize * height as usize]).unwrap()
}

fn rect(x: u16, y: u16, width: u16, height: u16) -> AtlasRect {
    AtlasRect { x, y, width, height }
}

#[test]
fn bitmap_needs_one_value_for_each_texel() {
    assert!(GlyphBitmap::new(2, 3, vec![0; 6]).is_some());
    assert!(GlyphBitmap::new(2, 3, vec![0; 5]).is_none());
    assert!(GlyphBitmap::new(0, 3, vec![]).is_some());
    let b = GlyphBitmap::new(2, 1, vec![7, 8]).unwrap();
    assert_eq!((b.width(), b.height()), (2, 1));
    assert_eq!(b.coverage(), &vec![7, 8]);
}

#[test]
fn new_cache_is_empty_and_clean() {
    let c = GlyphCache::new(4, 3);
    assert_eq!((c.width(), c.height()), (4, 3));
    assert_eq!(c.len(), 0);
    assert!(!c.is_dirty());
    assert_eq!(c.pixels(), &vec![0u8; 12]);
    assert!(!c.contains(key(1)));
}

#[test]
fn first_glyph_goes_to_the_corner() {
    let mut c = GlyphCache::new(8, 8);
    assert_eq!(c.insert(key(1), &bitmap(3, 2, 9)), Ok(rect(0, 0, 3, 2)));
    assert!(c.contains(key(1)));
    assert!(c.is_dirty());
    assert_eq!(c.len(), 1);
}

#[test]
fn glyphs_fill_the_lowest_row_first() {
    let mut c = GlyphCache::new(8, 8);
    assert_eq!(c.insert(key(1), &bitmap(3, 2, 1)), Ok(rect(0, 0, 3, 2)));
    assert_eq!(c.insert(key(2), &bitmap(3, 2, 2)), Ok(rect(3, 0, 3, 2)));
    // Too wide for what is left of the first row.
    assert_eq!(c.insert(key(3), &bitmap(3, 2, 3)), Ok(rect(0, 2, 3, 2)));
    // A narrow glyph still fits beside the first two.
    assert_eq!(c.insert(key(4), &bitmap(2, 2, 4)), Ok(rect(6, 0, 2, 2)));
    assert_eq!(c.len(), 4);
}

#[test]
fn same_key_twice_gives_the_same_rectangle() {
    let mut c = GlyphCache::new(8, 8);
    c.insert(key(1), &bitmap(3, 2, 1)).unwrap();
    let first = c.insert(key(2), &bitmap(2, 2, 2)).unwrap();
    c.acknowledge_upload();
    // The second bitmap is not looked at.
    let second = c.insert(key(2), &bitmap(5, 5, 3)).unwrap();
    assert_eq!(first, second);
    assert_eq!(c.get(key(2)), Some(first));
    assert_eq!(c.len(), 2);
    assert!(!c.is_dirty());
}

#[test]
fn get_of_an_unknown_key_is_none() {
    let mut c = GlyphCache::new(8, 8);
    c.insert(key(1), &bitmap(3, 2, 1)).unwrap();
    assert_eq!(c.get(key(5)), None);
    assert_eq!(c.get(GlyphKey { font: 2, glyph: 1, scale: 12, offset: 0 }), None);
    assert_eq!(c.get(GlyphKey { font: 1, glyph: 1, scale: 13, offset: 0 }), None);
    assert_eq!(c.get(GlyphKey { font: 1, glyph: 1, scale: 12, offset: 1 }), None);
    assert_eq!(c.len(), 1);
}

#[test]
fn coverage_is_copied_into_the_atlas() {
    let mut c = GlyphCache::new(4, 3);
    let a = GlyphBitmap::new(2, 2, vec![1, 2, 3, 4]).unwrap();
    let b = GlyphBitmap::new(1, 3, vec![5, 6, 7]).unwrap();
    assert_eq!(c.insert(key(1), &a), Ok(rect(0, 0, 2, 2)));
    assert_eq!(c.insert(key(2), &b), Ok(rect(2, 0, 1, 3)));
    let expected = vec![1, 2, 5, 0, 3, 4, 6, 0, 0, 0, 7, 0];
    assert_eq!(c.pixels(), &expected);
}

#[test]
fn dirty_flag_is_cleared_only_by_acknowledgment() {
    let mut c = GlyphCache::new(8, 8);
    assert!(!c.is_dirty());
    c.insert(key(1), &bitmap(2, 2, 1)).unwrap();
    assert!(c.is_dirty());
    c.get(key(1));
    c.contains(key(1));
    assert!(c.is_dirty());
    c.acknowledge_upload();
    assert!(!c.is_dirty());
    // A hit does not touch the atlas.
    c.insert(key(1), &bitmap(2, 2, 1)).unwrap();
    assert!(!c.is_dirty());
    c.insert(key(2), &bitmap(2, 2, 1)).unwrap();
    assert!(c.is_dirty());
}

#[test]
fn full_atlas_evicts_the_least_recently_used() {
    let mut c = GlyphCache::new(4, 2);
    assert_eq!(c.insert(key(1), &bitmap(2, 2, 1)), Ok(rect(0, 0, 2, 2)));
    assert_eq!(c.insert(key(2), &bitmap(2, 2, 2)), Ok(rect(2, 0, 2, 2)));
    // The atlas is full; key 1 is the least recently used.
    assert_eq!(c.insert(key(3), &bitmap(2, 2, 3)), Ok(rect(0, 0, 2, 2)));
    assert!(!c.contains(key(1)));
    assert!(c.contains(key(2)));
    assert!(c.contains(key(3)));
    assert_eq!(c.pixels(), &vec![3, 3, 2, 2, 3, 3, 2, 2]);
}

#[test]
fn a_hit_protects_a_glyph_from_eviction() {
    let mut c = GlyphCache::new(4, 2);
    c.insert(key(1), &bitmap(2, 2, 1)).unwrap();
    c.insert(key(2), &bitmap(2, 2, 2)).unwrap();
    assert_eq!(c.get(key(1)), Some(rect(0, 0, 2, 2)));
    // Now key 2 is the least recently used.
    assert_eq!(c.insert(key(3), &bitmap(2, 2, 3)), Ok(rect(2, 0, 2, 2)));
    assert!(c.contains(key(1)));
    assert!(!c.contains(key(2)));
}

#[test]
fn eviction_goes_on_until_the_glyph_fits() {
    let mut c = GlyphCache::new(4, 2);
    c.insert(key(1), &bitmap(2, 2, 1)).unwrap();
    c.insert(key(2), &bitmap(2, 2, 2)).unwrap();
    assert_eq!(c.insert(key(3), &bitmap(4, 2, 3)), Ok(rect(0, 0, 4, 2)));
    assert_eq!(c.len(), 1);
    assert!(!c.contains(key(1)));
    assert!(!c.contains(key(2)));
}

#[test]
fn eviction_stops_as_soon_as_the_glyph_fits() {
    let mut c = GlyphCache::new(6, 2);
    c.insert(key(1), &bitmap(2, 2, 1)).unwrap();
    c.insert(key(2), &bitmap(2, 2, 2)).unwrap();
    c.insert(key(3), &bitmap(2, 2, 3)).unwrap();
    assert_eq!(c.insert(key(4), &bitmap(2, 2, 4)), Ok(rect(0, 0, 2, 2)));
    assert_eq!(c.len(), 3);
    assert!(!c.contains(key(1)));
    assert!(c.contains(key(2)));
    assert!(c.contains(key(3)));
}

#[test]
fn glyph_larger_than_the_atlas_fails_and_changes_nothing() {
    let mut c = GlyphCache::new(4, 2);
    c.insert(key(1), &bitmap(2, 2, 1)).unwrap();
    c.acknowledge_upload();
    assert_eq!(c.insert(key(2), &bitmap(5, 1, 2)), Err(CacheError::CacheCapacityExceeded));
    assert_eq!(c.insert(key(2), &bitmap(1, 3, 2)), Err(CacheError::CacheCapacityExceeded));
    assert!(c.contains(key(1)));
    assert!(!c.contains(key(2)));
    assert_eq!(c.len(), 1);
    assert!(!c.is_dirty());
    assert_eq!(c.pixels(), &vec![1, 1, 0, 0, 1, 1, 0, 0]);
}

#[test]
fn glyph_as_large_as_the_atlas_fits() {
    let mut c = GlyphCache::new(4, 2);
    assert_eq!(c.insert(key(1), &bitmap(4, 2, 1)), Ok(rect(0, 0, 4, 2)));
}

#[test]
fn cached_glyph_is_not_rasterized_again() {
    let mut c = GlyphCache::new(8, 8);
    let calls = Cell::new(0u32);
    let first = c.get_or_insert(key(1), || {
        calls.set(calls.get() + 1);
        bitmap(3, 3, 1)
    });
    let second = c.get_or_insert(key(1), || {
        calls.set(calls.get() + 1);
        bitmap(3, 3, 1)
    });
    assert_eq!(first, Ok(rect(0, 0, 3, 3)));
    assert_eq!(second, first);
    assert_eq!(calls.get(), 1);
}

#[test]
fn evicted_glyph_is_rasterized_again() {
    let mut c = GlyphCache::new(4, 2);
    let calls = Cell::new(0u32);
    for glyph in [1, 2, 3, 1] {
        let r = c.get_or_insert(key(glyph), || {
            calls.set(calls.get() + 1);
            bitmap(2, 2, glyph as u8)
        });
        assert!(r.is_ok());
    }
    // 1 and 2 fill the atlas, 3 evicts 1, and 1 comes back by evicting 2.
    assert_eq!(calls.get(), 4);
    assert!(c.contains(key(1)));
    assert!(!c.contains(key(2)));
    assert!(c.contains(key(3)));
}

#[test]
fn oversized_glyph_through_get_or_insert() {
    let mut c = GlyphCache::new(2, 2);
    assert_eq!(c.get_or_insert(key(1), || bitmap(3, 3, 1)), Err(CacheError::CacheCapacityExceeded));
    assert_eq!(c.len(), 0);
}

#[test]
fn rectangles_never_overlap() {
    let mut c = GlyphCache::new(16, 16);
    let sizes: [(u16, u16); 12] =
        [(5, 4), (3, 7), (8, 2), (4, 4), (6, 6), (2, 9), (7, 3), (5, 5), (9, 4), (3, 3), (10, 6), (4, 8)];
    let mut live: Vec<(GlyphKey, AtlasRect)> = Vec::new();
    for (n, (w, h)) in sizes.iter().enumerate() {
        let k = key(n as u32);
        let r = c.insert(k, &bitmap(*w, *h, n as u8 + 1)).unwrap();
        assert!(r.x + r.width <= 16 && r.y + r.height <= 16);
        live.retain(|(k, _)| c.contains(*k));
        for (_, other) in &live {
            let apart = r.x + r.width <= other.x
                || other.x + other.width <= r.x
                || r.y + r.height <= other.y
                || other.y + other.height <= r.y;
            assert!(apart);
        }
        live.push((k, r));
        assert_eq!(live.len(), c.len());
    }
    // Every live glyph's texels are its own.
    for (k, r) in &live {
        for y in r.y..r.y + r.height {
            for x in r.x..r.x + r.width {
                assert_eq!(c.pixels()[y as usize * 16 + x as usize], k.glyph as u8 + 1);
            }
        }
    }
}

#[test]
fn snap_brings_down_to_a_multiple() {
    assert_eq!(snap(0, 8), 0);
    assert_eq!(snap(7, 8), 0);
    assert_eq!(snap(8, 8), 8);
    assert_eq!(snap(23, 8), 16);
    assert_eq!(snap(u32::MAX, 16), u32::MAX - 15);
    assert_eq!(snap(23, 1), 23);
    assert_eq!(snap(23, 0), 23);
    assert_eq!(snap(5, u32::MAX), 0);
}

#[test]
fn requests_within_tolerance_share_an_entry() {
    let config = AtlasConfig { atlas_width: 8, atlas_height: 8, scale_tolerance: 4, position_tolerance: 16 };
    let mut c = GlyphCache::with_config(&config);
    assert_eq!((c.width(), c.height()), (8, 8));
    assert_eq!(c.config(), config);
    assert_eq!(c.key_for(3, 9, 14, 40), config.glyph_key(3, 9, 14, 40));
    assert_eq!(config.glyph_key(3, 9, 14, 40), GlyphKey { font: 3, glyph: 9, scale: 12, offset: 32 });
    let first = c.insert(config.glyph_key(3, 9, 12, 32), &bitmap(2, 2, 1)).unwrap();
    assert_eq!(c.insert(config.glyph_key(3, 9, 15, 47), &bitmap(2, 2, 1)), Ok(first));
    assert_eq!(c.len(), 1);
    // One step beyond the tolerance is another glyph.
    let other = c.insert(config.glyph_key(3, 9, 16, 32), &bitmap(2, 2, 1)).unwrap();
    assert_ne!(other, first);
    let third = c.insert(config.glyph_key(3, 9, 12, 48), &bitmap(2, 2, 1)).unwrap();
    assert_ne!(third, first);
    assert_eq!(c.len(), 3);
}

#[test]
fn zero_tolerance_keeps_keys_exact() {
    let config = AtlasConfig { atlas_width: 8, atlas_height: 8, scale_tolerance: 0, position_tolerance: 0 };
    assert_eq!(config.glyph_key(1, 2, 13, 7), GlyphKey { font: 1, glyph: 2, scale: 13, offset: 7 });
    assert_eq!(GlyphCache::new(8, 8).config(), config);
    assert_eq!(GlyphCache::new(8, 8).key_for(1, 2, 13, 7), GlyphKey { font: 1, glyph: 2, scale: 13, offset: 7 });
}

#[test]
fn frames_count_up_and_change_nothing_else() {
    let mut c = GlyphCache::new(4, 2);
    assert_eq!(c.frame(), 0);
    c.insert(key(1), &bitmap(2, 2, 1)).unwrap();
    c.next_frame();
    c.next_frame();
    assert_eq!(c.frame(), 2);
    assert!(c.contains(key(1)));
    assert_eq!(c.get(key(1)), Some(rect(0, 0, 2, 2)));
    assert_eq!(c.pixels(), &vec![1, 1, 0, 0, 1, 1, 0, 0]);
}

#[test]
fn glyph_of_an_earlier_frame_goes_before_one_of_this_frame() {
    let mut c = GlyphCache::new(4, 2);
    c.insert(key(1), &bitmap(2, 2, 1)).unwrap();
    c.insert(key(2), &bitmap(2, 2, 2)).unwrap();
    c.next_frame();
    // Only key 2 is used in the new frame.
    c.get(key(2));
    c.insert(key(3), &bitmap(2, 2, 3)).unwrap();
    assert!(!c.contains(key(1)));
    assert!(c.contains(key(2)));
    assert!(c.contains(key(3)));
}
