//! What holds of the glyph cache: requests keep it well-formed, a cached
//! glyph keeps its rectangle, and room is made least recently used first.

use vstd::prelude::*;
use crate::atlas::{has_slot, is_free, is_slot, lemma_empty_atlas_slot, slot};
use crate::glyph::{
    lemma_position_of, position_of, room_for, AtlasRect, BitmapModel, CacheModel, GlyphEntry, GlyphKey,
};

verus! {

/// Where the entry at position `a` stood before the entry at `i` moved to
/// the end of `n` entries.
spec fn came_from(a: int, i: int, n: int) -> int {
    if a < i {
        a
    } else if a < n - 1 {
        a + 1
    } else {
        i
    }
}

/// Using a cached glyph keeps the cache well-formed, keeps what is cached
/// and where, and makes the glyph the most recently used.
#[verifier::rlimit(40)]
pub proof fn lemma_touched_wf(cache: CacheModel, key: GlyphKey)
    requires
        cache.wf(),
    ensures
        cache.touched(key).wf(),
        cache.touched(key).entries.len() == cache.entries.len(),
        forall|k: GlyphKey| cache.touched(key).lookup(k) == cache.lookup(k),
        cache.contains(key) ==> cache.touched(key).entries.last().key == key && cache.touched(
            key,
        ).entries.last().last_used_frame == cache.frame,
{
    lemma_position_of(cache.entries, key);
    match position_of(cache.entries, key) {
        Some(i) => {
            let old_entries = cache.entries;
            let new_entries = cache.touched(key).entries;
            let n = old_entries.len() as int;
            assert forall|a: int| 0 <= a < n implies (#[trigger] new_entries[a]).key == old_entries[came_from(
                a,
                i,
                n,
            )].key && new_entries[a].rect == old_entries[came_from(a, i, n)].rect && old_entries[came_from(
                a,
                i,
                n,
            )].last_used_frame <= new_entries[a].last_used_frame <= cache.frame by {}
            assert forall|k: GlyphKey| cache.touched(key).lookup(k) == cache.lookup(k) by {
                lemma_position_of(old_entries, k);
                lemma_position_of(new_entries, k);
                match position_of(old_entries, k) {
                    Some(a) => {
                        let b = if a < i {
                            a
                        } else if a == i {
                            n - 1
                        } else {
                            a - 1
                        };
                        assert(came_from(b, i, n) == a);
                        assert(new_entries[b].key == old_entries[a].key);
                        match position_of(new_entries, k) {
                            Some(c) => {
                                let c0 = came_from(c, i, n);
                                assert(new_entries[c].key == old_entries[c0].key);
                                if c0 != a {
                                    if c0 < a {
                                        assert(old_entries[c0].key != old_entries[a].key);
                                    } else {
                                        assert(old_entries[a].key != old_entries[c0].key);
                                    }
                                }
                            },
                            None => {
                                assert(new_entries[b].key != k);
                            },
                        }
                    },
                    None => {
                        match position_of(new_entries, k) {
                            Some(c) => {
                                let c0 = came_from(c, i, n);
                                assert(new_entries[c].key == old_entries[c0].key);
                                assert(old_entries[c0].key != k);
                            },
                            None => {},
                        }
                    },
                }
            }
            assert forall|a: int, b: int| 0 <= a < b < n implies (#[trigger] new_entries[a]).key != (
            #[trigger] new_entries[b]).key && !new_entries[a].rect.overlaps(new_entries[b].rect)
                && new_entries[a].last_used_frame <= new_entries[b].last_used_frame by {
                let a0 = came_from(a, i, n);
                let b0 = came_from(b, i, n);
                assert(new_entries[a].key == old_entries[a0].key);
                assert(new_entries[b].key == old_entries[b0].key);
                if a0 < b0 {
                    assert(old_entries[a0].key != old_entries[b0].key);
                } else {
                    assert(old_entries[b0].key != old_entries[a0].key);
                }
                assert(new_entries[a] == old_entries[a0]);
                assert(old_entries[a0].last_used_frame <= cache.frame);
            }
            assert forall|a: int| 0 <= a < new_entries.len() implies (#[trigger] new_entries[a]).rect.within(
                cache.width,
                cache.height,
            ) && new_entries[a].last_used_frame <= cache.frame by {
                let a0 = came_from(a, i, n);
                assert(new_entries[a].rect == old_entries[a0].rect);
            }
        },
        None => {},
    }
}

/// How many entries go when room is made for a glyph of `w` by `h` texels.
pub open spec fn evictions(entries: Seq<GlyphEntry>, width: u16, height: u16, w: u16, h: u16) -> nat
    decreases entries.len(),
{
    if entries.len() == 0 || has_slot(entries, width, height, w, h) {
        0
    } else {
        1 + evictions(entries.drop_first(), width, height, w, h)
    }
}

/// Room is made from the least recently used end, and only as far as
/// needed: the entries that go are the first `evictions` ones, the others
/// stay in their order, and as long as one more had to go there was no
/// place for the glyph.
pub proof fn lemma_eviction_order(entries: Seq<GlyphEntry>, width: u16, height: u16, w: u16, h: u16)
    ensures
        evictions(entries, width, height, w, h) <= entries.len(),
        room_for(entries, width, height, w, h) == entries.subrange(
            evictions(entries, width, height, w, h) as int,
            entries.len() as int,
        ),
        forall|m: int|
            0 <= m < evictions(entries, width, height, w, h) ==> !has_slot(
                #[trigger] entries.subrange(m, entries.len() as int),
                width,
                height,
                w,
                h,
            ),
    decreases entries.len(),
{
    let n = evictions(entries, width, height, w, h) as int;
    if entries.len() == 0 || has_slot(entries, width, height, w, h) {
        assert(entries.subrange(0, entries.len() as int) =~= entries);
    } else {
        let rest = entries.drop_first();
        lemma_eviction_order(rest, width, height, w, h);
        assert(rest.subrange(n - 1, rest.len() as int) =~= entries.subrange(n, entries.len() as int));
        assert forall|m: int| 0 <= m < n implies !has_slot(
            #[trigger] entries.subrange(m, entries.len() as int),
            width,
            height,
            w,
            h,
        ) by {
            if m == 0 {
                assert(entries.subrange(0, entries.len() as int) =~= entries);
            } else {
                assert(rest.subrange(m - 1, rest.len() as int) =~= entries.subrange(m, entries.len() as int));
            }
        }
    }
}

proof fn lemma_position_in_suffix(cache: CacheModel, n: int, i: int)
    requires
        cache.wf(),
        0 <= n <= cache.entries.len(),
        0 <= i < cache.entries.len(),
    ensures
        position_of(cache.entries, cache.entries[i].key) == Some(i),
        position_of(cache.entries.subrange(n, cache.entries.len() as int), cache.entries[i].key) == (if i >= n {
            Some(i - n)
        } else {
            None
        }),
{
    let key = cache.entries[i].key;
    let suffix = cache.entries.subrange(n, cache.entries.len() as int);
    lemma_position_of(cache.entries, key);
    lemma_position_of(suffix, key);
    match position_of(cache.entries, key) {
        Some(a) => {
            if a < i {
                assert(cache.entries[a].key != cache.entries[i].key);
            }
        },
        None => {
            assert(cache.entries[i].key != key);
        },
    }
    match position_of(suffix, key) {
        Some(a) => {
            assert(suffix[a] == cache.entries[a + n]);
            if a + n < i {
                assert(cache.entries[a + n].key != cache.entries[i].key);
            } else if a + n > i {
                assert(cache.entries[i].key != cache.entries[a + n].key);
            }
        },
        None => {
            if i >= n {
                assert(suffix[i - n] == cache.entries[i]);
            }
        },
    }
}

proof fn lemma_position_after_push(entries: Seq<GlyphEntry>, e: GlyphEntry, key: GlyphKey)
    ensures
        position_of(entries.push(e), key) == (if e.key == key {
            Some(entries.len() as int)
        } else {
            position_of(entries, key)
        }),
{
    assert(entries.push(e).drop_last() =~= entries);
}

/// Placing a glyph gives up the least recently used entries first: the
/// first `evictions` entries are no longer cached, so asking for one of them
/// again rasterizes it again, and every other entry keeps its rectangle.
pub proof fn lemma_least_recently_used_go_first(cache: CacheModel, key: GlyphKey, bitmap: BitmapModel, i: int)
    requires
        cache.wf(),
        !cache.contains(key),
        cache.place(bitmap) is Ok,
        0 <= i < cache.entries.len(),
    ensures
        i < evictions(cache.entries, cache.width, cache.height, bitmap.width, bitmap.height) ==> !cache.placed(
            key,
            bitmap,
        ).contains(cache.entries[i].key),
        i >= evictions(cache.entries, cache.width, cache.height, bitmap.width, bitmap.height) ==> cache.placed(
            key,
            bitmap,
        ).lookup(cache.entries[i].key) == Some(cache.entries[i].rect),
{
    let n = evictions(cache.entries, cache.width, cache.height, bitmap.width, bitmap.height) as int;
    lemma_eviction_order(cache.entries, cache.width, cache.height, bitmap.width, bitmap.height);
    let kept = room_for(cache.entries, cache.width, cache.height, bitmap.width, bitmap.height);
    lemma_position_in_suffix(cache, n, i);
    let rect = cache.place(bitmap)->Ok_0;
    lemma_position_after_push(kept, GlyphEntry { key, rect, last_used_frame: cache.frame }, cache.entries[i].key);
    assert(cache.contains(cache.entries[i].key));
    if i >= n {
        assert(kept[i - n] == cache.entries[i]);
    }
}

/// What gives way was last used no later than what stays.
pub proof fn lemma_evicted_are_oldest(cache: CacheModel, w: u16, h: u16, i: int, j: int)
    requires
        cache.wf(),
        0 <= i < evictions(cache.entries, cache.width, cache.height, w, h) <= j < cache.entries.len(),
    ensures
        cache.entries[i].last_used_frame <= cache.entries[j].last_used_frame,
{
}

/// Asking twice for one glyph gives one rectangle: after a request for
/// `key` that succeeded, the glyph is cached, and a second request for it,
/// whatever bitmap comes with it, returns the rectangle of the first.
pub proof fn lemma_repeated_request(cache: CacheModel, key: GlyphKey, first: BitmapModel, second: BitmapModel)
    requires
        cache.wf(),
        cache.insert_result(key, first) is Ok,
    ensures
        cache.inserted(key, first).contains(key),
        cache.inserted(key, first).insert_result(key, second) == cache.insert_result(key, first),
{
    if cache.contains(key) {
        lemma_touched_wf(cache, key);
    } else {
        lemma_placed_wf(cache, key, first);
    }
}

/// A cached glyph keeps its rectangle for as long as it is cached: a
/// request for any glyph either gives the entry of `key` up or leaves its
/// rectangle as it was.
pub proof fn lemma_rectangle_is_stable(cache: CacheModel, key: GlyphKey, other: GlyphKey, bitmap: BitmapModel)
    requires
        cache.wf(),
        cache.contains(key),
        cache.inserted(other, bitmap).contains(key),
    ensures
        cache.inserted(other, bitmap).lookup(key) == cache.lookup(key),
{
    if cache.contains(other) {
        lemma_touched_wf(cache, other);
    } else if cache.place(bitmap) is Ok {
        lemma_position_of(cache.entries, key);
        let i = position_of(cache.entries, key)->0;
        assert(cache.entries[i].key == key);
        lemma_least_recently_used_go_first(cache, other, bitmap, i);
    }
}

/// Making room keeps a well-formed directory well-formed, drops no key
/// that was not there, and ends with a place for the glyph if it is no
/// larger than the atlas.
pub proof fn lemma_room_for(cache: CacheModel, w: u16, h: u16)
    requires
        cache.wf(),
    ensures
        (CacheModel { entries: room_for(cache.entries, cache.width, cache.height, w, h), ..cache }).wf(),
        forall|k: GlyphKey|
            !cache.contains(k) ==> position_of(room_for(cache.entries, cache.width, cache.height, w, h), k) is None,
        w <= cache.width && h <= cache.height ==> has_slot(
            room_for(cache.entries, cache.width, cache.height, w, h),
            cache.width,
            cache.height,
            w,
            h,
        ),
    decreases cache.entries.len(),
{
    if cache.entries.len() == 0 {
        if w <= cache.width && h <= cache.height {
            lemma_empty_atlas_slot(cache.width, cache.height, w, h);
            assert(cache.entries =~= Seq::<GlyphEntry>::empty());
        }
    } else if has_slot(cache.entries, cache.width, cache.height, w, h) {
    } else {
        let rest = CacheModel { entries: cache.entries.drop_first(), ..cache };
        lemma_drop_first_wf(cache);
        lemma_room_for(rest, w, h);
        assert forall|k: GlyphKey| !cache.contains(k) implies position_of(
            room_for(cache.entries, cache.width, cache.height, w, h),
            k,
        ) is None by {
            assert(position_of(cache.entries.drop_first(), k) is None);
            assert(!rest.contains(k));
        }
    }
}

/// Giving up the least recently used entry keeps the cache well-formed and
/// caches no key that was not cached.
pub proof fn lemma_drop_first_wf(cache: CacheModel)
    requires
        cache.wf(),
        cache.entries.len() > 0,
    ensures
        (CacheModel { entries: cache.entries.drop_first(), ..cache }).wf(),
        forall|k: GlyphKey|
            !cache.contains(k) ==> position_of(cache.entries.drop_first(), k) is None,
        !(CacheModel { entries: cache.entries.drop_first(), ..cache }).contains(cache.entries[0].key),
{
    let rest = cache.entries.drop_first();
    assert forall|i: int| 0 <= i < rest.len() implies #[trigger] rest[i] == cache.entries[i + 1] by {}
    assert forall|i: int, j: int| 0 <= i < j < rest.len() implies (#[trigger] rest[i]).key != (#[trigger] rest[j]).key
        && !rest[i].rect.overlaps(rest[j].rect) by {
        assert(rest[i] == cache.entries[i + 1]);
        assert(rest[j] == cache.entries[j + 1]);
    }
    assert forall|i: int| 0 <= i < rest.len() implies (#[trigger] rest[i]).rect.within(cache.width, cache.height) by {
        assert(rest[i] == cache.entries[i + 1]);
    }
    assert forall|k: GlyphKey| !cache.contains(k) implies position_of(rest, k) is None by {
        lemma_position_of(cache.entries, k);
        lemma_position_of(rest, k);
        if position_of(rest, k) is Some {
            let i = position_of(rest, k)->0;
            assert(cache.entries[i + 1].key == k);
        }
    }
    lemma_position_of(rest, cache.entries[0].key);
    if position_of(rest, cache.entries[0].key) is Some {
        let i = position_of(rest, cache.entries[0].key)->0;
        assert(cache.entries[0].key != cache.entries[i + 1].key);
    }
}

/// Placing a glyph that is not cached keeps the cache well-formed; where it
/// succeeds, the glyph is cached at the rectangle handed out, which lies in
/// the atlas and shares no texel with another entry.
#[verifier::rlimit(40)]
pub proof fn lemma_placed_wf(cache: CacheModel, key: GlyphKey, bitmap: BitmapModel)
    requires
        cache.wf(),
        !cache.contains(key),
    ensures
        cache.placed(key, bitmap).wf(),
        cache.place(bitmap) is Err <==> (bitmap.width > cache.width || bitmap.height > cache.height),
        cache.place(bitmap) is Ok ==> cache.placed(key, bitmap).lookup(key) == Some(cache.place(bitmap)->Ok_0),
        cache.place(bitmap) is Ok ==> cache.place(bitmap)->Ok_0.within(cache.width, cache.height),
{
    if bitmap.width <= cache.width && bitmap.height <= cache.height {
        let w = bitmap.width;
        let h = bitmap.height;
        lemma_room_for(cache, w, h);
        let kept = room_for(cache.entries, cache.width, cache.height, w, h);
        let (x, y) = slot(kept, cache.width, cache.height, w, h);
        assert(is_slot(kept, cache.width, cache.height, w, h, x, y));
        let rect = AtlasRect { x: x as u16, y: y as u16, width: w, height: h };
        let after = cache.placed(key, bitmap);
        let entry = GlyphEntry { key, rect, last_used_frame: cache.frame };
        assert(after.entries == kept.push(entry));
        lemma_position_of(kept, key);
        assert(after.entries.drop_last() =~= kept);
        let keptm = CacheModel { entries: kept, ..cache };
        assert(keptm.wf());
        assert(position_of(kept, key) is None);
        assert(is_free(kept, cache.width, cache.height, w, h, x, y));
        assert forall|i: int, j: int| 0 <= i < j < after.entries.len() implies (#[trigger] after.entries[i]).key != (
        #[trigger] after.entries[j]).key && !after.entries[i].rect.overlaps(after.entries[j].rect)
            && after.entries[i].last_used_frame <= after.entries[j].last_used_frame by {
            if j == kept.len() {
                assert(after.entries[i] == keptm.entries[i]);
                assert(after.entries[j] == entry);
                assert(kept[i].key != key);
                assert(!rect.overlaps(kept[i].rect));
                assert(keptm.entries[i].last_used_frame <= keptm.frame);
            } else {
                assert(after.entries[i] == keptm.entries[i]);
                assert(after.entries[j] == keptm.entries[j]);
            }
        }
        assert forall|i: int| 0 <= i < after.entries.len() implies (#[trigger] after.entries[i]).rect.within(
            cache.width,
            cache.height,
        ) && after.entries[i].last_used_frame <= cache.frame by {
            if i < kept.len() {
                assert(after.entries[i] == keptm.entries[i]);
                assert(keptm.entries[i].rect.within(keptm.width, keptm.height));
                assert(keptm.entries[i].last_used_frame <= keptm.frame);
            } else {
                assert(after.entries[i] == entry);
                assert(rect.x == x && rect.y == y);
            }
        }
    }
}

} // verus!
