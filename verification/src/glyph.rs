//! The glyph cache: a fixed atlas in which rasterized glyphs are packed,
//! found again by their key, and given up least recently used first.

use vstd::prelude::*;
use crate::atlas::{blit, blit_into, find_slot, has_slot, lemma_area_bound, lemma_empty_atlas_slot, lemma_slot_unique, slot};
use crate::glyph_laws::{lemma_drop_first_wf, lemma_placed_wf, lemma_touched_wf};

verus! {

/// What identifies a rasterized glyph: the font, the glyph in it, the scale
/// it was rasterized at, and the offset of its position below a whole unit.
#[derive(Clone, Copy, Debug, PartialEq, Eq, Hash, Structural)]
pub struct GlyphKey {
    pub font: u32,
    pub glyph: u32,
    pub scale: u32,
    pub offset: u32,
}

/// What a host fixes when it makes a cache: the size of the atlas, and how
/// far two scales, or two offsets, may lie apart and still share a
/// rasterized glyph.
#[derive(Clone, Copy, Debug, PartialEq, Eq, Hash, Structural)]
pub struct AtlasConfig {
    pub atlas_width: u16,
    pub atlas_height: u16,
    pub scale_tolerance: u32,
    pub position_tolerance: u32,
}

/// `value` brought down to a multiple of `tolerance`; `value` itself where
/// the tolerance is 0.
pub open spec fn snapped(value: u32, tolerance: u32) -> u32 {
    if tolerance == 0 {
        value
    } else {
        (value - value % tolerance) as u32
    }
}

/// Snapping brings a value down by less than the tolerance, to a multiple
/// of it, and leaves a snapped value as it is.
pub proof fn lemma_snapped(value: u32, tolerance: u32)
    requires
        tolerance > 0,
    ensures
        value % tolerance <= value,
        snapped(value, tolerance) <= value,
        value - snapped(value, tolerance) < tolerance,
        snapped(value, tolerance) % tolerance == 0,
        snapped(snapped(value, tolerance), tolerance) == snapped(value, tolerance),
{
    let v = value as int;
    let t = tolerance as int;
    vstd::arithmetic::div_mod::lemma_mod_bound(v, t);
    vstd::arithmetic::div_mod::lemma_fundamental_div_mod(v, t);
    vstd::arithmetic::div_mod::lemma_mod_multiples_basic(v / t, t);
    assert(t * (v / t) == (v / t) * t) by (nonlinear_arith);
    assert(0 <= t * (v / t)) by (nonlinear_arith)
        requires
            0 <= v,
            0 < t,
            v == t * (v / t) + v % t,
            v % t < t,
    ;
}

/// Two values between a multiple of the tolerance and the next snap to
/// the same value.
pub proof fn lemma_snapped_together(a: u32, b: u32, tolerance: u32)
    requires
        tolerance > 0,
        snapped(a, tolerance) <= b < snapped(a, tolerance) + tolerance,
    ensures
        snapped(b, tolerance) == snapped(a, tolerance),
{
    let t = tolerance as int;
    let s = snapped(a, tolerance) as int;
    lemma_snapped(a, tolerance);
    vstd::arithmetic::div_mod::lemma_fundamental_div_mod(a as int, t);
    assert(t * (a as int / t) == (a as int / t) * t) by (nonlinear_arith);
    vstd::arithmetic::div_mod::lemma_fundamental_div_mod_converse(b as int, t, a as int / t, b - s);
}

/// `value` brought down to a multiple of `tolerance`.
pub fn snap(value: u32, tolerance: u32) -> (r: u32)
    ensures
        r == snapped(value, tolerance),
{
    if tolerance == 0 {
        value
    } else {
        proof {
            lemma_snapped(value, tolerance);
        }
        value - value % tolerance
    }
}

impl AtlasConfig {
    /// The key under which a glyph is cached: its scale and its offset are
    /// snapped to the tolerances, so that requests which differ by less
    /// share an entry.
    pub open spec fn glyph_key_spec(self, font: u32, glyph: u32, scale: u32, offset: u32) -> GlyphKey {
        GlyphKey {
            font,
            glyph,
            scale: snapped(scale, self.scale_tolerance),
            offset: snapped(offset, self.position_tolerance),
        }
    }

    pub fn glyph_key(&self, font: u32, glyph: u32, scale: u32, offset: u32) -> (key: GlyphKey)
        ensures
            key == self.glyph_key_spec(font, glyph, scale, offset),
    {
        GlyphKey { font, glyph, scale: snap(scale, self.scale_tolerance), offset: snap(offset, self.position_tolerance) }
    }
}

/// A rectangle of texels in the atlas, given by its corner and its size.
#[derive(Clone, Copy, Debug, PartialEq, Eq, Hash, Structural)]
pub struct AtlasRect {
    pub x: u16,
    pub y: u16,
    pub width: u16,
    pub height: u16,
}

/// A cached glyph, the place of its texels, and the frame in which it was
/// last asked for.
#[derive(Clone, Copy, Debug, PartialEq, Eq, Hash, Structural)]
pub struct GlyphEntry {
    pub key: GlyphKey,
    pub rect: AtlasRect,
    pub last_used_frame: u64,
}

/// Why a glyph has no place in the atlas.
#[derive(Clone, Copy, Debug, PartialEq, Eq, Hash, Structural)]
pub enum CacheError {
    /// The glyph is wider or taller than the atlas: no eviction makes room.
    CacheCapacityExceeded,
}

impl AtlasRect {
    /// Whether the two rectangles share a texel.
    pub open spec fn overlaps(self, other: AtlasRect) -> bool {
        &&& self.x < other.x + other.width
        &&& other.x < self.x + self.width
        &&& self.y < other.y + other.height
        &&& other.y < self.y + self.height
    }

    /// Whether the rectangle lies inside an atlas of the given size.
    pub open spec fn within(self, width: u16, height: u16) -> bool {
        self.x + self.width <= width && self.y + self.height <= height
    }

    /// Whether the texel `(px, py)` lies in the rectangle.
    pub open spec fn holds(self, px: int, py: int) -> bool {
        self.x <= px < self.x + self.width && self.y <= py < self.y + self.height
    }

    pub(crate) fn overlaps_exec(&self, other: &AtlasRect) -> (r: bool)
        ensures
            r == self.overlaps(*other),
    {
        (self.x as u32) < other.x as u32 + other.width as u32 && (other.x as u32) < self.x as u32
            + self.width as u32 && (self.y as u32) < other.y as u32 + other.height as u32 && (other.y as u32)
            < self.y as u32 + self.height as u32
    }
}

/// The position of `key` among `entries`, if it is cached.
pub open spec fn position_of(entries: Seq<GlyphEntry>, key: GlyphKey) -> Option<int>
    decreases entries.len(),
{
    if entries.len() == 0 {
        None
    } else if entries.last().key == key {
        Some(entries.len() - 1)
    } else {
        position_of(entries.drop_last(), key)
    }
}

pub proof fn lemma_position_of(entries: Seq<GlyphEntry>, key: GlyphKey)
    ensures
        match position_of(entries, key) {
            Some(i) => 0 <= i < entries.len() && entries[i].key == key && forall|j: int|
                i < j < entries.len() ==> (#[trigger] entries[j]).key != key,
            None => forall|j: int| 0 <= j < entries.len() ==> (#[trigger] entries[j]).key != key,
        },
    decreases entries.len(),
{
    if entries.len() > 0 && entries.last().key != key {
        let rest = entries.drop_last();
        lemma_position_of(rest, key);
        assert forall|j: int| 0 <= j < rest.len() implies (#[trigger] entries[j]) == rest[j] by {}
        match position_of(rest, key) {
            Some(i) => {
                assert forall|j: int| i < j < entries.len() implies (#[trigger] entries[j]).key != key by {
                    if j < rest.len() {
                        assert(rest[j].key != key);
                    }
                }
            },
            None => {
                assert forall|j: int| 0 <= j < entries.len() implies (#[trigger] entries[j]).key != key by {
                    if j < rest.len() {
                        assert(rest[j].key != key);
                    }
                }
            },
        }
    }
}

/// A rasterized glyph as a value: its size and its coverage, row by row.
pub struct BitmapModel {
    pub width: u16,
    pub height: u16,
    pub coverage: Seq<u8>,
}

/// A rasterized glyph: `width * height` coverage values, row by row.
#[derive(Debug)]
pub struct GlyphBitmap {
    width: u16,
    height: u16,
    coverage: Vec<u8>,
}

impl View for GlyphBitmap {
    type V = BitmapModel;

    closed spec fn view(&self) -> BitmapModel {
        BitmapModel { width: self.width, height: self.height, coverage: self.coverage@ }
    }
}

impl GlyphBitmap {
    #[verifier::type_invariant]
    spec fn complete(self) -> bool {
        self.coverage@.len() == self.width * self.height
    }

    /// A bitmap of `width` by `height` texels, if `coverage` has one value
    /// for each of them.
    pub fn new(width: u16, height: u16, coverage: Vec<u8>) -> (b: Option<GlyphBitmap>)
        ensures
            b is Some <==> coverage@.len() == width * height,
            b is Some ==> b->0@ == (BitmapModel { width, height, coverage: coverage@ }),
    {
        proof {
            lemma_area_bound(width as int, height as int, 0xffff, 0xffff);
        }
        if coverage.len() == (width as usize) * (height as usize) {
            Some(GlyphBitmap { width, height, coverage })
        } else {
            None
        }
    }

    pub fn width(&self) -> (w: u16)
        ensures
            w == self@.width,
    {
        self.width
    }

    pub fn height(&self) -> (h: u16)
        ensures
            h == self@.height,
    {
        self.height
    }

    pub fn coverage(&self) -> (c: &Vec<u8>)
        ensures
            c@ == self@.coverage,
            c@.len() == self@.width * self@.height,
    {
        proof {
            use_type_invariant(self);
        }
        &self.coverage
    }
}

/// The entries that stay when room is made for a glyph of `w` by `h` texels:
/// while there is no place for it, the least recently used entry goes.
pub open spec fn room_for(entries: Seq<GlyphEntry>, width: u16, height: u16, w: u16, h: u16) -> Seq<GlyphEntry>
    decreases entries.len(),
{
    if entries.len() == 0 || has_slot(entries, width, height, w, h) {
        entries
    } else {
        room_for(entries.drop_first(), width, height, w, h)
    }
}

/// The cache as a value. The entries stand least recently used first.
pub struct CacheModel {
    pub width: u16,
    pub height: u16,
    pub entries: Seq<GlyphEntry>,
    pub pixels: Seq<u8>,
    pub dirty: bool,
    /// The number of the frame that is being drawn.
    pub frame: u64,
    /// How far two scales may lie apart and share an entry.
    pub scale_tolerance: u32,
    /// How far two offsets may lie apart and share an entry.
    pub position_tolerance: u32,
}

impl CacheModel {
    /// No key is cached twice, every entry lies inside the atlas, no two
    /// entries share a texel, there is one value for each texel, and an
    /// entry was last used no later than the entries behind it.
    pub open spec fn wf(self) -> bool {
        &&& self.pixels.len() == self.width * self.height
        &&& forall|i: int|
            0 <= i < self.entries.len() ==> (#[trigger] self.entries[i]).rect.within(self.width, self.height)
                && self.entries[i].last_used_frame <= self.frame
        &&& forall|i: int, j: int|
            0 <= i < j < self.entries.len() ==> (#[trigger] self.entries[i]).key != (#[trigger] self.entries[j]).key
                && !self.entries[i].rect.overlaps(self.entries[j].rect) && self.entries[i].last_used_frame
                <= self.entries[j].last_used_frame
    }

    pub open spec fn contains(self, key: GlyphKey) -> bool {
        position_of(self.entries, key) is Some
    }

    /// The rectangle of the cached glyph `key`.
    pub open spec fn lookup(self, key: GlyphKey) -> Option<AtlasRect> {
        match position_of(self.entries, key) {
            Some(i) => Some(self.entries[i].rect),
            None => None,
        }
    }

    /// The cache after `key` was used: its entry is the most recently used,
    /// and was last used in the current frame.
    pub open spec fn touched(self, key: GlyphKey) -> CacheModel {
        match position_of(self.entries, key) {
            Some(i) => CacheModel {
                entries: self.entries.remove(i).push(
                    GlyphEntry { last_used_frame: self.frame, ..self.entries[i] },
                ),
                ..self
            },
            None => self,
        }
    }

    /// The cache in the next frame.
    pub open spec fn next_frame(self) -> CacheModel {
        CacheModel {
            frame: if self.frame < u64::MAX {
                (self.frame + 1) as u64
            } else {
                self.frame
            },
            ..self
        }
    }

    /// The rectangle that a glyph which is not cached is given.
    pub open spec fn place(self, bitmap: BitmapModel) -> Result<AtlasRect, CacheError> {
        if bitmap.width > self.width || bitmap.height > self.height {
            Err(CacheError::CacheCapacityExceeded)
        } else {
            let kept = room_for(self.entries, self.width, self.height, bitmap.width, bitmap.height);
            let (x, y) = slot(kept, self.width, self.height, bitmap.width, bitmap.height);
            Ok(AtlasRect { x: x as u16, y: y as u16, width: bitmap.width, height: bitmap.height })
        }
    }

    /// The cache after a glyph that was not cached was placed: room is made,
    /// the glyph is the most recently used entry, its coverage is in the
    /// atlas, and the atlas is dirty. A glyph that is too large changes
    /// nothing.
    pub open spec fn placed(self, key: GlyphKey, bitmap: BitmapModel) -> CacheModel {
        match self.place(bitmap) {
            Ok(rect) => CacheModel {
                entries: room_for(self.entries, self.width, self.height, bitmap.width, bitmap.height).push(
                    GlyphEntry { key, rect, last_used_frame: self.frame },
                ),
                pixels: blit(self.pixels, self.width, rect, bitmap.coverage),
                dirty: true,
                ..self
            },
            Err(_) => self,
        }
    }

    /// What asking for `key` with its bitmap at hand gives: the cached
    /// rectangle, or the one it is placed at.
    pub open spec fn insert_result(self, key: GlyphKey, bitmap: BitmapModel) -> Result<AtlasRect, CacheError> {
        match self.lookup(key) {
            Some(rect) => Ok(rect),
            None => self.place(bitmap),
        }
    }

    /// The cache after `key` was asked for with its bitmap at hand.
    pub open spec fn inserted(self, key: GlyphKey, bitmap: BitmapModel) -> CacheModel {
        if self.contains(key) {
            self.touched(key)
        } else {
            self.placed(key, bitmap)
        }
    }
}

/// A fixed atlas of glyph coverage and the directory of what it holds.
#[derive(Debug)]
pub struct GlyphCache {
    width: u16,
    height: u16,
    entries: Vec<GlyphEntry>,
    pixels: Vec<u8>,
    dirty: bool,
    frame: u64,
    scale_tolerance: u32,
    position_tolerance: u32,
}

impl View for GlyphCache {
    type V = CacheModel;

    closed spec fn view(&self) -> CacheModel {
        CacheModel {
            width: self.width,
            height: self.height,
            entries: self.entries@,
            pixels: self.pixels@,
            dirty: self.dirty,
            frame: self.frame,
            scale_tolerance: self.scale_tolerance,
            position_tolerance: self.position_tolerance,
        }
    }
}

impl GlyphCache {
    pub open spec fn wf(&self) -> bool {
        self@.wf()
    }

    /// The configuration that the cache was made with.
    pub open spec fn config_spec(&self) -> AtlasConfig {
        AtlasConfig {
            atlas_width: self@.width,
            atlas_height: self@.height,
            scale_tolerance: self@.scale_tolerance,
            position_tolerance: self@.position_tolerance,
        }
    }

    /// An empty cache over a clean atlas of `width` by `height` texels, all
    /// 0, with keys that are exact.
    pub fn new(width: u16, height: u16) -> (c: GlyphCache)
        ensures
            c.wf(),
            c.config_spec() == (AtlasConfig {
                atlas_width: width,
                atlas_height: height,
                scale_tolerance: 0,
                position_tolerance: 0,
            }),
            c@.entries == Seq::<GlyphEntry>::empty(),
            c@.pixels == Seq::new((width * height) as nat, |p: int| 0u8),
            !c@.dirty,
            c@.frame == 0,
    {
        proof {
            lemma_area_bound(width as int, height as int, 0xffff, 0xffff);
        }
        let total: usize = (width as usize) * (height as usize);
        let mut pixels: Vec<u8> = Vec::new();
        let mut i: usize = 0;
        while i < total
            invariant
                0 <= i <= total,
                pixels@ == Seq::new(i as nat, |p: int| 0u8),
            decreases total - i,
        {
            pixels.push(0u8);
            i += 1;
            assert(pixels@ =~= Seq::new(i as nat, |p: int| 0u8));
        }
        GlyphCache {
            width,
            height,
            entries: Vec::new(),
            pixels,
            dirty: false,
            frame: 0,
            scale_tolerance: 0,
            position_tolerance: 0,
        }
    }

    /// An empty cache over a clean atlas, made with `config`.
    pub fn with_config(config: &AtlasConfig) -> (c: GlyphCache)
        ensures
            c.wf(),
            c.config_spec() == *config,
            c@.entries == Seq::<GlyphEntry>::empty(),
            c@.pixels == Seq::new((config.atlas_width * config.atlas_height) as nat, |p: int| 0u8),
            !c@.dirty,
            c@.frame == 0,
    {
        let mut cache = GlyphCache::new(config.atlas_width, config.atlas_height);
        cache.scale_tolerance = config.scale_tolerance;
        cache.position_tolerance = config.position_tolerance;
        cache
    }

    /// The configuration that the cache was made with.
    pub fn config(&self) -> (c: AtlasConfig)
        ensures
            c == self.config_spec(),
    {
        AtlasConfig {
            atlas_width: self.width,
            atlas_height: self.height,
            scale_tolerance: self.scale_tolerance,
            position_tolerance: self.position_tolerance,
        }
    }

    /// The key under which this cache holds a glyph: scale and offset are
    /// snapped to the tolerances that the cache was made with.
    pub fn key_for(&self, font: u32, glyph: u32, scale: u32, offset: u32) -> (key: GlyphKey)
        ensures
            key == self.config_spec().glyph_key_spec(font, glyph, scale, offset),
    {
        self.config().glyph_key(font, glyph, scale, offset)
    }

    pub fn width(&self) -> (w: u16)
        ensures
            w == self@.width,
    {
        self.width
    }

    pub fn height(&self) -> (h: u16)
        ensures
            h == self@.height,
    {
        self.height
    }

    /// The number of cached glyphs.
    pub fn len(&self) -> (n: usize)
        ensures
            n == self@.entries.len(),
    {
        self.entries.len()
    }

    /// The atlas's texels, row by row.
    pub fn pixels(&self) -> (p: &Vec<u8>)
        ensures
            p@ == self@.pixels,
    {
        &self.pixels
    }

    /// The number of the frame that is being drawn.
    pub fn frame(&self) -> (f: u64)
        ensures
            f == self@.frame,
    {
        self.frame
    }

    /// Starts the next frame: what is asked for from now on was last used
    /// in it. Nothing else changes.
    pub fn next_frame(&mut self)
        requires
            old(self).wf(),
        ensures
            final(self).wf(),
            final(self)@ == old(self)@.next_frame(),
    {
        if self.frame < u64::MAX {
            self.frame = self.frame + 1;
        }
        proof {
            let before = old(self)@;
            let after = self@;
            assert(after.entries == before.entries);
            assert forall|i: int| 0 <= i < after.entries.len() implies (#[trigger] after.entries[i]).rect.within(
                after.width,
                after.height,
            ) && after.entries[i].last_used_frame <= after.frame by {
                assert(before.entries[i].rect.within(before.width, before.height));
                assert(before.entries[i].last_used_frame <= before.frame);
            }
            assert forall|i: int, j: int| 0 <= i < j < after.entries.len() implies (#[trigger] after.entries[i]).key != (
            #[trigger] after.entries[j]).key && !after.entries[i].rect.overlaps(after.entries[j].rect)
                && after.entries[i].last_used_frame <= after.entries[j].last_used_frame by {
                assert(before.entries[i].key != before.entries[j].key);
            }
        }
    }

    /// Whether the atlas changed since the last upload was acknowledged.
    pub fn is_dirty(&self) -> (d: bool)
        ensures
            d == self@.dirty,
    {
        self.dirty
    }

    /// Takes note that the atlas was uploaded: it is clean again. Nothing
    /// else clears the flag.
    pub fn acknowledge_upload(&mut self)
        ensures
            final(self)@ == (CacheModel { dirty: false, ..old(self)@ }),
    {
        self.dirty = false;
    }

    fn find(&self, key: GlyphKey) -> (r: Option<usize>)
        ensures
            match r {
                Some(i) => position_of(self@.entries, key) == Some(i as int) && i < self@.entries.len(),
                None => position_of(self@.entries, key) is None,
            },
    {
        proof {
            lemma_position_of(self@.entries, key);
        }
        let mut i: usize = self.entries.len();
        while i > 0
            invariant
                0 <= i <= self.entries@.len(),
                forall|j: int| i <= j < self.entries@.len() ==> (#[trigger] self.entries@[j]).key != key,
            decreases i,
        {
            i -= 1;
            if self.entries[i].key == key {
                proof {
                    lemma_position_of(self@.entries, key);
                }
                return Some(i);
            }
        }
        proof {
            lemma_position_of(self@.entries, key);
        }
        None
    }

    /// Whether `key` is cached. The order of use is not touched.
    pub fn contains(&self, key: GlyphKey) -> (c: bool)
        ensures
            c == self@.contains(key),
    {
        self.find(key).is_some()
    }

    /// The rectangle of `key`, if it is cached; the entry is then the most
    /// recently used. Texels and dirty flag stay as they are.
    pub fn get(&mut self, key: GlyphKey) -> (r: Option<AtlasRect>)
        requires
            old(self).wf(),
        ensures
            final(self).wf(),
            r == old(self)@.lookup(key),
            final(self)@ == old(self)@.touched(key),
    {
        match self.find(key) {
            Some(i) => {
                let entry = self.entries.remove(i);
                self.entries.push(GlyphEntry { key: entry.key, rect: entry.rect, last_used_frame: self.frame });
                proof {
                    lemma_touched_wf(old(self)@, key);
                }
                Some(entry.rect)
            },
            None => None,
        }
    }
}

impl GlyphCache {
    /// Places a glyph that is not cached: makes room for it, least recently
    /// used entries first, and copies its coverage into the atlas.
#[verifier::rlimit(40)]
    fn place(&mut self, key: GlyphKey, bitmap: &GlyphBitmap) -> (r: Result<AtlasRect, CacheError>)
        requires
            old(self).wf(),
            !old(self)@.contains(key),
        ensures
            final(self).wf(),
            r == old(self)@.place(bitmap@),
            final(self)@ == old(self)@.placed(key, bitmap@),
    {
        let w = bitmap.width();
        let h = bitmap.height();
        if w > self.width || h > self.height {
            return Err(CacheError::CacheCapacityExceeded);
        }
        proof {
            lemma_placed_wf(old(self)@, key, bitmap@);
        }
        loop
            invariant
                self.wf(),
                w == bitmap@.width,
                h == bitmap@.height,
                w <= self@.width,
                h <= self@.height,
                self@.width == old(self)@.width,
                self@.height == old(self)@.height,
                self@.pixels == old(self)@.pixels,
                self@.dirty == old(self)@.dirty,
                self@.frame == old(self)@.frame,
                self@.scale_tolerance == old(self)@.scale_tolerance,
                self@.position_tolerance == old(self)@.position_tolerance,
                old(self)@.placed(key, bitmap@).wf(),
                room_for(self@.entries, self@.width, self@.height, w, h) == room_for(
                    old(self)@.entries,
                    self@.width,
                    self@.height,
                    w,
                    h,
                ),
            decreases self@.entries.len(),
        {
            match find_slot(&self.entries, self.width, self.height, w, h) {
                Some((x, y)) => {
                    proof {
                        lemma_slot_unique(self@.entries, self@.width, self@.height, w, h, x as int, y as int);
                    }
                    let rect = AtlasRect { x, y, width: w, height: h };
                    self.entries.push(GlyphEntry { key, rect, last_used_frame: self.frame });
                    blit_into(&mut self.pixels, self.width, self.height, rect, bitmap.coverage());
                    self.dirty = true;
                    return Ok(rect);
                },
                None => {
                    proof {
                        if self@.entries.len() == 0 {
                            lemma_empty_atlas_slot(self@.width, self@.height, w, h);
                            assert(self@.entries =~= Seq::<GlyphEntry>::empty());
                        }
                        lemma_drop_first_wf(self@);
                    }
                    let ghost before = self@.entries;
                    self.entries.remove(0);
                    assert(self@.entries =~= before.drop_first());
                },
            }
        }
    }

    /// The rectangle of `key` where its bitmap is at hand. A cached glyph
    /// keeps its rectangle and becomes the most recently used; the bitmap is
    /// not looked at. A glyph that is not cached is placed: least recently
    /// used entries give way until it has room, its coverage is copied into
    /// the atlas, and the atlas is dirty. A glyph that is wider or taller
    /// than the atlas fails and changes nothing.
    pub fn insert(&mut self, key: GlyphKey, bitmap: &GlyphBitmap) -> (r: Result<AtlasRect, CacheError>)
        requires
            old(self).wf(),
        ensures
            final(self).wf(),
            r == old(self)@.insert_result(key, bitmap@),
            final(self)@ == old(self)@.inserted(key, bitmap@),
    {
        match self.get(key) {
            Some(rect) => Ok(rect),
            None => self.place(key, bitmap),
        }
    }

    /// The rectangle of `key`, rasterized only if it is not cached: a cached
    /// glyph is answered as by `get`, and `rasterize` is not called; else
    /// `rasterize` is called once and its bitmap is placed as by `insert`.
    pub fn get_or_insert<F: FnOnce() -> GlyphBitmap>(&mut self, key: GlyphKey, rasterize: F) -> (r: Result<
        AtlasRect,
        CacheError,
    >)
        requires
            old(self).wf(),
            call_requires(rasterize, ()),
        ensures
            final(self).wf(),
            old(self)@.contains(key) ==> r == Ok::<AtlasRect, CacheError>(old(self)@.lookup(key)->0) && final(self)@
                == old(self)@.touched(key),
            !old(self)@.contains(key) ==> exists|bitmap: GlyphBitmap|
                call_ensures(rasterize, (), bitmap) && r == old(self)@.place(bitmap@) && final(self)@
                    == old(self)@.placed(key, bitmap@),
    {
        match self.get(key) {
            Some(rect) => Ok(rect),
            None => {
                let bitmap = rasterize();
                self.place(key, &bitmap)
            },
        }
    }
}

} // verus!
