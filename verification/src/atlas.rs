//! The packing of glyph rectangles into the atlas: where a new glyph is
//! placed, and how its coverage is copied in.

use vstd::prelude::*;
use crate::glyph::{AtlasRect, GlyphEntry};

verus! {

/// Whether every entry lies inside an atlas of the given size.
pub open spec fn all_within(entries: Seq<GlyphEntry>, width: u16, height: u16) -> bool {
    forall|i: int| 0 <= i < entries.len() ==> (#[trigger] entries[i]).rect.within(width, height)
}

/// The x coordinate of the `i`th corner: 0, then the right edge of each entry.
pub open spec fn corner_x(entries: Seq<GlyphEntry>, i: int) -> int {
    if i == 0 {
        0
    } else {
        entries[i - 1].rect.x + entries[i - 1].rect.width
    }
}

/// The y coordinate of the `j`th corner: 0, then the top edge of each entry.
pub open spec fn corner_y(entries: Seq<GlyphEntry>, j: int) -> int {
    if j == 0 {
        0
    } else {
        entries[j - 1].rect.y + entries[j - 1].rect.height
    }
}

/// Whether a glyph of `w` by `h` texels at `(x, y)` lies inside the atlas and
/// shares no texel with an entry.
pub open spec fn is_free(entries: Seq<GlyphEntry>, width: u16, height: u16, w: u16, h: u16, x: int, y: int) -> bool {
    &&& 0 <= x && x + w <= width
    &&& 0 <= y && y + h <= height
    &&& forall|k: int|
        0 <= k < entries.len() ==> !(AtlasRect { x: x as u16, y: y as u16, width: w, height: h }).overlaps(
            (#[trigger] entries[k]).rect,
        )
}

/// `(x, y)` lies no higher than `(x2, y2)`, and no further right where they
/// are level.
pub open spec fn lower_left(x: int, y: int, x2: int, y2: int) -> bool {
    y < y2 || (y == y2 && x <= x2)
}

/// Whether `(x, y)` is the place for a glyph of `w` by `h` texels: a free
/// corner, the lowest of them, and the leftmost of the lowest.
pub open spec fn is_slot(entries: Seq<GlyphEntry>, width: u16, height: u16, w: u16, h: u16, x: int, y: int) -> bool {
    &&& exists|i: int, j: int|
        0 <= i <= entries.len() && 0 <= j <= entries.len() && x == corner_x(entries, i) && y == corner_y(
            entries,
            j,
        )
    &&& is_free(entries, width, height, w, h, x, y)
    &&& forall|i: int, j: int|
        0 <= i <= entries.len() && 0 <= j <= entries.len() && is_free(
            entries,
            width,
            height,
            w,
            h,
            #[trigger] corner_x(entries, i),
            #[trigger] corner_y(entries, j),
        ) ==> lower_left(x, y, corner_x(entries, i), corner_y(entries, j))
}

/// Whether some corner is free for a glyph of `w` by `h` texels.
pub open spec fn has_slot(entries: Seq<GlyphEntry>, width: u16, height: u16, w: u16, h: u16) -> bool {
    exists|x: int, y: int| is_slot(entries, width, height, w, h, x, y)
}

/// The place for a glyph of `w` by `h` texels among `entries`.
pub open spec fn slot(entries: Seq<GlyphEntry>, width: u16, height: u16, w: u16, h: u16) -> (int, int) {
    choose|x: int, y: int| is_slot(entries, width, height, w, h, x, y)
}

/// There is at most one place for a glyph.
pub proof fn lemma_slot_unique(entries: Seq<GlyphEntry>, width: u16, height: u16, w: u16, h: u16, x: int, y: int)
    requires
        is_slot(entries, width, height, w, h, x, y),
    ensures
        has_slot(entries, width, height, w, h),
        slot(entries, width, height, w, h) == (x, y),
{
    let p = slot(entries, width, height, w, h);
    assert(is_slot(entries, width, height, w, h, p.0, p.1));
    let (i, j) = choose|i: int, j: int|
        0 <= i <= entries.len() && 0 <= j <= entries.len() && x == corner_x(entries, i) && y == corner_y(
            entries,
            j,
        );
    let (i2, j2) = choose|i: int, j: int|
        0 <= i <= entries.len() && 0 <= j <= entries.len() && p.0 == corner_x(entries, i) && p.1 == corner_y(
            entries,
            j,
        );
    assert(lower_left(x, y, corner_x(entries, i2), corner_y(entries, j2)));
    assert(lower_left(p.0, p.1, corner_x(entries, i), corner_y(entries, j)));
}

/// An empty atlas has a place for every glyph that is no larger than it:
/// its corner.
pub proof fn lemma_empty_atlas_slot(width: u16, height: u16, w: u16, h: u16)
    requires
        w <= width,
        h <= height,
    ensures
        is_slot(Seq::<GlyphEntry>::empty(), width, height, w, h, 0, 0),
{
    let entries = Seq::<GlyphEntry>::empty();
    assert(0 == corner_x(entries, 0) && 0 == corner_y(entries, 0));
}

/// A glyph that is larger than the atlas has no place in it.
pub proof fn lemma_oversized_no_slot(entries: Seq<GlyphEntry>, width: u16, height: u16, w: u16, h: u16)
    requires
        w > width || h > height,
    ensures
        !has_slot(entries, width, height, w, h),
{
}

/// Whether the corner `(i, j)` comes before row `rows`, or in it before
/// column `cols`.
spec fn scanned(i: int, j: int, rows: int, cols: int) -> bool {
    j < rows || (j == rows && i < cols)
}

/// Whether `best` is the lowest, then leftmost, free corner among the
/// scanned ones, or `None` where none of them is free.
spec fn best_among(
    entries: Seq<GlyphEntry>,
    width: u16,
    height: u16,
    w: u16,
    h: u16,
    rows: int,
    cols: int,
    best: Option<(u16, u16)>,
) -> bool {
    match best {
        Some(p) => {
            &&& exists|i: int, j: int|
                0 <= i <= entries.len() && 0 <= j <= entries.len() && p.0 == corner_x(entries, i) && p.1
                    == corner_y(entries, j)
            &&& is_free(entries, width, height, w, h, p.0 as int, p.1 as int)
            &&& forall|i: int, j: int|
                0 <= i <= entries.len() && 0 <= j <= entries.len() && scanned(i, j, rows, cols) && is_free(
                    entries,
                    width,
                    height,
                    w,
                    h,
                    #[trigger] corner_x(entries, i),
                    #[trigger] corner_y(entries, j),
                ) ==> lower_left(p.0 as int, p.1 as int, corner_x(entries, i), corner_y(entries, j))
        },
        None => forall|i: int, j: int|
            0 <= i <= entries.len() && 0 <= j <= entries.len() && scanned(i, j, rows, cols) ==> !is_free(
                entries,
                width,
                height,
                w,
                h,
                #[trigger] corner_x(entries, i),
                #[trigger] corner_y(entries, j),
            ),
    }
}

fn is_free_at(entries: &Vec<GlyphEntry>, width: u16, height: u16, x: u16, y: u16, w: u16, h: u16) -> (free: bool)
    ensures
        free == is_free(entries@, width, height, w, h, x as int, y as int),
{
    if x as u32 + w as u32 > width as u32 || y as u32 + h as u32 > height as u32 {
        return false;
    }
    let rect = AtlasRect { x, y, width: w, height: h };
    let mut k: usize = 0;
    while k < entries.len()
        invariant
            0 <= k <= entries@.len(),
            rect == (AtlasRect { x, y, width: w, height: h }),
            forall|j: int| 0 <= j < k ==> !rect.overlaps((#[trigger] entries@[j]).rect),
        decreases entries@.len() - k,
    {
        if rect.overlaps_exec(&entries[k].rect) {
            return false;
        }
        k += 1;
    }
    true
}

/// The `i`th corner coordinates: `(corner_x(i), corner_y(i))`.
fn corner(entries: &Vec<GlyphEntry>, width: u16, height: u16, i: usize) -> (c: (u16, u16))
    requires
        all_within(entries@, width, height),
        i <= entries@.len(),
    ensures
        c.0 == corner_x(entries@, i as int),
        c.1 == corner_y(entries@, i as int),
{
    if i == 0 {
        (0, 0)
    } else {
        let r = entries[i - 1].rect;
        assert(entries@[i - 1].rect.within(width, height));
        (r.x + r.width, r.y + r.height)
    }
}

/// The place for a glyph of `w` by `h` texels, if a corner is free.
#[verifier::rlimit(40)]
pub(crate) fn find_slot(entries: &Vec<GlyphEntry>, width: u16, height: u16, w: u16, h: u16) -> (r: Option<(u16, u16)>)
    requires
        all_within(entries@, width, height),
    ensures
        match r {
            Some(p) => is_slot(entries@, width, height, w, h, p.0 as int, p.1 as int),
            None => !has_slot(entries@, width, height, w, h),
        },
{
    let n: u128 = entries.len() as u128;
    let ghost all = entries@;
    let mut best: Option<(u16, u16)> = None;
    let mut j: u128 = 0;
    while j <= n
        invariant
            all_within(entries@, width, height),
            all == entries@,
            n == all.len(),
            n <= usize::MAX,
            0 <= j <= n + 1,
            best_among(all, width, height, w, h, j as int, 0, best),
        decreases n + 1 - j,
    {
        let y = corner(entries, width, height, j as usize).1;
        let mut i: u128 = 0;
        while i <= n
            invariant
                all_within(entries@, width, height),
                all == entries@,
                n == all.len(),
                n <= usize::MAX,
                0 <= j <= n,
                0 <= i <= n + 1,
                y == corner_y(all, j as int),
                best_among(all, width, height, w, h, j as int, i as int, best),
            decreases n + 1 - i,
        {
            let x = corner(entries, width, height, i as usize).0;
            let ghost before = best;
            if is_free_at(entries, width, height, x, y, w, h) {
                best = match best {
                    None => Some((x, y)),
                    Some((bx, by)) => if y < by || (y == by && x < bx) {
                        Some((x, y))
                    } else {
                        Some((bx, by))
                    },
                };
            }
            proof {
                                                assert(x == corner_x(all, i as int) && y == corner_y(all, j as int));
                match best {
                    Some(p) => {
                        assert forall|i2: int, j2: int|
                            0 <= i2 <= all.len() && 0 <= j2 <= all.len() && scanned(
                                i2,
                                j2,
                                j as int,
                                i + 1,
                            ) && is_free(
                                all,
                                width,
                                height,
                                w,
                                h,
                                #[trigger] corner_x(all, i2),
                                #[trigger] corner_y(all, j2),
                            ) implies lower_left(
                            p.0 as int,
                            p.1 as int,
                            corner_x(all, i2),
                            corner_y(all, j2),
                        ) by {
                            if scanned(i2, j2, j as int, i as int) {
                                match before {
                                    Some(q) => {
                                        assert(lower_left(
                                            q.0 as int,
                                            q.1 as int,
                                            corner_x(all, i2),
                                            corner_y(all, j2),
                                        ));
                                    },
                                    None => {},
                                }
                            }
                        }
                    },
                    None => {
                        assert forall|i2: int, j2: int|
                            0 <= i2 <= all.len() && 0 <= j2 <= all.len() && scanned(
                                i2,
                                j2,
                                j as int,
                                i + 1,
                            ) implies !is_free(
                            all,
                            width,
                            height,
                            w,
                            h,
                            #[trigger] corner_x(all, i2),
                            #[trigger] corner_y(all, j2),
                        ) by {
                            if !scanned(i2, j2, j as int, i as int) {
                                assert(i2 == i && j2 == j);
                            }
                        }
                    },
                }
            }
            i += 1;
        }
        proof {
                                    assert forall|i2: int, j2: int| scanned(i2, j2, j + 1, 0) && 0 <= i2 <= all.len() implies scanned(
                i2,
                j2,
                j as int,
                i as int,
            ) by {}
        }
        j += 1;
    }
    proof {
                        match best {
            Some(p) => {},
            None => {
                assert forall|x: int, y: int| !is_slot(all, width, height, w, h, x, y) by {
                    if is_slot(all, width, height, w, h, x, y) {
                        let (i2, j2) = choose|i: int, j: int|
                            0 <= i <= all.len() && 0 <= j <= all.len() && x == corner_x(all, i) && y
                                == corner_y(all, j);
                        assert(scanned(i2, j2, j as int, 0));
                        assert(!is_free(all, width, height, w, h, corner_x(all, i2), corner_y(all, j2)));
                    }
                }
            },
        }
    }
    best
}

/// The atlas's texels after the glyph's coverage was copied into `rect`:
/// inside the rectangle the glyph's values, row by row, and outside it what
/// was there.
pub open spec fn blit(pixels: Seq<u8>, width: u16, rect: AtlasRect, coverage: Seq<u8>) -> Seq<u8> {
    Seq::new(
        pixels.len(),
        |p: int|
            {
                let px = p % (width as int);
                let py = p / (width as int);
                if rect.holds(px, py) {
                    coverage[(py - rect.y) * rect.width + (px - rect.x)]
                } else {
                    pixels[p]
                }
            },
    )
}

pub proof fn lemma_area_bound(x: int, y: int, w: int, h: int)
    requires
        0 <= x <= w,
        0 <= y <= h,
    ensures
        0 <= x * y <= w * h,
{
    assert(0 <= x * y <= w * h) by (nonlinear_arith)
        requires
            0 <= x <= w,
            0 <= y <= h,
    ;
}

/// The texels while a glyph is copied in: as `blit`, but only for the
/// glyph's rows below `rows` and, in row `rows`, its columns below `cols`.
spec fn blit_partial(
    pixels: Seq<u8>,
    width: u16,
    rect: AtlasRect,
    coverage: Seq<u8>,
    rows: int,
    cols: int,
) -> Seq<u8> {
    Seq::new(
        pixels.len(),
        |p: int|
            {
                let px = p % (width as int);
                let py = p / (width as int);
                if rect.holds(px, py) && scanned(px - rect.x, py - rect.y, rows, cols) {
                    coverage[(py - rect.y) * rect.width + (px - rect.x)]
                } else {
                    pixels[p]
                }
            },
    )
}

proof fn lemma_texel_position(width: int, row: int, col: int)
    requires
        0 <= col < width,
        0 <= row,
    ensures
        (row * width + col) % width == col,
        (row * width + col) / width == row,
{
    vstd::arithmetic::div_mod::lemma_fundamental_div_mod_converse(row * width + col, width, row, col);
}

proof fn lemma_texel_index_bound(width: int, height: int, row: int, col: int)
    requires
        0 <= col < width,
        0 <= row < height,
    ensures
        0 <= row * width + col < width * height,
{
    assert(0 <= row * width + col < width * height) by (nonlinear_arith)
        requires
            0 <= col < width,
            0 <= row < height,
    ;
}

proof fn lemma_texel_of_index(width: int, p: int)
    requires
        0 < width,
        0 <= p,
    ensures
        0 <= p % width < width,
        0 <= p / width,
        p == (p / width) * width + p % width,
{
    vstd::arithmetic::div_mod::lemma_fundamental_div_mod(p, width);
    vstd::arithmetic::div_mod::lemma_mod_bound(p, width);
    assert(width * (p / width) == (p / width) * width) by (nonlinear_arith);
    if p / width < 0 {
        assert((p / width) * width <= -width) by (nonlinear_arith)
            requires
                p / width <= -1,
                0 < width,
        ;
    }
}

/// Copies the glyph's coverage into `rect` of the atlas, row by row.
#[verifier::rlimit(40)]
pub(crate) fn blit_into(pixels: &mut Vec<u8>, width: u16, height: u16, rect: AtlasRect, coverage: &Vec<u8>)
    requires
        old(pixels)@.len() == width * height,
        rect.within(width, height),
        coverage@.len() == rect.width * rect.height,
    ensures
        final(pixels)@ == blit(old(pixels)@, width, rect, coverage@),
{
    let ghost orig = pixels@;
    let mut j: u16 = 0;
    assert(pixels@ =~= blit_partial(orig, width, rect, coverage@, 0, 0));
    while j < rect.height
        invariant
            0 <= j <= rect.height,
            orig.len() == width * height,
            rect.within(width, height),
            coverage@.len() == rect.width * rect.height,
            pixels@ == blit_partial(orig, width, rect, coverage@, j as int, 0),
        decreases rect.height - j,
    {
        let mut i: u16 = 0;
        while i < rect.width
            invariant
                0 <= j < rect.height,
                0 <= i <= rect.width,
                orig.len() == width * height,
                rect.within(width, height),
                coverage@.len() == rect.width * rect.height,
                pixels@ == blit_partial(orig, width, rect, coverage@, j as int, i as int),
            decreases rect.width - i,
        {
            proof {
                lemma_texel_index_bound(width as int, height as int, rect.y + j, rect.x + i);
                lemma_texel_index_bound(rect.width as int, rect.height as int, j as int, i as int);
                lemma_area_bound(width as int, height as int, 0xffff, 0xffff);
                lemma_area_bound(rect.width as int, rect.height as int, 0xffff, 0xffff);
                lemma_area_bound(rect.y + j, width as int, 0xffff, 0xffff);
                lemma_area_bound(j as int, rect.width as int, 0xffff, 0xffff);
            }
            let row: usize = rect.y as usize + j as usize;
            let col: usize = rect.x as usize + i as usize;
            let idx: usize = row * (width as usize) + col;
            let src: usize = (j as usize) * (rect.width as usize) + i as usize;
            let ghost before = pixels@;
            pixels[idx] = coverage[src];
            proof {
                let next = blit_partial(orig, width, rect, coverage@, j as int, i + 1);
                lemma_texel_position(width as int, row as int, col as int);
                assert forall|p: int| 0 <= p < pixels@.len() implies pixels@[p] == next[p] by {
                    lemma_texel_of_index(width as int, p);
                    if p != idx {
                        let px = p % (width as int);
                        let py = p / (width as int);
                        assert(!(px == col && py == row));
                        assert(before[p] == blit_partial(orig, width, rect, coverage@, j as int, i as int)[p]);
                    }
                }
                assert(pixels@ =~= next);
            }
            i += 1;
        }
        proof {
            let done = blit_partial(orig, width, rect, coverage@, j as int, i as int);
            let next = blit_partial(orig, width, rect, coverage@, j + 1, 0);
            assert(done =~= next);
        }
        j += 1;
    }
    assert(pixels@ =~= blit(orig, width, rect, coverage@));
}

} // verus!
