//! The tessellator in executable form: renders one primitive into the
//! frame's mesh.

use vstd::prelude::*;
use crate::context::ContextState;
use crate::glyph::{AtlasRect, GlyphCache};
use crate::mesh::{Rgba, TexCoords, Vertex, VertexMode, ViewMesh};
use crate::primitive::{
    area2, colored_vertex, fan_indices, fan_piece, glyph_quad, has_area, moved_vertices, quad_indices,
    lemma_text_rendering_bounds, text_rendering, transformed, Primitive, RenderOutcome, RenderStatus, TextGlyph, MAX_TEXT_GLYPHS,
};
use crate::transform::{offset_by, Affine3, Vec3};

verus! {

proof fn lemma_difference_product_bound(a: int, b: int)
    requires
        -0xffff_ffff <= a <= 0xffff_ffff,
        -0xffff_ffff <= b <= 0xffff_ffff,
    ensures
        -0x1_0000_0000_0000_0000 <= a * b <= 0x1_0000_0000_0000_0000,
{
    assert(-0x1_0000_0000_0000_0000 <= a * b <= 0x1_0000_0000_0000_0000) by (nonlinear_arith)
        requires
            -0xffff_ffff <= a <= 0xffff_ffff,
            -0xffff_ffff <= b <= 0xffff_ffff,
    ;
}

fn area2_exec(a: Vec3, b: Vec3, c: Vec3) -> (r: i128)
    ensures
        r == area2(a, b, c),
{
    let bax: i128 = b.x as i128 - a.x as i128;
    let cay: i128 = c.y as i128 - a.y as i128;
    let bay: i128 = b.y as i128 - a.y as i128;
    let cax: i128 = c.x as i128 - a.x as i128;
    proof {
        lemma_difference_product_bound(bax as int, cay as int);
        lemma_difference_product_bound(bay as int, cax as int);
    }
    bax * cay - bay * cax
}

fn has_area_exec(points: &Vec<Vec3>) -> (r: bool)
    ensures
        r == has_area(points@),
{
    if points.len() < 3 {
        return false;
    }
    let mut k: usize = 1;
    while k < points.len() - 1
        invariant
            points@.len() >= 3,
            1 <= k <= points@.len() - 1,
            forall|j: int| 1 <= j < k ==> #[trigger] area2(points@[0], points@[j], points@[j + 1]) == 0,
        decreases points@.len() - k,
    {
        if area2_exec(points[0], points[k], points[k + 1]) != 0 {
            return true;
        }
        k += 1;
    }
    false
}

fn transform_points(t: &Affine3, points: &Vec<Vec3>) -> (r: Vec<Vec3>)
    ensures
        r@ == transformed(*t, points@),
{
    let mut out: Vec<Vec3> = Vec::new();
    let mut i: usize = 0;
    while i < points.len()
        invariant
            0 <= i <= points@.len(),
            out@.len() == i,
            forall|j: int| 0 <= j < i ==> out@[j] == t.apply_spec(points@[j]),
        decreases points@.len() - i,
    {
        out.push(t.apply(points[i]));
        i += 1;
    }
    assert(out@ =~= transformed(*t, points@));
    out
}

fn move_vertices(t: &Affine3, vertices: &Vec<Vertex>) -> (r: Vec<Vertex>)
    ensures
        r@ == moved_vertices(*t, vertices@),
{
    let mut out: Vec<Vertex> = Vec::new();
    let mut i: usize = 0;
    while i < vertices.len()
        invariant
            0 <= i <= vertices@.len(),
            out@.len() == i,
            forall|j: int|
                0 <= j < i ==> out@[j] == (Vertex {
                    position: t.apply_spec(vertices@[j].position),
                    ..vertices@[j]
                }),
        decreases vertices@.len() - i,
    {
        let v = vertices[i];
        out.push(Vertex { position: t.apply(v.position), color: v.color, tex_coords: v.tex_coords });
        i += 1;
    }
    assert(out@ =~= moved_vertices(*t, vertices@));
    out
}

/// The piece of a filled convex polygon whose corners are `points`.
fn fan(points: &Vec<Vec3>, color: Rgba) -> (r: (Vec<Vertex>, Vec<u32>))
    ensures
        r.0@ == fan_piece(points@, color).vertices,
        r.1@ == fan_piece(points@, color).indices,
{
    let mut vertices: Vec<Vertex> = Vec::new();
    let mut indices: Vec<u32> = Vec::new();
    let n = points.len();
    if n < 3 || n > 0xffff_ffff || !has_area_exec(points) {
        return (vertices, indices);
    }
    let mut i: usize = 0;
    while i < n
        invariant
            n == points@.len(),
            0 <= i <= n,
            vertices@.len() == i,
            forall|j: int| 0 <= j < i ==> vertices@[j] == colored_vertex(points@[j], color),
        decreases n - i,
    {
        vertices.push(Vertex { position: points[i], color, tex_coords: TexCoords { u: 0, v: 0 } });
        i += 1;
    }
    assert(vertices@ =~= fan_piece(points@, color).vertices);
    let mut k: usize = 2;
    assert(fan_indices(2) =~= Seq::<u32>::empty());
    while k < n
        invariant
            n == points@.len(),
            n <= 0xffff_ffff,
            2 <= k <= n,
            indices@ == fan_indices(k as nat),
        decreases n - k,
    {
        indices.push(0u32);
        indices.push((k - 1) as u32);
        indices.push(k as u32);
        k += 1;
    }
    (vertices, indices)
}

fn push_glyph_quad(
    vertices: &mut Vec<Vertex>,
    indices: &mut Vec<u32>,
    origin: Vec3,
    rect: AtlasRect,
    color: Rgba,
    t: &Affine3,
)
    requires
        old(vertices)@.len() + 3 <= u32::MAX,
    ensures
        final(vertices)@ == old(vertices)@ + glyph_quad(origin, rect, color, *t),
        final(indices)@ == old(indices)@ + quad_indices(old(vertices)@.len()),
{
    let base: u32 = vertices.len() as u32;
    let right = offset_by(origin.x, rect.width);
    let top = offset_by(origin.y, rect.height);
    let u0: u32 = rect.x as u32;
    let u1: u32 = rect.x as u32 + rect.width as u32;
    let v0: u32 = rect.y as u32;
    let v1: u32 = rect.y as u32 + rect.height as u32;
    vertices.push(
        Vertex {
            position: t.apply(Vec3 { x: origin.x, y: origin.y, z: origin.z }),
            color,
            tex_coords: TexCoords { u: u0, v: v1 },
        },
    );
    vertices.push(
        Vertex {
            position: t.apply(Vec3 { x: right, y: origin.y, z: origin.z }),
            color,
            tex_coords: TexCoords { u: u1, v: v1 },
        },
    );
    vertices.push(
        Vertex {
            position: t.apply(Vec3 { x: right, y: top, z: origin.z }),
            color,
            tex_coords: TexCoords { u: u1, v: v0 },
        },
    );
    vertices.push(
        Vertex {
            position: t.apply(Vec3 { x: origin.x, y: top, z: origin.z }),
            color,
            tex_coords: TexCoords { u: u0, v: v0 },
        },
    );
    indices.push(base);
    indices.push(base + 1);
    indices.push(base + 2);
    indices.push(base);
    indices.push(base + 2);
    indices.push(base + 3);
    assert(vertices@ =~= old(vertices)@ + glyph_quad(origin, rect, color, *t));
    assert(indices@ =~= old(indices)@ + quad_indices(old(vertices)@.len()));
}

/// The piece of a text, its glyphs asked of the cache in order.
#[verifier::rlimit(40)]
fn text(glyphs: &Vec<TextGlyph>, color: Rgba, t: &Affine3, cache: &mut GlyphCache) -> (r: (
    Vec<Vertex>,
    Vec<u32>,
    usize,
))
    requires
        old(cache).wf(),
        glyphs@.len() <= MAX_TEXT_GLYPHS,
    ensures
        final(cache).wf(),
        r.0@ == text_rendering(glyphs@, color, *t, old(cache)@).piece.vertices,
        r.1@ == text_rendering(glyphs@, color, *t, old(cache)@).piece.indices,
        r.2 == text_rendering(glyphs@, color, *t, old(cache)@).skipped,
        final(cache)@ == text_rendering(glyphs@, color, *t, old(cache)@).cache,
{
    let mut vertices: Vec<Vertex> = Vec::new();
    let mut indices: Vec<u32> = Vec::new();
    let mut skipped: usize = 0;
    let mut i: usize = 0;
    assert(glyphs@.take(0) =~= Seq::<TextGlyph>::empty());
    while i < glyphs.len()
        invariant
            cache.wf(),
            glyphs@.len() <= MAX_TEXT_GLYPHS,
            0 <= i <= glyphs@.len(),
            vertices@.len() <= 4 * i,
            skipped <= i,
            vertices@ == text_rendering(glyphs@.take(i as int), color, *t, old(cache)@).piece.vertices,
            indices@ == text_rendering(glyphs@.take(i as int), color, *t, old(cache)@).piece.indices,
            skipped == text_rendering(glyphs@.take(i as int), color, *t, old(cache)@).skipped,
            cache@ == text_rendering(glyphs@.take(i as int), color, *t, old(cache)@).cache,
        decreases glyphs@.len() - i,
    {
        let g = &glyphs[i];
        proof {
            assert(glyphs@.take(i + 1).drop_last() =~= glyphs@.take(i as int));
            assert(glyphs@.take(i + 1).last() == glyphs@[i as int]);
        }
        if g.bitmap.width() != 0 && g.bitmap.height() != 0 {
            match cache.insert(g.key, &g.bitmap) {
                Ok(rect) => {
                    push_glyph_quad(&mut vertices, &mut indices, g.origin, rect, color, t);
                },
                Err(_) => {
                    skipped += 1;
                },
            }
        }
        i += 1;
    }
    assert(glyphs@.take(glyphs@.len() as int) =~= glyphs@);
    (vertices, indices, skipped)
}

/// Renders `primitive` under `context` into `mesh`.
///
/// The primitive's piece joins the mesh whole or not at all: the mesh gains
/// indices exactly when the outcome says `Drawn`, and it never gains
/// vertices without gaining indices. A text asks the glyph cache for each of
/// its glyphs in order; other primitives leave the cache as it is.
#[verifier::rlimit(40)]
pub fn render_primitive(
    primitive: &Primitive,
    context: &ContextState,
    mesh: &mut ViewMesh,
    glyphs: &mut GlyphCache,
) -> (outcome: RenderOutcome)
    requires
        old(mesh).wf(),
        old(glyphs).wf(),
    ensures
        final(mesh).wf(),
        final(glyphs).wf(),
        final(mesh)@ == primitive.rendered_mesh(context.transform, old(glyphs)@, old(mesh)@),
        final(glyphs)@ == primitive.rendering(context.transform, old(glyphs)@).cache,
        outcome == primitive.outcome(context.transform, old(glyphs)@, old(mesh)@),
        outcome.skipped_glyphs == primitive.rendering(context.transform, old(glyphs)@).skipped,
        outcome.status == RenderStatus::Drawn <==> final(mesh)@.indices.len() > old(mesh)@.indices.len(),
        final(mesh)@.points.len() > old(mesh)@.points.len() ==> final(mesh)@.indices.len()
            > old(mesh)@.indices.len(),
        outcome.status == RenderStatus::Degenerate ==> final(mesh)@ == old(mesh)@,
{
    let t = &context.transform;
    proof {
        let r = primitive.rendering(context.transform, old(glyphs)@);
        crate::mesh::lemma_offered(old(mesh)@, r.piece.vertices, r.piece.indices);
    }
    match primitive {
        Primitive::Tri { a, b, c, color } => {
            let mut corners: Vec<Vec3> = Vec::new();
            corners.push(*a);
            corners.push(*b);
            corners.push(*c);
            assert(corners@ =~= seq![*a, *b, *c]);
            let moved = transform_points(t, &corners);
            let (vertices, indices) = fan(&moved, *color);
            let joined = mesh.append(&vertices, &indices);
            RenderOutcome {
                vertex_mode: VertexMode::Color,
                texture: None,
                status: if joined {
                    RenderStatus::Drawn
                } else {
                    RenderStatus::Degenerate
                },
                skipped_glyphs: 0,
            }
        },
        Primitive::Quad { a, b, c, d, color } => {
            let mut corners: Vec<Vec3> = Vec::new();
            corners.push(*a);
            corners.push(*b);
            corners.push(*c);
            corners.push(*d);
            assert(corners@ =~= seq![*a, *b, *c, *d]);
            let moved = transform_points(t, &corners);
            let (vertices, indices) = fan(&moved, *color);
            let joined = mesh.append(&vertices, &indices);
            RenderOutcome {
                vertex_mode: VertexMode::Color,
                texture: None,
                status: if joined {
                    RenderStatus::Drawn
                } else {
                    RenderStatus::Degenerate
                },
                skipped_glyphs: 0,
            }
        },
        Primitive::Rect { rect, color } => {
            let mut corners: Vec<Vec3> = Vec::new();
            corners.push(Vec3 { x: rect.left, y: rect.bottom, z: 0 });
            corners.push(Vec3 { x: rect.right, y: rect.bottom, z: 0 });
            corners.push(Vec3 { x: rect.right, y: rect.top, z: 0 });
            corners.push(Vec3 { x: rect.left, y: rect.top, z: 0 });
            assert(corners@ =~= crate::primitive::rect_corners(*rect));
            let moved = transform_points(t, &corners);
            let (vertices, indices) = fan(&moved, *color);
            let joined = mesh.append(&vertices, &indices);
            RenderOutcome {
                vertex_mode: VertexMode::Color,
                texture: None,
                status: if joined {
                    RenderStatus::Drawn
                } else {
                    RenderStatus::Degenerate
                },
                skipped_glyphs: 0,
            }
        },
        Primitive::Polygon { points, color } => {
            let moved = transform_points(t, points);
            let (vertices, indices) = fan(&moved, *color);
            let joined = mesh.append(&vertices, &indices);
            RenderOutcome {
                vertex_mode: VertexMode::Color,
                texture: None,
                status: if joined {
                    RenderStatus::Drawn
                } else {
                    RenderStatus::Degenerate
                },
                skipped_glyphs: 0,
            }
        },
        Primitive::Mesh { vertices, indices, texture } => {
            let moved = move_vertices(t, vertices);
            let joined = mesh.append(&moved, indices);
            RenderOutcome {
                vertex_mode: if texture.is_some() {
                    VertexMode::Texture
                } else {
                    VertexMode::Color
                },
                texture: *texture,
                status: if joined {
                    RenderStatus::Drawn
                } else {
                    RenderStatus::Degenerate
                },
                skipped_glyphs: 0,
            }
        },
        Primitive::Text { glyphs: text_glyphs, color } => {
            if text_glyphs.len() > MAX_TEXT_GLYPHS {
                let empty_vertices: Vec<Vertex> = Vec::new();
                let empty_indices: Vec<u32> = Vec::new();
                let joined = mesh.append(&empty_vertices, &empty_indices);
                return RenderOutcome {
                    vertex_mode: VertexMode::Text,
                    texture: None,
                    status: RenderStatus::Degenerate,
                    skipped_glyphs: 0,
                };
            }
            proof {
                lemma_text_rendering_bounds(text_glyphs@, *color, *t, glyphs@);
            }
            let (vertices, indices, skipped) = text(text_glyphs, *color, t, glyphs);
            let joined = mesh.append(&vertices, &indices);
            RenderOutcome {
                vertex_mode: VertexMode::Text,
                texture: None,
                status: if joined {
                    RenderStatus::Drawn
                } else {
                    RenderStatus::Degenerate
                },
                skipped_glyphs: skipped,
            }
        },
    }
}

} // verus!
