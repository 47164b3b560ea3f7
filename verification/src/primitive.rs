//! The primitives that can be drawn, and the tessellator that turns one of
//! them into vertices and indices of the frame's mesh.

use vstd::prelude::*;
use crate::command::TextureId;
use crate::context::ContextState;
use crate::geometry::Rect;
use crate::glyph::{AtlasRect, CacheError, CacheModel, GlyphBitmap, GlyphCache, GlyphKey};
use crate::mesh::{MeshModel, Rgba, TexCoords, Vertex, VertexMode, ViewMesh};
use crate::transform::{clamp_i32, Affine3, Vec3};

verus! {

/// A glyph of a laid-out text: what it is, where its lower left corner
/// stands before the context's transform, and its coverage.
#[derive(Debug)]
pub struct TextGlyph {
    pub key: GlyphKey,
    pub origin: Vec3,
    pub bitmap: GlyphBitmap,
}

/// A drawing instruction with its own geometry and colour.
#[derive(Debug)]
pub enum Primitive {
    /// A filled triangle.
    Tri { a: Vec3, b: Vec3, c: Vec3, color: Rgba },
    /// A filled quadrilateral, its corners in order around it.
    Quad { a: Vec3, b: Vec3, c: Vec3, d: Vec3, color: Rgba },
    /// A filled axis-aligned rectangle at depth 0.
    Rect { rect: Rect, color: Rgba },
    /// A filled convex polygon, its corners in order around it.
    Polygon { points: Vec<Vec3>, color: Rgba },
    /// Triangles that are given as they are; the indices count from the
    /// first of the vertices. With a texture the vertices are textured.
    Mesh { vertices: Vec<Vertex>, indices: Vec<u32>, texture: Option<TextureId> },
    /// Laid-out glyphs in one colour.
    Text { glyphs: Vec<TextGlyph>, color: Rgba },
}

/// Whether anything came of a primitive.
#[derive(Clone, Copy, Debug, PartialEq, Eq, Hash, Structural)]
pub enum RenderStatus {
    /// Indices were added to the mesh.
    Drawn,
    /// Nothing was added to the mesh: there is nothing to draw.
    Degenerate,
}

/// What the tessellator reports of one primitive.
#[derive(Clone, Copy, Debug, PartialEq, Eq, Hash, Structural)]
pub struct RenderOutcome {
    /// How the vertices that were added are to be coloured.
    pub vertex_mode: VertexMode,
    /// The texture that the primitive asks for, if it asks for one.
    pub texture: Option<TextureId>,
    pub status: RenderStatus,
    /// The glyphs that were left out because the atlas cannot hold them.
    pub skipped_glyphs: usize,
}

/// The most glyphs that a text primitive may hold and still be drawn, so
/// that four vertices for each can be counted in 32 bits.
pub const MAX_TEXT_GLYPHS: usize = 0x3fff_ffff;

/// Twice the signed area of the triangle `a`, `b`, `c` seen along `z`.
pub open spec fn area2(a: Vec3, b: Vec3, c: Vec3) -> int {
    (b.x - a.x) * (c.y - a.y) - (b.y - a.y) * (c.x - a.x)
}

/// Whether one of the triangles that fan out from the first point has an
/// area: the points do not all lie on one line.
pub open spec fn has_area(points: Seq<Vec3>) -> bool {
    exists|k: int| 1 <= k < points.len() - 1 && #[trigger] area2(points[0], points[k], points[k + 1]) != 0
}

/// The images of `points` under `t`.
pub open spec fn transformed(t: Affine3, points: Seq<Vec3>) -> Seq<Vec3> {
    Seq::new(points.len(), |i: int| t.apply_spec(points[i]))
}

/// A vertex of plain colour at `position`.
pub open spec fn colored_vertex(position: Vec3, color: Rgba) -> Vertex {
    Vertex { position, color, tex_coords: TexCoords { u: 0, v: 0 } }
}

/// The indices of the triangles that fan out from the first of `n`
/// points: `(0, 1, 2)`, `(0, 2, 3)`, and so on.
pub open spec fn fan_indices(n: nat) -> Seq<u32>
    decreases n,
{
    if n < 3 {
        Seq::empty()
    } else {
        fan_indices((n - 1) as nat).push(0u32).push((n - 2) as u32).push((n - 1) as u32)
    }
}

/// Every triangle of a fan lists its corners in the order of the polygon's
/// corners: triangle `t` is `(0, t + 1, t + 2)`. So the triangles of a
/// convex polygon all wind the way the polygon does.
pub proof fn lemma_fan_winding(n: nat, t: int)
    requires
        3 <= n <= u32::MAX,
        0 <= t < n - 2,
    ensures
        fan_indices(n).len() == 3 * (n - 2),
        fan_indices(n)[3 * t] == 0,
        fan_indices(n)[3 * t + 1] == t + 1,
        fan_indices(n)[3 * t + 2] == t + 2,
    decreases n,
{
    lemma_fan_len(n);
    lemma_fan_len((n - 1) as nat);
    if t < n - 3 {
        lemma_fan_winding((n - 1) as nat, t);
    }
}

proof fn lemma_fan_len(n: nat)
    ensures
        fan_indices(n).len() == (if n < 3 {
            0
        } else {
            3 * (n - 2)
        }),
    decreases n,
{
    if n >= 3 {
        lemma_fan_len((n - 1) as nat);
    }
}

/// What a primitive adds to the mesh: vertices, and indices that count from
/// the first of them.
pub struct Piece {
    pub vertices: Seq<Vertex>,
    pub indices: Seq<u32>,
}

impl Piece {
    pub open spec fn empty() -> Piece {
        Piece { vertices: Seq::empty(), indices: Seq::empty() }
    }
}

/// The piece of a filled convex polygon with the corners `points`: one
/// vertex for each corner and a fan of triangles. A polygon of fewer than
/// three corners, or without area, or of more corners than 32 bits count,
/// has the empty piece.
pub open spec fn fan_piece(points: Seq<Vec3>, color: Rgba) -> Piece {
    if 3 <= points.len() <= u32::MAX && has_area(points) {
        Piece {
            vertices: Seq::new(points.len(), |i: int| colored_vertex(points[i], color)),
            indices: fan_indices(points.len()),
        }
    } else {
        Piece::empty()
    }
}

/// The corners of `rect` at depth 0, counter-clockwise from the lower left.
pub open spec fn rect_corners(rect: Rect) -> Seq<Vec3> {
    seq![
        Vec3 { x: rect.left, y: rect.bottom, z: 0 },
        Vec3 { x: rect.right, y: rect.bottom, z: 0 },
        Vec3 { x: rect.right, y: rect.top, z: 0 },
        Vec3 { x: rect.left, y: rect.top, z: 0 },
    ]
}

/// The vertices of a mesh primitive, each moved by `t`.
pub open spec fn moved_vertices(t: Affine3, vertices: Seq<Vertex>) -> Seq<Vertex> {
    Seq::new(vertices.len(), |i: int| Vertex { position: t.apply_spec(vertices[i].position), ..vertices[i] })
}

/// The four vertices of a glyph's quad, counter-clockwise from the lower
/// left. The quad is as large as the glyph's rectangle in the atlas; the
/// texture coordinates are the rectangle's corners, its first row at the
/// top.
pub open spec fn glyph_quad(origin: Vec3, rect: AtlasRect, color: Rgba, t: Affine3) -> Seq<Vertex> {
    let right = clamp_i32(origin.x + rect.width);
    let top = clamp_i32(origin.y + rect.height);
    let u0 = rect.x as u32;
    let u1 = (rect.x + rect.width) as u32;
    let v0 = rect.y as u32;
    let v1 = (rect.y + rect.height) as u32;
    seq![
        Vertex {
            position: t.apply_spec(Vec3 { x: origin.x, y: origin.y, z: origin.z }),
            color,
            tex_coords: TexCoords { u: u0, v: v1 },
        },
        Vertex {
            position: t.apply_spec(Vec3 { x: right, y: origin.y, z: origin.z }),
            color,
            tex_coords: TexCoords { u: u1, v: v1 },
        },
        Vertex {
            position: t.apply_spec(Vec3 { x: right, y: top, z: origin.z }),
            color,
            tex_coords: TexCoords { u: u1, v: v0 },
        },
        Vertex {
            position: t.apply_spec(Vec3 { x: origin.x, y: top, z: origin.z }),
            color,
            tex_coords: TexCoords { u: u0, v: v0 },
        },
    ]
}

/// The two triangles of a quad whose first vertex is number `base`.
pub open spec fn quad_indices(base: nat) -> Seq<u32> {
    seq![
        base as u32,
        (base + 1) as u32,
        (base + 2) as u32,
        base as u32,
        (base + 2) as u32,
        (base + 3) as u32,
    ]
}

/// What a text leaves behind: its piece, the cache after its glyphs were
/// asked for, and how many glyphs the atlas could not hold.
pub struct TextRendering {
    pub piece: Piece,
    pub cache: CacheModel,
    pub skipped: nat,
}

/// The rendering of `glyphs`, taken in order from a cache `cache`. A glyph
/// without coverage is passed over. Each other glyph is asked of the cache
/// with its bitmap: where it gets a rectangle, its quad joins the piece;
/// where the atlas cannot hold it, it is counted as skipped.
pub open spec fn text_rendering(glyphs: Seq<TextGlyph>, color: Rgba, t: Affine3, cache: CacheModel) -> TextRendering
    decreases glyphs.len(),
{
    if glyphs.len() == 0 {
        TextRendering { piece: Piece::empty(), cache, skipped: 0 }
    } else {
        let before = text_rendering(glyphs.drop_last(), color, t, cache);
        let g = glyphs.last();
        if g.bitmap@.width == 0 || g.bitmap@.height == 0 {
            before
        } else {
            match before.cache.insert_result(g.key, g.bitmap@) {
                Ok(rect) => TextRendering {
                    piece: Piece {
                        vertices: before.piece.vertices + glyph_quad(g.origin, rect, color, t),
                        indices: before.piece.indices + quad_indices(before.piece.vertices.len()),
                    },
                    cache: before.cache.inserted(g.key, g.bitmap@),
                    skipped: before.skipped,
                },
                Err(_) => TextRendering {
                    piece: before.piece,
                    cache: before.cache.inserted(g.key, g.bitmap@),
                    skipped: before.skipped + 1,
                },
            }
        }
    }
}

/// A text skips no more glyphs than it has, and has at most four vertices
/// for each glyph.
pub proof fn lemma_text_rendering_bounds(glyphs: Seq<TextGlyph>, color: Rgba, t: Affine3, cache: CacheModel)
    ensures
        text_rendering(glyphs, color, t, cache).skipped <= glyphs.len(),
        text_rendering(glyphs, color, t, cache).piece.vertices.len() <= 4 * glyphs.len(),
    decreases glyphs.len(),
{
    if glyphs.len() > 0 {
        lemma_text_rendering_bounds(glyphs.drop_last(), color, t, cache);
    }
}

/// What rendering a primitive comes to, before the mesh is asked whether
/// it takes the piece.
pub struct Rendering {
    pub piece: Piece,
    pub vertex_mode: VertexMode,
    pub texture: Option<TextureId>,
    pub cache: CacheModel,
    pub skipped: nat,
}

impl Primitive {
    /// The rendering of the primitive under the transform `t`, with the
    /// glyph cache `cache`.
    pub open spec fn rendering(self, t: Affine3, cache: CacheModel) -> Rendering {
        match self {
            Primitive::Tri { a, b, c, color } => Rendering {
                piece: fan_piece(transformed(t, seq![a, b, c]), color),
                vertex_mode: VertexMode::Color,
                texture: None,
                cache,
                skipped: 0,
            },
            Primitive::Quad { a, b, c, d, color } => Rendering {
                piece: fan_piece(transformed(t, seq![a, b, c, d]), color),
                vertex_mode: VertexMode::Color,
                texture: None,
                cache,
                skipped: 0,
            },
            Primitive::Rect { rect, color } => Rendering {
                piece: fan_piece(transformed(t, rect_corners(rect)), color),
                vertex_mode: VertexMode::Color,
                texture: None,
                cache,
                skipped: 0,
            },
            Primitive::Polygon { points, color } => Rendering {
                piece: fan_piece(transformed(t, points@), color),
                vertex_mode: VertexMode::Color,
                texture: None,
                cache,
                skipped: 0,
            },
            Primitive::Mesh { vertices, indices, texture } => Rendering {
                piece: Piece { vertices: moved_vertices(t, vertices@), indices: indices@ },
                vertex_mode: if texture is Some {
                    VertexMode::Texture
                } else {
                    VertexMode::Color
                },
                texture,
                cache,
                skipped: 0,
            },
            Primitive::Text { glyphs, color } => {
                if glyphs@.len() <= MAX_TEXT_GLYPHS {
                    let text = text_rendering(glyphs@, color, t, cache);
                    Rendering {
                        piece: text.piece,
                        vertex_mode: VertexMode::Text,
                        texture: None,
                        cache: text.cache,
                        skipped: text.skipped,
                    }
                } else {
                    Rendering {
                        piece: Piece::empty(),
                        vertex_mode: VertexMode::Text,
                        texture: None,
                        cache,
                        skipped: 0,
                    }
                }
            },
        }
    }

    /// The mesh after the primitive was rendered into `mesh`.
    pub open spec fn rendered_mesh(self, t: Affine3, cache: CacheModel, mesh: MeshModel) -> MeshModel {
        let r = self.rendering(t, cache);
        mesh.offered(r.piece.vertices, r.piece.indices)
    }

    /// What the tessellator reports of the primitive.
    pub open spec fn outcome(self, t: Affine3, cache: CacheModel, mesh: MeshModel) -> RenderOutcome {
        let r = self.rendering(t, cache);
        RenderOutcome {
            vertex_mode: r.vertex_mode,
            texture: r.texture,
            status: if mesh.accepts(r.piece.vertices, r.piece.indices) {
                RenderStatus::Drawn
            } else {
                RenderStatus::Degenerate
            },
            skipped_glyphs: r.skipped as usize,
        }
    }
}

} // verus!
