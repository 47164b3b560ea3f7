use bevy_nannou_render::command::TextureId;
use bevy_nannou_render::context::ContextState;
use bevy_nannou_render::geometry::Rect;
use bevy_nannou_render::glyph::{GlyphBitmap, GlyphCache, GlyphKey};
use bevy_nannou_render::mesh::{Rgba, TexCoords, Vertex, VertexMode, ViewMesh};
use bevy_nannou_render::primitive::{Primitive, RenderOutcome, RenderStatus, TextGlyph, MAX_TEXT_GLYPHS};
use bevy_nannou_render::tessellate::render_primitive;
use bevy_nannou_render::transform::{Affine3, Vec3};

const RED: Rgba = Rgba { r: 255, g: 0, b: 0, a: 255 };
const BLUE: Rgba = Rgba { r: 0, g: 0, b: 255, a: 255 };

fn p(x: i32, y: i32) -> Vec3 {
    Vec3 { x, y, z: 0 }
}

fn plain(x: i32, y: i32, color: Rgba) -> Vertex {
    Vertex { position: p(x, y), color, tex_coords: TexCoords { u: 0, v: 0 } }
}

fn render(prim: &Primitive, mesh: &mut ViewMesh) -> RenderOutcome {
    let mut cache = GlyphCache::new(16, 16);
    render_primitive(prim, &ContextState::default(), mesh, &mut cache)
}

#[test]
fn empty_mesh_has_no_vertices() {
    let mesh = ViewMesh::new();
    assert_eq!(mesh.vertex_count(), 0);
    assert_eq!(mesh.index_count(), 0);
    assert!(mesh.points().is_empty());
    assert!(mesh.indices().is_empty());
}

#[test]
fn append_moves_indices_up() {
    let mut mesh = ViewMesh::new();
    let tri = vec![plain(0, 0, RED), plain(1, 0, RED), plain(0, 1, RED)];
    assert!(mesh.append(&tri, &vec![0, 1, 2]));
    assert!(mesh.append(&tri, &vec![2, 1, 0, 0, 1, 2]));
    assert_eq!(mesh.vertex_count(), 6);
    assert_eq!(mesh.indices(), &vec![0, 1, 2, 5, 4, 3, 3, 4, 5]);
}

#[test]
fn append_refuses_vertices_without_indices() {
    let mut mesh = ViewMesh::new();
    let tri = vec![plain(0, 0, RED), plain(1, 0, RED), plain(0, 1, RED)];
    assert!(!mesh.append(&tri, &vec![]));
    assert_eq!(mesh.vertex_count(), 0);
    assert_eq!(mesh.index_count(), 0);
}

#[test]
fn append_refuses_an_index_out_of_range() {
    let mut mesh = ViewMesh::new();
    let tri = vec![plain(0, 0, RED), plain(1, 0, RED), plain(0, 1, RED)];
    assert!(!mesh.append(&tri, &vec![0, 1, 3]));
    assert_eq!(mesh.vertex_count(), 0);
    assert_eq!(mesh.index_count(), 0);
}

#[test]
fn append_may_reuse_no_new_vertices() {
    let mut mesh = ViewMesh::new();
    assert!(!mesh.append(&vec![], &vec![0]));
    assert_eq!(mesh.index_count(), 0);
}

#[test]
fn triangle_is_three_vertices_and_one_face() {
    let mut mesh = ViewMesh::new();
    let out = render(&Primitive::Tri { a: p(0, 0), b: p(4, 0), c: p(0, 3), color: RED }, &mut mesh);
    assert_eq!(
        out,
        RenderOutcome {
            vertex_mode: VertexMode::Color,
            texture: None,
            status: RenderStatus::Drawn,
            skipped_glyphs: 0
        }
    );
    assert_eq!(mesh.points(), &vec![plain(0, 0, RED), plain(4, 0, RED), plain(0, 3, RED)]);
    assert_eq!(mesh.indices(), &vec![0, 1, 2]);
}

#[test]
fn quad_is_two_faces_that_fan_from_the_first_corner() {
    let mut mesh = ViewMesh::new();
    let quad = Primitive::Quad { a: p(0, 0), b: p(4, 0), c: p(5, 3), d: p(-1, 3), color: BLUE };
    assert_eq!(render(&quad, &mut mesh).status, RenderStatus::Drawn);
    assert_eq!(mesh.vertex_count(), 4);
    assert_eq!(mesh.indices(), &vec![0, 1, 2, 0, 2, 3]);
    assert_eq!(mesh.points()[2], plain(5, 3, BLUE));
}

#[test]
fn rect_has_its_corners_counter_clockwise() {
    let mut mesh = ViewMesh::new();
    let rect = Primitive::Rect { rect: Rect { left: 0, bottom: 0, right: 10, top: 10 }, color: RED };
    assert_eq!(render(&rect, &mut mesh).status, RenderStatus::Drawn);
    assert_eq!(
        mesh.points(),
        &vec![plain(0, 0, RED), plain(10, 0, RED), plain(10, 10, RED), plain(0, 10, RED)]
    );
    assert_eq!(mesh.indices(), &vec![0, 1, 2, 0, 2, 3]);
}

#[test]
fn polygon_fans_out() {
    let mut mesh = ViewMesh::new();
    let poly = Primitive::Polygon { points: vec![p(0, 0), p(2, 0), p(3, 2), p(1, 4), p(-1, 2)], color: RED };
    assert_eq!(render(&poly, &mut mesh).status, RenderStatus::Drawn);
    assert_eq!(mesh.vertex_count(), 5);
    assert_eq!(mesh.indices(), &vec![0, 1, 2, 0, 2, 3, 0, 3, 4]);
}

#[test]
fn second_primitive_counts_from_its_own_vertices() {
    let mut mesh = ViewMesh::new();
    render(&Primitive::Tri { a: p(0, 0), b: p(4, 0), c: p(0, 3), color: RED }, &mut mesh);
    render(&Primitive::Rect { rect: Rect { left: 0, bottom: 0, right: 1, top: 1 }, color: BLUE }, &mut mesh);
    assert_eq!(mesh.vertex_count(), 7);
    assert_eq!(mesh.indices(), &vec![0, 1, 2, 3, 4, 5, 3, 5, 6]);
}

#[test]
fn shapes_without_area_are_degenerate() {
    let degenerate = [
        Primitive::Tri { a: p(0, 0), b: p(2, 2), c: p(5, 5), color: RED },
        Primitive::Tri { a: p(1, 1), b: p(1, 1), c: p(1, 1), color: RED },
        Primitive::Quad { a: p(0, 0), b: p(1, 0), c: p(2, 0), d: p(3, 0), color: RED },
        Primitive::Rect { rect: Rect { left: 3, bottom: 0, right: 3, top: 9 }, color: RED },
        Primitive::Rect { rect: Rect { left: 0, bottom: 4, right: 9, top: 4 }, color: RED },
        Primitive::Polygon { points: vec![], color: RED },
        Primitive::Polygon { points: vec![p(0, 0), p(5, 1)], color: RED },
        Primitive::Polygon { points: vec![p(0, 0), p(1, 1), p(2, 2), p(3, 3)], color: RED },
        Primitive::Mesh { vertices: vec![], indices: vec![], texture: None },
        Primitive::Mesh { vertices: vec![plain(0, 0, RED)], indices: vec![], texture: None },
        Primitive::Mesh { vertices: vec![plain(0, 0, RED)], indices: vec![0, 0, 1], texture: None },
        Primitive::Text { glyphs: vec![], color: RED },
    ];
    for prim in &degenerate {
        let mut mesh = ViewMesh::new();
        render(&Primitive::Tri { a: p(0, 0), b: p(4, 0), c: p(0, 3), color: RED }, &mut mesh);
        let out = render(prim, &mut mesh);
        assert_eq!(out.status, RenderStatus::Degenerate);
        assert_eq!(mesh.vertex_count(), 3);
        assert_eq!(mesh.index_count(), 3);
    }
}

#[test]
fn transform_is_applied_to_positions() {
    let mut mesh = ViewMesh::new();
    let mut cache = GlyphCache::new(4, 4);
    let context =
        ContextState { transform: Affine3::translation(Vec3 { x: 10, y: -5, z: 2 }), ..ContextState::default() };
    let tri = Primitive::Tri { a: p(0, 0), b: p(4, 0), c: p(0, 3), color: RED };
    render_primitive(&tri, &context, &mut mesh, &mut cache);
    let z = |x: i32, y: i32| Vertex {
        position: Vec3 { x, y, z: 2 },
        color: RED,
        tex_coords: TexCoords { u: 0, v: 0 },
    };
    assert_eq!(mesh.points(), &vec![z(10, -5), z(14, -5), z(10, -2)]);
}

#[test]
fn transform_that_flattens_makes_degenerate() {
    let mut mesh = ViewMesh::new();
    let mut cache = GlyphCache::new(4, 4);
    let mut flat = Affine3::identity();
    flat.row_y.y = 0;
    let context = ContextState { transform: flat, ..ContextState::default() };
    let tri = Primitive::Tri { a: p(0, 0), b: p(4, 0), c: p(0, 3), color: RED };
    let out = render_primitive(&tri, &context, &mut mesh, &mut cache);
    assert_eq!(out.status, RenderStatus::Degenerate);
    assert_eq!(mesh.vertex_count(), 0);
}

#[test]
fn mesh_primitive_keeps_colour_and_texture_coordinates() {
    let mut mesh = ViewMesh::new();
    let v = |x: i32, y: i32, u: u32, v: u32| Vertex {
        position: p(x, y),
        color: BLUE,
        tex_coords: TexCoords { u, v },
    };
    let vertices = vec![v(0, 0, 0, 8), v(8, 0, 8, 8), v(8, 8, 8, 0)];
    let textured = Primitive::Mesh { vertices: vertices.clone(), indices: vec![2, 1, 0], texture: Some(TextureId(7)) };
    let out = render(&textured, &mut mesh);
    assert_eq!(out.vertex_mode, VertexMode::Texture);
    assert_eq!(out.texture, Some(TextureId(7)));
    assert_eq!(out.status, RenderStatus::Drawn);
    assert_eq!(mesh.points(), &vertices);
    assert_eq!(mesh.indices(), &vec![2, 1, 0]);
    let untextured = Primitive::Mesh { vertices, indices: vec![0, 1, 2], texture: None };
    let out = render(&untextured, &mut mesh);
    assert_eq!(out.vertex_mode, VertexMode::Color);
    assert_eq!(out.texture, None);
    assert_eq!(mesh.indices(), &vec![2, 1, 0, 3, 4, 5]);
}

fn glyph(id: u32, x: i32, y: i32, w: u16, h: u16) -> TextGlyph {
    TextGlyph {
        key: GlyphKey { font: 0, glyph: id, scale: 16, offset: 0 },
        origin: p(x, y),
        bitmap: GlyphBitmap::new(w, h, vec![id as u8; w as usize * h as usize]).unwrap(),
    }
}

#[test]
fn text_is_one_quad_for_each_glyph() {
    let mut mesh = ViewMesh::new();
    let mut cache = GlyphCache::new(8, 8);
    let text = Primitive::Text { glyphs: vec![glyph(1, 10, 20, 3, 4), glyph(2, 14, 20, 2, 4)], color: BLUE };
    let out = render_primitive(&text, &ContextState::default(), &mut mesh, &mut cache);
    assert_eq!(
        out,
        RenderOutcome { vertex_mode: VertexMode::Text, texture: None, status: RenderStatus::Drawn, skipped_glyphs: 0 }
    );
    let v = |x: i32, y: i32, u: u32, v: u32| Vertex {
        position: p(x, y),
        color: BLUE,
        tex_coords: TexCoords { u, v },
    };
    assert_eq!(
        mesh.points(),
        &vec![
            // First glyph at (0, 0) in the atlas, 3 by 4.
            v(10, 20, 0, 4),
            v(13, 20, 3, 4),
            v(13, 24, 3, 0),
            v(10, 24, 0, 0),
            // Second glyph beside it at (3, 0), 2 by 4.
            v(14, 20, 3, 4),
            v(16, 20, 5, 4),
            v(16, 24, 5, 0),
            v(14, 24, 3, 0),
        ]
    );
    assert_eq!(mesh.indices(), &vec![0, 1, 2, 0, 2, 3, 4, 5, 6, 4, 6, 7]);
    assert!(cache.is_dirty());
    assert_eq!(cache.len(), 2);
}

#[test]
fn repeated_glyph_shares_its_rectangle() {
    let mut mesh = ViewMesh::new();
    let mut cache = GlyphCache::new(8, 8);
    let text = Primitive::Text { glyphs: vec![glyph(1, 0, 0, 3, 4), glyph(1, 5, 0, 3, 4)], color: BLUE };
    render_primitive(&text, &ContextState::default(), &mut mesh, &mut cache);
    assert_eq!(cache.len(), 1);
    assert_eq!(mesh.points()[0].tex_coords, mesh.points()[4].tex_coords);
    assert_eq!(mesh.points()[2].tex_coords, mesh.points()[6].tex_coords);
}

#[test]
fn glyph_that_cannot_fit_is_skipped() {
    let mut mesh = ViewMesh::new();
    let mut cache = GlyphCache::new(4, 4);
    let text = Primitive::Text {
        glyphs: vec![glyph(1, 0, 0, 5, 1), glyph(2, 6, 0, 2, 2), glyph(3, 9, 0, 1, 5)],
        color: RED,
    };
    let out = render_primitive(&text, &ContextState::default(), &mut mesh, &mut cache);
    assert_eq!(out.status, RenderStatus::Drawn);
    assert_eq!(out.skipped_glyphs, 2);
    assert_eq!(mesh.vertex_count(), 4);
    assert_eq!(mesh.indices(), &vec![0, 1, 2, 0, 2, 3]);
}

#[test]
fn text_of_only_skipped_glyphs_is_degenerate() {
    let mut mesh = ViewMesh::new();
    let mut cache = GlyphCache::new(4, 4);
    let text = Primitive::Text { glyphs: vec![glyph(1, 0, 0, 5, 1)], color: RED };
    let out = render_primitive(&text, &ContextState::default(), &mut mesh, &mut cache);
    assert_eq!(out.status, RenderStatus::Degenerate);
    assert_eq!(out.skipped_glyphs, 1);
    assert_eq!(mesh.vertex_count(), 0);
}

#[test]
fn glyph_without_coverage_is_passed_over() {
    let mut mesh = ViewMesh::new();
    let mut cache = GlyphCache::new(4, 4);
    let text = Primitive::Text { glyphs: vec![glyph(1, 0, 0, 0, 3), glyph(2, 2, 0, 2, 2)], color: RED };
    let out = render_primitive(&text, &ContextState::default(), &mut mesh, &mut cache);
    assert_eq!(out.skipped_glyphs, 0);
    assert_eq!(mesh.vertex_count(), 4);
    assert_eq!(cache.len(), 1);
    assert_eq!(MAX_TEXT_GLYPHS, 0x3fff_ffff);
}

#[test]
fn vertices_never_come_without_indices() {
    let prims = [
        Primitive::Tri { a: p(0, 0), b: p(4, 0), c: p(0, 3), color: RED },
        Primitive::Tri { a: p(0, 0), b: p(4, 0), c: p(8, 0), color: RED },
        Primitive::Polygon { points: vec![p(0, 0)], color: RED },
        Primitive::Mesh { vertices: vec![plain(0, 0, RED); 3], indices: vec![], texture: None },
        Primitive::Rect { rect: Rect { left: 0, bottom: 0, right: 2, top: 2 }, color: RED },
    ];
    let mut mesh = ViewMesh::new();
    for prim in &prims {
        let (v0, i0) = (mesh.vertex_count(), mesh.index_count());
        let out = render(prim, &mut mesh);
        let (v1, i1) = (mesh.vertex_count(), mesh.index_count());
        assert_eq!(out.status == RenderStatus::Drawn, i1 > i0);
        if i1 == i0 {
            assert_eq!(v1, v0);
        }
        assert!(mesh.indices().iter().all(|i| *i < v1));
    }
}
