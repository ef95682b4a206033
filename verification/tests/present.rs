use row666_metroidbrainia::gfx::pass::present_pass::{pipeline, PresentPass};
use row666_metroidbrainia::gfx::pipeline::{
    sampler, AddressMode, Face, FilterMode, FrontFace, Pipeline, PrimitiveTopology, TextureFormat,
};
use row666_metroidbrainia::gfx::quad::{centred_corner_of, push_quad_indices};

#[test]
fn the_present_quad_covers_the_screen_unflipped() {
    let pass = PresentPass::new();
    let positions: Vec<(i8, i8, i8)> = pass.vertices().iter().map(|v| v.position).collect();
    let coords: Vec<(u8, u8)> = pass.vertices().iter().map(|v| v.tex_coords).collect();
    assert_eq!(positions, vec![(1, 1, 0), (-1, 1, 0), (-1, -1, 0), (1, -1, 0)]);
    assert_eq!(coords, vec![(1, 0), (0, 0), (0, 1), (1, 1)]);
    assert_eq!(*pass.indices(), vec![0, 1, 2, 2, 3, 0]);
    let mut wanted: Vec<u8> = Vec::new();
    for index in pass.indices() {
        wanted.extend_from_slice(&index.to_ne_bytes());
    }
    assert_eq!(*pass.index_bytes(), wanted);
}

#[test]
fn the_present_pipeline_replaces_what_the_window_showed() {
    let described = pipeline();
    assert_eq!(described.label, "PresentPass Pipeline");
    assert_eq!(described.targets.len(), 1);
    assert_eq!(described.targets[0].format, TextureFormat::Surface);
    assert!(described.targets[0].blend.is_none());
    assert_eq!(described.bind_group_layouts.len(), 2);
}

#[test]
fn every_pipeline_draws_counter_clockwise_triangles_without_depth() {
    let described = Pipeline::new(Vec::new(), Vec::new(), "Test");
    assert_eq!(described.label, "Test Pipeline");
    assert_eq!(described.layout_label, "Test Pipeline Layout");
    assert_eq!(described.topology, PrimitiveTopology::TriangleList);
    assert_eq!(described.front_face, FrontFace::Ccw);
    assert_eq!(described.cull_mode, Some(Face::Back));
    assert!(!described.depth_stencil);
    assert_eq!(described.sample_count, 1);
    assert!(described.targets.is_empty());
}

#[test]
fn textures_are_sampled_at_the_nearest_texel() {
    let described = sampler();
    assert_eq!(described.address_mode, AddressMode::ClampToEdge);
    assert_eq!(described.filter, FilterMode::Nearest);
}

#[test]
fn quads_turn_counter_clockwise() {
    let corners: Vec<(i8, i8)> = (0..4).map(centred_corner_of).collect();
    assert_eq!(corners, vec![(1, 1), (-1, 1), (-1, -1), (1, -1)]);
    let mut indices: Vec<u16> = Vec::new();
    push_quad_indices(&mut indices, 0);
    push_quad_indices(&mut indices, 1);
    assert_eq!(indices, vec![0, 1, 2, 2, 3, 0, 4, 5, 6, 6, 7, 4]);
    for triangle in indices.chunks(3) {
        let a = corners[triangle[0] as usize % 4];
        let b = corners[triangle[1] as usize % 4];
        let c = corners[triangle[2] as usize % 4];
        let turn = (b.0 - a.0) as i32 * (c.1 - a.1) as i32 - (b.1 - a.1) as i32 * (c.0 - a.0) as i32;
        assert!(turn > 0);
    }
}
