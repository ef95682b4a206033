use row666_metroidbrainia::gfx::pass::deferred_pass::{
    albedo_buffer, normal_buffer, pipeline, DeferredPass, DeferredSpriteBatch, DeferredVertex,
};
use row666_metroidbrainia::gfx::pipeline::{
    BindGroupLayoutEntry, BindingType, BlendFactor, ShaderStage, TextureFormat,
};
use row666_metroidbrainia::gfx::quad::MAX_QUADS;
use row666_metroidbrainia::ratio::Ratio;
use row666_metroidbrainia::texture::Texture;
use row666_metroidbrainia::texture_atlas::{DeferredTextureRegion, Rect};

fn sheet() -> Texture {
    Texture::new(7, 64, 32)
}

fn zombie() -> DeferredTextureRegion {
    DeferredTextureRegion {
        texture: sheet(),
        albedo: Rect { x: 8, y: 4, width: 16, height: 12 },
        normal: Rect { x: 40, y: 4, width: 16, height: 12 },
    }
}

fn uv(vertex: &DeferredVertex<f32>) -> ((f32, f32), (f32, f32)) {
    let a = vertex.albedo_coords;
    let n = vertex.normal_coords;
    (
        (a.0.num as f32 / a.0.den as f32, a.1.num as f32 / a.1.den as f32),
        (n.0.num as f32 / n.0.den as f32, n.1.num as f32 / n.1.den as f32),
    )
}

#[test]
fn one_sprite_makes_one_quad() {
    let mut batch: DeferredSpriteBatch<f32> = DeferredSpriteBatch::new();
    batch.push((1.5, -2.0, 0.0), zombie());
    let (vertices, indices) = batch.gen_vecs();
    assert_eq!(vertices.len(), 4);
    assert_eq!(indices, vec![0, 1, 2, 2, 3, 0]);
    let offsets: Vec<(u32, u32)> = vertices.iter().map(|v| v.offset).collect();
    assert_eq!(offsets, vec![(0, 0), (16, 0), (16, 12), (0, 12)]);
    for vertex in &vertices {
        assert_eq!(vertex.origin, (1.5, -2.0, 0.0));
    }
    assert_eq!(vertices[0].albedo_coords, (Ratio { num: 8, den: 64 }, Ratio { num: 16, den: 32 }));
    assert_eq!(vertices[1].albedo_coords, (Ratio { num: 24, den: 64 }, Ratio { num: 16, den: 32 }));
    assert_eq!(vertices[2].albedo_coords, (Ratio { num: 24, den: 64 }, Ratio { num: 4, den: 32 }));
    assert_eq!(vertices[3].albedo_coords, (Ratio { num: 8, den: 64 }, Ratio { num: 4, den: 32 }));
    assert_eq!(vertices[0].normal_coords, (Ratio { num: 40, den: 64 }, Ratio { num: 16, den: 32 }));
    assert_eq!(vertices[1].normal_coords, (Ratio { num: 56, den: 64 }, Ratio { num: 16, den: 32 }));
    assert_eq!(vertices[2].normal_coords, (Ratio { num: 56, den: 64 }, Ratio { num: 4, den: 32 }));
    assert_eq!(vertices[3].normal_coords, (Ratio { num: 40, den: 64 }, Ratio { num: 4, den: 32 }));
    assert_eq!(uv(&vertices[0]), ((0.125, 0.5), (0.625, 0.5)));
}

#[test]
fn the_offsets_follow_the_colour_rectangle() {
    let mut batch: DeferredSpriteBatch<f32> = DeferredSpriteBatch::new();
    let region = DeferredTextureRegion {
        texture: sheet(),
        albedo: Rect { x: 0, y: 0, width: 10, height: 20 },
        normal: Rect { x: 32, y: 0, width: 3, height: 5 },
    };
    batch.push((0.0, 0.0, 0.0), region);
    let (vertices, _) = batch.gen_vecs();
    assert_eq!(vertices[2].offset, (10, 20));
    assert_eq!(vertices[2].normal_coords, (Ratio { num: 35, den: 64 }, Ratio { num: 0, den: 32 }));
    assert_eq!(vertices[0].normal_coords, (Ratio { num: 32, den: 64 }, Ratio { num: 5, den: 32 }));
}

#[test]
fn every_batch_has_four_vertices_and_six_indices_a_sprite() {
    for count in [0usize, 1, 2, 3, 17, 100] {
        let mut batch: DeferredSpriteBatch<f32> = DeferredSpriteBatch::new();
        for n in 0..count {
            batch.push((n as f32, 0.0, 0.0), zombie());
        }
        assert_eq!(batch.len(), count);
        let (vertices, indices) = batch.gen_vecs();
        assert_eq!(vertices.len(), 4 * count);
        assert_eq!(indices.len(), 6 * count);
        for (k, index) in indices.iter().enumerate() {
            let quad = k / 6;
            assert!(4 * quad <= *index as usize && (*index as usize) < 4 * quad + 4);
            assert_eq!(*index as usize, 4 * quad + [0, 1, 2, 2, 3, 0][k % 6]);
        }
        for (k, vertex) in vertices.iter().enumerate() {
            assert_eq!(vertex.origin.0, (k / 4) as f32);
        }
    }
}

#[test]
fn two_sprites_are_indexed_block_by_block() {
    let mut batch: DeferredSpriteBatch<f32> = DeferredSpriteBatch::new();
    batch.push((0.0, 0.0, 0.0), zombie());
    batch.push((5.0, 5.0, 0.0), zombie());
    let (_, indices) = batch.gen_vecs();
    assert_eq!(indices, vec![0, 1, 2, 2, 3, 0, 4, 5, 6, 6, 7, 4]);
}

#[test]
fn the_largest_batch_uses_every_index() {
    let mut batch: DeferredSpriteBatch<u8> = DeferredSpriteBatch::new();
    for _ in 0..MAX_QUADS {
        batch.push((0, 0, 0), zombie());
    }
    let (vertices, indices) = batch.gen_vecs();
    assert_eq!(MAX_QUADS, 16384);
    assert_eq!(vertices.len(), 65536);
    assert_eq!(indices.len(), 98304);
    assert_eq!(indices[98304 - 2], 65535);
    assert_eq!(indices[98304 - 1], 65532);
}

#[test]
fn a_sprite_of_the_whole_sheet_samples_its_corners() {
    let texture = Texture::new(1, 320, 180);
    let whole = Rect { x: 0, y: 0, width: 320, height: 180 };
    let mut batch: DeferredSpriteBatch<f32> = DeferredSpriteBatch::new();
    batch.push((0.0, 0.0, 0.0), DeferredTextureRegion { texture, albedo: whole, normal: whole });
    let (vertices, _) = batch.gen_vecs();
    let coords: Vec<((f32, f32), (f32, f32))> = vertices.iter().map(uv).collect();
    assert_eq!(coords[0], ((0.0, 1.0), (0.0, 1.0)));
    assert_eq!(coords[1], ((1.0, 1.0), (1.0, 1.0)));
    assert_eq!(coords[2], ((1.0, 0.0), (1.0, 0.0)));
    assert_eq!(coords[3], ((0.0, 0.0), (0.0, 0.0)));
}

#[test]
fn coordinates_beyond_32_bits_are_kept_exact() {
    let texture = Texture::new(1, u32::MAX, u32::MAX);
    let far = Rect { x: u32::MAX, y: u32::MAX, width: u32::MAX, height: 1 };
    let mut batch: DeferredSpriteBatch<f32> = DeferredSpriteBatch::new();
    batch.push((0.0, 0.0, 0.0), DeferredTextureRegion { texture, albedo: far, normal: far });
    let (vertices, _) = batch.gen_vecs();
    assert_eq!(vertices[1].albedo_coords.0, Ratio { num: 2 * (u32::MAX as u64), den: u32::MAX as u64 });
    assert_eq!(vertices[1].albedo_coords.1, Ratio { num: u32::MAX as u64 + 1, den: u32::MAX as u64 });
}

#[test]
fn a_pass_draws_what_was_queued_and_forgets_it() {
    let mut pass: DeferredPass<f32> = DeferredPass::new(sheet());
    assert_eq!(pass.len(), 0);
    pass.draw_sprite((0.0, 0.0, 0.0), zombie());
    pass.draw_sprite((1.0, 0.0, 0.0), zombie());
    assert_eq!(pass.len(), 2);
    let first = pass.draw();
    assert_eq!(first.vertices.len(), 8);
    assert_eq!(first.indices.len(), 12);
    assert_eq!(pass.len(), 0);
    let second = pass.draw();
    assert_eq!(second.vertices.len(), 0);
    assert_eq!(second.indices.len(), 0);
    assert_eq!(second.index_bytes.len(), 0);
    pass.draw_sprite((2.0, 0.0, 0.0), zombie());
    let third = pass.draw();
    assert_eq!(third.vertices.len(), 4);
    assert_eq!(third.vertices[0].origin, (2.0, 0.0, 0.0));
    assert_eq!(third.indices, vec![0, 1, 2, 2, 3, 0]);
}

#[test]
fn the_index_bytes_are_the_indices_in_memory() {
    let mut pass: DeferredPass<f32> = DeferredPass::new(sheet());
    for _ in 0..70 {
        pass.draw_sprite((0.0, 0.0, 0.0), zombie());
    }
    let frame = pass.draw();
    let mut wanted: Vec<u8> = Vec::new();
    for index in &frame.indices {
        wanted.extend_from_slice(&index.to_ne_bytes());
    }
    assert_eq!(frame.indices[6 * 69 + 1], 277);
    assert_eq!(frame.index_bytes.len(), 2 * frame.indices.len());
    assert_eq!(frame.index_bytes, wanted);
}

#[test]
fn a_pass_takes_only_its_own_sheet() {
    let pass: DeferredPass<f32> = DeferredPass::new(sheet());
    assert!(pass.accepts(&zombie()));
    let mut stranger = zombie();
    stranger.texture = Texture::new(8, 64, 32);
    assert!(!pass.accepts(&stranger));
    let mut resized = zombie();
    resized.texture = Texture::new(7, 1, 1);
    assert!(pass.accepts(&resized));
    assert_eq!(pass.sheet().id(), 7);
}

#[test]
fn the_geometry_pipeline_draws_into_two_targets() {
    let described = pipeline();
    assert_eq!(described.label, "DeferredPass Pipeline");
    assert_eq!(described.layout_label, "DeferredPass Pipeline Layout");
    assert_eq!(described.targets.len(), 2);
    for target in &described.targets {
        assert_eq!(target.format, TextureFormat::Rgba8Unorm);
        let blend = target.blend.unwrap();
        assert_eq!(blend.color.src_factor, BlendFactor::SrcAlpha);
        assert_eq!(blend.color.dst_factor, BlendFactor::OneMinusSrcAlpha);
        assert_eq!(blend.alpha.src_factor, BlendFactor::One);
        assert_eq!(blend.alpha.dst_factor, BlendFactor::OneMinusSrcAlpha);
    }
    assert_eq!(
        described.bind_group_layouts,
        vec![
            vec![
                BindGroupLayoutEntry {
                    binding: 0,
                    visibility: ShaderStage::Fragment,
                    ty: BindingType::Texture
                },
                BindGroupLayoutEntry {
                    binding: 1,
                    visibility: ShaderStage::Fragment,
                    ty: BindingType::Sampler
                },
            ],
            vec![BindGroupLayoutEntry {
                binding: 0,
                visibility: ShaderStage::Vertex,
                ty: BindingType::UniformBuffer
            }],
        ]
    );
}

#[test]
fn the_g_buffer_has_the_size_of_the_viewport() {
    let albedo = albedo_buffer();
    let normal = normal_buffer();
    assert_eq!((albedo.label, albedo.size, albedo.format), ("albedo_buffer", (320, 180), TextureFormat::Rgba8Unorm));
    assert_eq!((normal.label, normal.size, normal.format), ("normal_buffer", (320, 180), TextureFormat::Rgba8Unorm));
}
