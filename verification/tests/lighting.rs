use row666_metroidbrainia::gfx::pass::lighting_pass::{
    global_light_indices, global_light_pipeline, global_light_vertices, output, pipeline, Color,
    DynamicLight, LightingPass, Lights,
};
use row666_metroidbrainia::gfx::pipeline::{BlendFactor, BlendOperation, BindingType, TextureFormat};
use row666_metroidbrainia::gfx::quad::MAX_QUADS;
use row666_metroidbrainia::ratio::Ratio;

fn lamp(x: f32) -> DynamicLight<f32> {
    DynamicLight { center: (x, 2.0, 10.0), radius: 40.0, color: Color::from_rgb(20, 50, 130) }
}

#[test]
fn one_light_makes_one_quad_around_its_centre() {
    let mut lights: Lights<f32> = Lights::new();
    lights.push(lamp(1.0));
    let (vertices, indices) = lights.gen_vecs();
    assert_eq!(indices, vec![0, 1, 2, 2, 3, 0]);
    let corners: Vec<(i8, i8)> = vertices.iter().map(|v| v.corner).collect();
    assert_eq!(corners, vec![(1, 1), (-1, 1), (-1, -1), (1, -1)]);
    let positions: Vec<(f32, f32, f32)> = vertices
        .iter()
        .map(|v| {
            (
                v.center.0 + v.corner.0 as f32 * v.radius,
                v.center.1 + v.corner.1 as f32 * v.radius,
                v.center.2,
            )
        })
        .collect();
    assert_eq!(
        positions,
        vec![(41.0, 42.0, 10.0), (-39.0, 42.0, 10.0), (-39.0, -38.0, 10.0), (41.0, -38.0, 10.0)]
    );
    for vertex in &vertices {
        assert_eq!(vertex.center, (1.0, 2.0, 10.0));
        assert_eq!(vertex.radius, 40.0);
        assert_eq!(vertex.color, Color::from_rgb(20, 50, 130));
    }
}

#[test]
fn every_list_has_four_vertices_and_six_indices_a_light() {
    for count in [0usize, 1, 4, 33] {
        let mut lights: Lights<f32> = Lights::new();
        for n in 0..count {
            lights.push(lamp(n as f32));
        }
        assert_eq!(lights.len(), count);
        let (vertices, indices) = lights.gen_vecs();
        assert_eq!(vertices.len(), 4 * count);
        assert_eq!(indices.len(), 6 * count);
        for (k, index) in indices.iter().enumerate() {
            assert_eq!(*index as usize, 4 * (k / 6) + [0, 1, 2, 2, 3, 0][k % 6]);
        }
        for (k, vertex) in vertices.iter().enumerate() {
            assert_eq!(vertex.center.0, (k / 4) as f32);
        }
    }
}

#[test]
fn the_longest_list_of_lights_uses_every_index() {
    let mut lights: Lights<u8> = Lights::new();
    for _ in 0..MAX_QUADS {
        lights.push(DynamicLight { center: (0, 0, 0), radius: 1, color: Color::from_rgb(1, 1, 1) });
    }
    let (vertices, indices) = lights.gen_vecs();
    assert_eq!(vertices.len(), 65536);
    assert_eq!(indices[indices.len() - 2], 65535);
}

#[test]
fn the_lighting_pass_draws_what_was_queued_and_forgets_it() {
    let mut pass: LightingPass<f32> = LightingPass::new();
    pass.draw_light(lamp(0.0));
    pass.draw_light(lamp(60.0));
    pass.draw_light(lamp(-60.0));
    assert_eq!(pass.len(), 3);
    let first = pass.draw();
    assert_eq!(first.vertices.len(), 12);
    assert_eq!(first.indices.len(), 18);
    assert_eq!(first.vertices[4].center.0, 60.0);
    let mut wanted: Vec<u8> = Vec::new();
    for index in &first.indices {
        wanted.extend_from_slice(&index.to_ne_bytes());
    }
    assert_eq!(first.index_bytes, wanted);
    let second = pass.draw();
    assert_eq!(second.vertices.len(), 0);
    assert_eq!(second.indices.len(), 0);
    assert_eq!(pass.len(), 0);
}

#[test]
fn the_ambient_quad_covers_the_screen() {
    let vertices = global_light_vertices();
    let positions: Vec<(i8, i8, i8)> = vertices.iter().map(|v| v.position).collect();
    let coords: Vec<(u8, u8)> = vertices.iter().map(|v| v.tex_coords).collect();
    assert_eq!(positions, vec![(1, 1, 0), (-1, 1, 0), (-1, -1, 0), (1, -1, 0)]);
    assert_eq!(coords, vec![(1, 0), (0, 0), (0, 1), (1, 1)]);
    for vertex in &vertices {
        let tenth = Ratio { num: 1, den: 10 };
        assert_eq!(vertex.color, (tenth, tenth, tenth));
        assert_eq!(vertex.color.0.num as f32 / vertex.color.0.den as f32, 0.1);
    }
    assert_eq!(global_light_indices(), vec![0, 1, 2, 2, 3, 0]);
}

#[test]
fn the_lights_add_up_in_a_target_encoded_for_display() {
    for described in [pipeline(), global_light_pipeline()] {
        assert_eq!(described.targets.len(), 1);
        assert_eq!(described.targets[0].format, TextureFormat::Rgba8UnormSrgb);
        let blend = described.targets[0].blend.unwrap();
        assert_eq!(blend.color.src_factor, BlendFactor::One);
        assert_eq!(blend.color.dst_factor, BlendFactor::One);
        assert_eq!(blend.color.operation, BlendOperation::Add);
        assert_eq!(blend.alpha.src_factor, BlendFactor::One);
        assert_eq!(blend.alpha.dst_factor, BlendFactor::Zero);
        let kinds: Vec<BindingType> = described.bind_group_layouts[0].iter().map(|e| e.ty).collect();
        assert_eq!(kinds, vec![BindingType::Texture, BindingType::Texture, BindingType::Sampler]);
    }
    assert_eq!(pipeline().label, "LightingPass Pipeline");
    assert_eq!(pipeline().bind_group_layouts.len(), 2);
    assert_eq!(global_light_pipeline().label, "LightingPass global Pipeline");
    assert_eq!(global_light_pipeline().layout_label, "LightingPass global Pipeline Layout");
    assert_eq!(global_light_pipeline().bind_group_layouts.len(), 1);
}

#[test]
fn the_lit_image_has_the_size_of_the_viewport() {
    let target = output();
    assert_eq!(target.label, "LightingPass output");
    assert_eq!(target.size, (320, 180));
    assert_eq!(target.format, TextureFormat::Rgba8UnormSrgb);
}
