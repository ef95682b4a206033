use row666_metroidbrainia::gfx::pass::lighting_pass::{Color, DynamicLight};
use row666_metroidbrainia::ratio::Ratio;
use row666_metroidbrainia::renderer::RendererState;
use row666_metroidbrainia::texture::Texture;
use row666_metroidbrainia::texture_atlas::{DeferredTextureRegion, Rect};

fn sheet() -> Texture {
    Texture::new(9, 128, 128)
}

fn sprite() -> DeferredTextureRegion {
    DeferredTextureRegion {
        texture: sheet(),
        albedo: Rect { x: 0, y: 0, width: 16, height: 16 },
        normal: Rect { x: 64, y: 0, width: 16, height: 16 },
    }
}

fn light() -> DynamicLight<f32> {
    DynamicLight { center: (0.0, 0.0, 10.0), radius: 40.0, color: Color::from_rgb(0, 140, 60) }
}

#[test]
fn a_frame_holds_what_was_drawn_before_it() {
    let mut renderer: RendererState<f32> = RendererState::new(sheet(), 640, 480);
    renderer.draw_deferred_sprite((1.0, 2.0, 0.0), sprite());
    renderer.draw_light(light());
    renderer.draw_light(light());
    assert!(renderer.can_render());
    let frame = renderer.render();
    assert_eq!(frame.deferred.vertices.len(), 4);
    assert_eq!(frame.deferred.indices, vec![0, 1, 2, 2, 3, 0]);
    assert_eq!(frame.deferred.vertices[2].origin, (1.0, 2.0, 0.0));
    assert_eq!(frame.deferred.vertices[2].offset, (16, 16));
    assert_eq!(frame.lighting.vertices.len(), 8);
    assert_eq!(frame.lighting.indices.len(), 12);
    assert_eq!(frame.viewport.unwrap().scale_y, Ratio { num: 115200, den: 153600 });
}

#[test]
fn a_frame_after_a_frame_is_empty() {
    let mut renderer: RendererState<f32> = RendererState::new(sheet(), 320, 180);
    renderer.draw_deferred_sprite((1.0, 2.0, 0.0), sprite());
    renderer.draw_light(light());
    renderer.render();
    let again = renderer.render();
    assert_eq!(again.deferred.vertices.len(), 0);
    assert_eq!(again.deferred.indices.len(), 0);
    assert_eq!(again.lighting.vertices.len(), 0);
    assert_eq!(again.lighting.indices.len(), 0);
    renderer.draw_light(light());
    let third = renderer.render();
    assert_eq!(third.deferred.vertices.len(), 0);
    assert_eq!(third.lighting.vertices.len(), 4);
}

#[test]
fn what_is_drawn_after_a_frame_is_in_the_next() {
    let mut renderer: RendererState<f32> = RendererState::new(sheet(), 320, 180);
    renderer.render();
    renderer.draw_deferred_sprite((5.0, 0.0, 0.0), sprite());
    let frame = renderer.render();
    assert_eq!(frame.deferred.vertices.len(), 4);
    assert_eq!(frame.deferred.vertices[0].origin.0, 5.0);
}

#[test]
fn a_renderer_without_a_window_size_has_no_letterbox() {
    let mut renderer: RendererState<f32> = RendererState::new(sheet(), 0, 0);
    assert!(renderer.viewport().is_none());
    assert!(renderer.render().viewport.is_none());
    renderer.resize(0, 100);
    assert!(renderer.viewport().is_none());
    renderer.resize(320, 180);
    assert_eq!(renderer.viewport().unwrap().scale_x, Ratio { num: 1, den: 1 });
    renderer.resize(0, 0);
    assert!(renderer.viewport().is_some());
}

#[test]
fn a_renderer_takes_only_sprites_of_its_sheet() {
    let renderer: RendererState<f32> = RendererState::new(sheet(), 320, 180);
    assert!(renderer.accepts(&sprite()));
    let mut other = sprite();
    other.texture = Texture::new(10, 128, 128);
    assert!(!renderer.accepts(&other));
}

#[test]
fn too_many_sprites_cannot_be_rendered() {
    let mut renderer: RendererState<u8> = RendererState::new(sheet(), 320, 180);
    for _ in 0..16384 {
        renderer.draw_deferred_sprite((0, 0, 0), sprite());
    }
    assert!(renderer.can_render());
    renderer.draw_deferred_sprite((0, 0, 0), sprite());
    assert!(!renderer.can_render());
}
