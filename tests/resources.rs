use barn::audio;
use barn::fonts;
use barn::fonts::font_details::FontDetails;
use barn::game::resources::{ResourceCache, ResourceLoadError};
use barn::graphics::color::{self, Color};
use barn::graphics::draw_list::{DrawCommand, DrawList, FillType};
use barn::graphics::rect::Rect;
use barn::graphics::sdl_sprite::{SdlSprite, SdlSpriteAnimation, SdlSpriteFrame};
use barn::math::bounding_box_2d::BoundingBox2D;
use barn::math::vector2::Vector2;

#[test]
fn cache_loads_each_key_once() {
    let mut cache: ResourceCache<u32> = ResourceCache::new();
    assert!(!cache.contains("moon.png"));
    assert_eq!(cache.get("moon.png"), None);
    assert!(cache.insert(String::from("moon.png"), 7));
    assert!(cache.insert(String::from("ground.png"), 8));
    assert!(!cache.insert(String::from("moon.png"), 9));
    assert_eq!(cache.get("moon.png"), Some(&7));
    assert_eq!(cache.get("ground.png"), Some(&8));
    assert!(cache.contains("ground.png"));
    assert!(!cache.contains("ground"));
}

#[test]
fn load_errors_name_the_path() {
    let e = ResourceLoadError::Missing(String::from("a.png"));
    assert_eq!(e.clone(), ResourceLoadError::Missing(String::from("a.png")));
    assert_ne!(e, ResourceLoadError::Malformed(String::from("a.png")));
}

#[test]
fn color_from_hex_splits_channels() {
    assert_eq!(Color::from_hex(0x12345678), Color::new(0x12, 0x34, 0x56, 0x78));
    assert_eq!(Color::from_hex(color::WHITE), Color::new(255, 255, 255, 255));
    assert_eq!(Color::from_hex(color::CLEAR), Color::new(0, 0, 0, 0));
}

#[test]
fn color_from_rgb_clamps() {
    assert_eq!(Color::from_rgb(10, 300, 255), Color::new(10, 255, 255, 255));
    assert_eq!(Color::from_rgba(0, 1, 256, 1000), Color::new(0, 1, 255, 255));
}

#[test]
fn draw_list_queues_in_order() {
    let mut d = DrawList::new();
    let red = Color::from_hex(color::RED);
    d.draw_rect(1, 2, 3, 4, red, FillType::Fill);
    d.draw_sprite(String::from("t.png"), Rect::new(0, 0, 9, 15), Rect::new(1, 1, 18, 30));
    d.draw_text(String::from("hi"), 5, 6, 16, red);
    d.draw_bounding_box(&BoundingBox2D::new(Vector2::new(-1500, 2999), 10, 20), red, FillType::Line);
    assert_eq!(d.commands.len(), 4);
    assert_eq!(
        d.commands[0],
        DrawCommand::Rect { x: 1, y: 2, width: 3, height: 4, color: red, fill: FillType::Fill }
    );
    assert_eq!(
        d.commands[3],
        DrawCommand::Rect { x: -1, y: 2, width: 10, height: 20, color: red, fill: FillType::Line }
    );
    d.set_clear_color(red);
    d.clear_draw_commands();
    assert!(d.commands.is_empty());
    assert_eq!(d.clear_color, red);
}

#[test]
fn draw_sprite_uses_current_frame() {
    let mut s = SdlSprite::new(Rect::new(0, 0, 1, 1), Rect::new(0, 0, 2, 2));
    let f = SdlSpriteFrame { src: Rect::new(9, 0, 9, 15), dst: Rect::new(3, 3, 9, 15), duration: 5 };
    s.add_animation(String::from("idle"), SdlSpriteAnimation::new(vec![f], true));
    s.play_animation(String::from("idle"), true);
    let mut d = DrawList::new();
    d.draw_sdl_sprite(String::from("boy.png"), &s);
    assert_eq!(
        d.commands[0],
        DrawCommand::Sprite { texture: String::from("boy.png"), src: f.src, dst: f.dst }
    );
}

#[test]
fn legacy_audio_and_font_entry_points() {
    audio::init(8);
    assert!(audio::load_music(&String::from("song.mp3")).is_empty());
    audio::play_sound(vec![1, 2, 3], 0);
    audio::close();
    assert!(fonts::init().is_ok());
    fonts::close();
}

#[test]
fn font_details_compare_path_and_size() {
    let a = FontDetails { path: "font.ttf", size: 16 };
    assert!(a == FontDetails { path: "font.ttf", size: 16 });
    assert!(a != FontDetails { path: "font.ttf", size: 17 });
    assert!(a != FontDetails { path: "other.ttf", size: 16 });
}
