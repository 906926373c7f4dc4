use barn::graphics::rect::Rect;
use barn::graphics::sdl_sprite::{SdlSprite, SdlSpriteAnimation, SdlSpriteFrame};
use barn::graphics::wgpu_sprite::WgpuSpriteAnimation;

fn frame(i: i32, duration: u64) -> SdlSpriteFrame {
    SdlSpriteFrame {
        src: Rect::new(i * 9, 0, 9, 15),
        dst: Rect::new(200, 200, 72, 120),
        duration,
    }
}

fn four_frames() -> Vec<SdlSpriteFrame> {
    (0..4).map(|i| frame(i, 200_000)).collect()
}

#[test]
fn total_duration_is_sum() {
    let a = SdlSpriteAnimation::new(vec![frame(0, 100), frame(1, 250), frame(2, 50)], false);
    assert_eq!(a.total_duration(), 400);
    assert_eq!(a.animation_timer(), 0);
}

#[test]
fn repeating_tick_wraps_timer() {
    let mut a = SdlSpriteAnimation::new(four_frames(), true);
    a.tick(900_000);
    assert_eq!(a.animation_timer(), 100_000);
    assert_eq!(a.current_frame(), frame(0, 200_000));
}

#[test]
fn tick_at_exact_total_does_not_wrap() {
    let mut a = SdlSpriteAnimation::new(four_frames(), true);
    a.tick(800_000);
    assert_eq!(a.animation_timer(), 800_000);
    assert_eq!(a.current_frame(), frame(3, 200_000));
}

#[test]
fn frame_boundaries_are_inclusive() {
    let mut a = SdlSpriteAnimation::new(four_frames(), true);
    assert_eq!(a.current_frame(), frame(0, 200_000));
    a.tick(200_000);
    assert_eq!(a.current_frame(), frame(0, 200_000));
    a.tick(1);
    assert_eq!(a.current_frame(), frame(1, 200_000));
    a.tick(399_999);
    assert_eq!(a.current_frame(), frame(2, 200_000));
}

#[test]
fn non_repeating_clip_stays_on_last_frame() {
    let mut a = SdlSpriteAnimation::new(four_frames(), false);
    a.tick(5_000_000);
    assert_eq!(a.animation_timer(), 5_000_000);
    assert_eq!(a.current_frame(), frame(3, 200_000));
    a.reset();
    assert_eq!(a.animation_timer(), 0);
    assert_eq!(a.current_frame(), frame(0, 200_000));
}

#[test]
fn tick_saturates() {
    let mut a = SdlSpriteAnimation::new(four_frames(), false);
    a.tick(u64::MAX);
    a.tick(10);
    assert_eq!(a.animation_timer(), u64::MAX);
}

#[test]
fn sprite_without_clip_uses_own_rects() {
    let src = Rect::new(0, 0, 16, 16);
    let dst = Rect::new(5, 6, 32, 32);
    let s = SdlSprite::new(src, dst);
    assert_eq!(s.get_src_rect(), src);
    assert_eq!(s.get_dst_rect(), dst);
}

#[test]
fn play_unknown_clip_is_ignored() {
    let src = Rect::new(0, 0, 16, 16);
    let dst = Rect::new(5, 6, 32, 32);
    let mut s = SdlSprite::new(src, dst);
    s.add_animation(String::from("walk"), SdlSpriteAnimation::new(four_frames(), true));
    s.play_animation(String::from("run"), true);
    assert_eq!(s.get_src_rect(), src);
    assert_eq!(s.get_dst_rect(), dst);
}

#[test]
fn playing_clip_drives_rects() {
    let mut s = SdlSprite::new(Rect::new(0, 0, 16, 16), Rect::new(5, 6, 32, 32));
    s.add_animation(String::from("walk"), SdlSpriteAnimation::new(four_frames(), false));
    s.play_animation(String::from("walk"), true);
    assert_eq!(s.get_src_rect(), frame(0, 200_000).src);
    assert_eq!(s.get_dst_rect(), frame(0, 200_000).dst);
    s.tick(900_000);
    // the clip now repeats, so the timer wrapped to 0.1 s
    assert_eq!(s.get_src_rect(), frame(0, 200_000).src);
    s.tick(250_000);
    assert_eq!(s.get_src_rect(), frame(1, 200_000).src);
}

#[test]
fn adding_a_clip_under_an_existing_name_replaces_it() {
    let mut s = SdlSprite::new(Rect::new(0, 0, 16, 16), Rect::new(5, 6, 32, 32));
    s.add_animation(String::from("walk"), SdlSpriteAnimation::new(four_frames(), false));
    s.add_animation(String::from("walk"), SdlSpriteAnimation::new(vec![frame(7, 10)], false));
    s.play_animation(String::from("walk"), false);
    assert_eq!(s.get_src_rect(), frame(7, 10).src);
}

#[test]
fn paused_clip_does_not_advance() {
    let mut a = WgpuSpriteAnimation::new(four_frames(), true);
    a.tick(300_000);
    assert_eq!(a.animation_timer(), 300_000);
    a.pause();
    a.tick(300_000);
    assert_eq!(a.animation_timer(), 300_000);
    assert_eq!(a.current_frame(), frame(1, 200_000));
    a.play();
    a.tick(600_000);
    assert_eq!(a.animation_timer(), 100_000);
    a.reset();
    assert_eq!(a.animation_timer(), 0);
}
