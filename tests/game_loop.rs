use barn::game::game::Game;
use barn::game::state::State;
use barn::input::keyboard_handler::{KEY_ESCAPE, KEY_SPACE};

/// Records every callback as "<state> <callback>".
struct Log {
    entries: Vec<String>,
    dts: Vec<u64>,
}

struct Scene {
    name: &'static str,
    switch_on_frame: Option<u32>,
    frames: u32,
}

impl State<Log, Vec<String>> for Scene {
    fn update(&mut self, context: &mut Log, dt: u64) -> Option<Scene> {
        context.entries.push(format!("{} update", self.name));
        context.dts.push(dt);
        self.frames += 1;
        if self.switch_on_frame == Some(self.frames) {
            Some(Scene { name: "next", switch_on_frame: None, frames: 0 })
        } else {
            None
        }
    }

    fn render(&mut self, context: &mut Log, renderer: &mut Vec<String>) {
        context.entries.push(format!("{} render", self.name));
        renderer.push(self.name.to_string());
    }

    fn on_enter(&mut self, context: &mut Log) {
        context.entries.push(format!("{} enter", self.name));
    }

    fn on_exit(&mut self, context: &mut Log) {
        context.entries.push(format!("{} exit", self.name));
    }

    fn get_name(&mut self) -> String {
        self.name.to_string()
    }
}

fn log() -> Log {
    Log { entries: Vec::new(), dts: Vec::new() }
}

#[test]
fn transition_happens_before_render() {
    let mut game: Game<Scene> = Game::new("test", 500, 500);
    let mut ctx = log();
    let mut drawn: Vec<String> = Vec::new();
    game.start(Scene { name: "first", switch_on_frame: Some(2), frames: 0 }, &mut ctx);
    assert!(!game.frame(&mut ctx, &mut drawn, 1_000));
    assert!(game.frame(&mut ctx, &mut drawn, 2_000));
    assert!(!game.frame(&mut ctx, &mut drawn, 3_000));
    assert_eq!(
        ctx.entries,
        vec![
            "first enter",
            "first update",
            "first render",
            "first update",
            "first exit",
            "next enter",
            "next render",
            "next update",
            "next render",
        ]
    );
    assert_eq!(drawn, vec!["first", "next", "next"]);
    assert_eq!(game.current_state.as_mut().unwrap().get_name(), "next");
}

#[test]
fn first_frame_dt_is_zero() {
    let mut game: Game<Scene> = Game::new("test", 500, 500);
    let mut ctx = log();
    let mut drawn: Vec<String> = Vec::new();
    game.start(Scene { name: "only", switch_on_frame: None, frames: 0 }, &mut ctx);
    game.frame(&mut ctx, &mut drawn, 5_000_000);
    game.frame(&mut ctx, &mut drawn, 5_016_667);
    game.frame(&mut ctx, &mut drawn, 5_050_000);
    assert_eq!(ctx.dts, vec![0, 16_667, 33_333]);
}

#[test]
fn frame_dt_handles_clock_going_back() {
    let mut game: Game<Scene> = Game::new("test", 500, 500);
    assert_eq!(game.frame_dt(100), 0);
    assert_eq!(game.frame_dt(150), 50);
    assert_eq!(game.frame_dt(120), 0);
    assert_eq!(game.last_frame_time, Some(120));
}

#[test]
fn frame_before_start_touches_nothing_but_the_clock() {
    let mut game: Game<Scene> = Game::new("test", 640, 480);
    let mut ctx = log();
    let mut drawn: Vec<String> = Vec::new();
    assert!(!game.frame(&mut ctx, &mut drawn, 10));
    assert!(ctx.entries.is_empty());
    assert!(drawn.is_empty());
    assert_eq!(game.last_frame_time, Some(10));
    assert_eq!(game.window_title, "test");
    assert_eq!((game.window_width, game.window_height), (640, 480));
}

#[test]
fn quit_key_and_close_stop_the_loop() {
    let mut game: Game<Scene> = Game::new("test", 500, 500);
    assert!(game.is_running());
    game.handle_key(Some(KEY_SPACE));
    game.handle_key(None);
    assert!(game.is_running());
    game.handle_key(Some(KEY_ESCAPE));
    assert!(!game.is_running());
    let mut other: Game<Scene> = Game::new("test", 500, 500);
    other.quit();
    assert!(!other.is_running());
}
