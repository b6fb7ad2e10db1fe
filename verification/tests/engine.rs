use bevy::math::Vec2;
use rusty_engine::engine::Engine;
use rusty_engine::items::{
    CollisionEvent, CollisionPair, CollisionState, Sprite, SvgSprite, Text, DEFAULT_FONT_SIZE,
};

fn sprite(label: &str, file: &str) -> Sprite {
    Sprite::new(label.to_string(), file.to_string(), vec![])
}

#[test]
fn new_engine_is_empty() {
    let engine = Engine::new();
    assert!(engine.sprites.is_empty());
    assert!(engine.svg_sprites.is_empty());
    assert!(engine.texts.is_empty());
    assert!(engine.collision_events.is_empty());
    assert!(!engine.should_exit);
    assert!(!engine.show_colliders);
    assert!(!engine.last_show_colliders);
    let default_engine = Engine::default();
    assert!(default_engine.sprites.is_empty());
}

#[test]
fn add_sprite_inserts_and_returns_it() {
    let mut engine = Engine::new();
    {
        let car = engine.add_sprite(
            "Player".to_string(),
            "racing/car_green.png".to_string(),
            vec![Vec2::new(-1.0, 0.0), Vec2::new(1.0, 0.0), Vec2::new(0.0, 2.0)],
        );
        assert_eq!(car.label, "Player");
        assert_eq!(car.filepath, "racing/car_green.png");
        assert!(!car.collision);
        assert_eq!(car.collider.len(), 3);
        assert_eq!(car.collider[2], Vec2::new(0.0, 2.0));
        assert!(car.collider_dirty);
        car.collision = true;
    }
    engine.add_sprite("Other".to_string(), "other.png".to_string(), vec![]);
    assert_eq!(engine.sprites.len(), 2);
    // What was written through the returned reference is what the engine holds.
    assert!(engine.sprites.get("Player").unwrap().collision);
    assert!(!engine.sprites.get("Other").unwrap().collision);
}

#[test]
fn add_svg_sprite_inserts_and_returns_it() {
    let mut engine = Engine::new();
    let svg = engine.add_svg_sprite("logo".to_string(), "logo.svg".to_string());
    assert_eq!(svg.label, "logo");
    assert_eq!(svg.filepath, "logo.svg");
    assert_eq!(engine.svg_sprites.len(), 1);
    assert!(engine.sprites.is_empty());
}

#[test]
fn add_svg_sprite_replaces_one_with_the_same_label() {
    let mut engine = Engine::new();
    engine.add_svg_sprite("logo".to_string(), "old.svg".to_string());
    engine.add_svg_sprite("other".to_string(), "other.svg".to_string());
    let svg = engine.add_svg_sprite("logo".to_string(), "new.svg".to_string());
    assert_eq!(svg.filepath, "new.svg");
    assert_eq!(engine.svg_sprites.len(), 2);
    assert_eq!(engine.svg_sprites.get("logo").unwrap().filepath, "new.svg");
    assert_eq!(engine.svg_sprites.get("other").unwrap().filepath, "other.svg");
}

#[test]
fn clones_keep_every_field() {
    let mut s = sprite("a", "a.png");
    s.collider = vec![Vec2::new(3.0, 4.0)];
    s.collision = true;
    let c = s.clone();
    assert_eq!(c.label, "a");
    assert_eq!(c.filepath, "a.png");
    assert_eq!(c.collider, vec![Vec2::new(3.0, 4.0)]);
    assert!(c.collision);
    assert_eq!(c.transform, s.transform);
    let t = Text::new("t".to_string(), "v".to_string()).clone();
    assert_eq!(t.value, "v");
    assert_eq!(t.font, "FiraSans-Bold.ttf");
}

#[test]
fn add_text_uses_default_font_and_size() {
    let mut engine = Engine::new();
    {
        let text = engine.add_text("score".to_string(), "Score: 0".to_string());
        assert_eq!(text.label, "score");
        assert_eq!(text.value, "Score: 0");
        assert_eq!(text.font, "FiraSans-Bold.ttf");
        assert_eq!(text.font_size, 30);
        assert_eq!(text.font_size, DEFAULT_FONT_SIZE);
        text.value = "Score: 1".to_string();
    }
    assert_eq!(engine.texts.get("score").unwrap().value, "Score: 1");
}

#[test]
fn load_frame_replaces_collision_events() {
    let mut engine = Engine::new();
    let first = vec![CollisionEvent {
        state: CollisionState::Begin,
        pair: CollisionPair("a".to_string(), "b".to_string()),
    }];
    engine.load_frame(first, vec![], vec![], vec![]);
    assert_eq!(engine.collision_events.len(), 1);
    // Events that the logic did not handle are gone in the next frame.
    engine.load_frame(vec![], vec![], vec![], vec![]);
    assert!(engine.collision_events.is_empty());
}

#[test]
fn load_frame_keeps_last_item_of_a_label() {
    let mut engine = Engine::new();
    engine.add_sprite("stale".to_string(), "stale.png".to_string(), vec![]);
    let mut second = sprite("a", "second.png");
    second.collider = vec![Vec2::new(0.0, 0.0)];
    engine.load_frame(
        vec![],
        vec![sprite("a", "first.png"), sprite("b", "b.png"), second],
        vec![SvgSprite::new("s".to_string(), "s.svg".to_string())],
        vec![Text::new("t".to_string(), "hello".to_string())],
    );
    assert_eq!(engine.sprites.len(), 2);
    assert!(engine.sprites.get("stale").is_none());
    assert_eq!(engine.sprites.get("a").unwrap().filepath, "second.png");
    assert_eq!(engine.sprites.get("b").unwrap().filepath, "b.png");
    assert_eq!(engine.svg_sprites.len(), 1);
    assert_eq!(engine.texts.get("t").unwrap().value, "hello");
}

#[test]
fn frame_keeps_timing_and_window_size() {
    let mut engine = Engine::new();
    engine.delta = std::time::Duration::from_millis(16);
    engine.time_since_startup = std::time::Duration::from_secs(3);
    engine.window_dimensions = Vec2::new(1280.0, 720.0);
    engine.load_frame(vec![], vec![sprite("a", "a.png")], vec![], vec![]);
    let _ = engine.plan_frame(&rusty_engine::sync::FrameWorld::<u32> {
        collider_lines: vec![],
        sprites: vec![],
        svg_sprites: vec![],
        texts: vec![],
    });
    assert_eq!(engine.delta, std::time::Duration::from_millis(16));
    assert_eq!(engine.time_since_startup, std::time::Duration::from_secs(3));
    assert_eq!(engine.window_dimensions, Vec2::new(1280.0, 720.0));
}
