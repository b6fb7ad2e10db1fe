use bevy::math::Vec2;
use rusty_engine::engine::Engine;
use rusty_engine::items::{ColliderLines, Sprite, SvgSprite, Text};
use rusty_engine::label_map::new_label_map;
use rusty_engine::sync::{
    collider_path, font_path, sync_with_world, FrameWorld, LineAction, PathCommand, SyncAction,
};

fn sprite(label: &str, points: usize, dirty: bool) -> Sprite {
    let mut s = Sprite::new(label.to_string(), format!("{}.png", label), vec![]);
    s.collider = (0..points).map(|i| Vec2::new(i as f32, 1.0)).collect();
    s.collider_dirty = dirty;
    s
}

fn lines(entries: &[(u32, &str)]) -> Vec<(u32, ColliderLines)> {
    entries
        .iter()
        .map(|(e, l)| (*e, ColliderLines { sprite_label: l.to_string() }))
        .collect()
}

fn world(entries: &[(u32, &str)]) -> Vec<(u32, String)> {
    entries.iter().map(|(e, l)| (*e, l.to_string())).collect()
}

#[test]
fn sync_writes_despawns_and_spawns() {
    let mut map = new_label_map::<u8>();
    map.insert("a".to_string(), 1);
    map.insert("c".to_string(), 3);
    let plan = sync_with_world(&mut map, &world(&[(10, "a"), (20, "b"), (30, "a")]));
    assert_eq!(plan.actions.len(), 3);
    assert!(matches!(plan.actions[0], SyncAction::Write(10, 1)));
    assert!(matches!(plan.actions[1], SyncAction::Despawn(20)));
    // A second entity with a label already taken is despawned.
    assert!(matches!(plan.actions[2], SyncAction::Despawn(30)));
    assert_eq!(plan.spawns.len(), 1);
    assert_eq!(plan.spawns[0].0, "c");
    assert_eq!(plan.spawns[0].1, 3);
    assert!(map.is_empty());
}

#[test]
fn sync_with_empty_world_spawns_everything() {
    let mut map = new_label_map::<u8>();
    map.insert("x".to_string(), 7);
    map.insert("y".to_string(), 8);
    let plan = sync_with_world::<u32, u8>(&mut map, &Vec::new());
    assert!(plan.actions.is_empty());
    let mut spawned: Vec<(String, u8)> = plan.spawns;
    spawned.sort();
    assert_eq!(spawned, vec![("x".to_string(), 7), ("y".to_string(), 8)]);
}

#[test]
fn unchanged_frame_keeps_world() {
    let mut engine = Engine::new();
    engine.load_frame(
        vec![],
        vec![sprite("a", 0, false), sprite("b", 0, false)],
        vec![SvgSprite::new("s".to_string(), "s.svg".to_string())],
        vec![Text::new("t".to_string(), "hi".to_string())],
    );
    let plan = engine.plan_frame(&FrameWorld {
        collider_lines: vec![],
        sprites: world(&[(1, "a"), (2, "b")]),
        svg_sprites: world(&[(3, "s")]),
        texts: world(&[(4, "t")]),
    });
    match &plan.sprites.actions[0] {
        SyncAction::Write(1, s) => assert_eq!(s.label, "a"),
        other => panic!("unexpected {:?}", other),
    }
    match &plan.sprites.actions[1] {
        SyncAction::Write(2, s) => assert_eq!(s.label, "b"),
        other => panic!("unexpected {:?}", other),
    }
    assert!(plan.sprites.spawns.is_empty());
    assert!(matches!(plan.svg_sprites.actions[0], SyncAction::Write(3, _)));
    assert!(plan.svg_sprites.spawns.is_empty());
    match &plan.texts.actions[0] {
        SyncAction::Write(4, t) => assert_eq!(t.value, "hi"),
        other => panic!("unexpected {:?}", other),
    }
    assert!(plan.texts.spawns.is_empty());
    assert!(!plan.exit);
    assert!(engine.sprites.is_empty());
    assert!(engine.svg_sprites.is_empty());
    assert!(engine.texts.is_empty());
}

#[test]
fn removed_sprite_is_despawned_and_added_one_spawned() {
    let mut engine = Engine::new();
    engine.load_frame(vec![], vec![sprite("old", 0, false)], vec![], vec![]);
    // The logic removes one sprite and adds another.
    engine.sprites.remove("old");
    engine.add_sprite("new".to_string(), "new.png".to_string(), vec![]);
    engine.should_exit = true;
    let plan = engine.plan_frame(&FrameWorld {
        collider_lines: vec![],
        sprites: world(&[(5, "old")]),
        svg_sprites: vec![],
        texts: vec![],
    });
    assert!(matches!(plan.sprites.actions[0], SyncAction::Despawn(5)));
    assert_eq!(plan.sprites.spawns.len(), 1);
    assert_eq!(plan.sprites.spawns[0].0, "new");
    assert_eq!(plan.sprites.spawns[0].1.filepath, "new.png");
    assert!(plan.exit);
}

#[test]
fn collider_path_of_points() {
    assert_eq!(collider_path::<u8>(&vec![]), vec![]);
    assert_eq!(collider_path(&vec![4u8]), vec![]);
    assert_eq!(
        collider_path(&vec![1u8, 2, 3]),
        vec![
            PathCommand::MoveTo(1),
            PathCommand::LineTo(2),
            PathCommand::LineTo(3),
            PathCommand::Close,
        ]
    );
    assert_eq!(
        collider_path(&vec![9u8, 8]),
        vec![PathCommand::MoveTo(9), PathCommand::LineTo(8), PathCommand::Close]
    );
}

#[test]
fn turning_lines_on_draws_them_for_every_collider() {
    let mut engine = Engine::new();
    engine.load_frame(
        vec![],
        vec![sprite("tri", 3, false), sprite("dot", 1, true), sprite("none", 0, false)],
        vec![],
        vec![],
    );
    engine.show_colliders = true;
    let plan = engine.plan_collider_lines(&lines(&[(7, "gone")]));
    assert_eq!(plan.lines, vec![LineAction::Despawn(7)]);
    assert_eq!(plan.spawns.len(), 1);
    assert_eq!(plan.spawns[0].sprite_label, "tri");
    assert_eq!(plan.spawns[0].path.len(), 4);
    assert_eq!(plan.spawns[0].path[3], PathCommand::Close);
    assert!(engine.last_show_colliders);
    assert!(engine.sprites.values().all(|s| !s.collider_dirty));
}

#[test]
fn turning_lines_off_removes_them() {
    let mut engine = Engine::new();
    engine.last_show_colliders = true;
    engine.load_frame(vec![], vec![sprite("tri", 3, true)], vec![], vec![]);
    let plan = engine.plan_collider_lines(&lines(&[(1, "tri"), (2, "other")]));
    assert_eq!(plan.lines, vec![LineAction::Despawn(1), LineAction::Despawn(2)]);
    assert!(plan.spawns.is_empty());
    assert!(!engine.last_show_colliders);
    // Hidden lines leave the colliders' flags alone.
    assert!(engine.sprites.get("tri").unwrap().collider_dirty);
}

#[test]
fn hidden_lines_stay_untouched() {
    let mut engine = Engine::new();
    engine.load_frame(vec![], vec![sprite("tri", 3, true)], vec![], vec![]);
    let plan = engine.plan_collider_lines(&lines(&[(1, "tri")]));
    assert_eq!(plan.lines, vec![LineAction::Leave(1)]);
    assert!(plan.spawns.is_empty());
}

#[test]
fn shown_lines_follow_changed_colliders() {
    let mut engine = Engine::new();
    engine.show_colliders = true;
    engine.last_show_colliders = true;
    engine.load_frame(
        vec![],
        vec![sprite("steady", 3, false), sprite("changed", 4, true)],
        vec![],
        vec![],
    );
    let steady_transform = engine.sprites.get("steady").unwrap().transform;
    let plan =
        engine.plan_collider_lines(&lines(&[(1, "steady"), (2, "changed"), (3, "removed")]));
    assert_eq!(
        plan.lines,
        vec![
            LineAction::Refresh(1, steady_transform),
            LineAction::Despawn(2),
            LineAction::Despawn(3),
        ]
    );
    assert_eq!(plan.spawns.len(), 1);
    assert_eq!(plan.spawns[0].sprite_label, "changed");
    assert_eq!(plan.spawns[0].path.len(), 5);
    assert!(!engine.sprites.get("changed").unwrap().collider_dirty);
    // A second frame without changes keeps the lines and draws none anew.
    let plan = engine.plan_collider_lines(&lines(&[(1, "steady"), (4, "changed")]));
    assert!(matches!(plan.lines[0], LineAction::Refresh(1, _)));
    assert!(matches!(plan.lines[1], LineAction::Refresh(4, _)));
    assert!(plan.spawns.is_empty());
}

#[test]
fn frame_writes_back_cleaned_sprites() {
    let mut engine = Engine::new();
    engine.show_colliders = true;
    engine.load_frame(vec![], vec![sprite("tri", 3, true)], vec![], vec![]);
    let plan = engine.plan_frame(&FrameWorld {
        collider_lines: vec![],
        sprites: world(&[(1, "tri")]),
        svg_sprites: vec![],
        texts: vec![],
    });
    assert_eq!(plan.collider_lines.spawns.len(), 1);
    match &plan.sprites.actions[0] {
        SyncAction::Write(1, s) => assert!(!s.collider_dirty),
        other => panic!("unexpected {:?}", other),
    }
    assert!(engine.last_show_colliders);
}

#[test]
fn font_path_prefixes_font_directory() {
    assert_eq!(font_path(&"FiraSans-Bold.ttf".to_string()), "font/FiraSans-Bold.ttf");
    assert_eq!(font_path(&String::new()), "font/");
}

#[test]
fn no_collider_lines_while_hidden() {
    let mut engine = Engine::new();
    engine.show_colliders = true;
    // Frame 1: lines turned on; one line entity is drawn.
    engine.load_frame(vec![], vec![sprite("tri", 3, true)], vec![], vec![]);
    let plan = engine.plan_collider_lines(&Vec::<(u32, ColliderLines)>::new());
    assert_eq!(plan.spawns.len(), 1);
    // Frame 2: the logic hides them; the line drawn in frame 1 is despawned.
    engine.load_frame(vec![], vec![sprite("tri", 3, false)], vec![], vec![]);
    engine.show_colliders = false;
    let plan = engine.plan_collider_lines(&lines(&[(1, "tri")]));
    assert_eq!(plan.lines, vec![LineAction::Despawn(1)]);
    assert!(plan.spawns.is_empty());
    // Frame 3: still hidden, with no lines in the world; none are drawn.
    engine.load_frame(vec![], vec![sprite("tri", 3, true)], vec![], vec![]);
    let plan = engine.plan_collider_lines(&Vec::<(u32, ColliderLines)>::new());
    assert!(plan.lines.is_empty());
    assert!(plan.spawns.is_empty());
}
