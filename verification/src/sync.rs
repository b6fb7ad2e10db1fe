//! Bringing the engine back into the world at the end of a frame.
//!
//! Each frame the engine is filled from the world (`Engine::load_frame`),
//! the game's logic changes it as it likes, and then the world is brought in
//! line with what the logic left: every entity of the world whose label is
//! still in the engine takes the engine's item, every other one is despawned,
//! and every item of the engine that no entity carries is spawned. The
//! functions here decide that; the caller performs it on the world. Entities
//! are of any `Copy` type `E`.
use crate::engine::Engine;
use crate::items::{ColliderLines, Sprite, SvgSprite, Text};
use crate::label_map::{contents, map_drain, map_get, map_get_mut, map_labels, map_remove, LabelMap};
use bevy::math::Vec2;
use bevy::transform::components::Transform;
use vstd::prelude::*;

verus! {

// ---------------------------------------------------------------------------
// Labels in the world
// ---------------------------------------------------------------------------

/// The labels that the entities of `world` carry.
pub open spec fn world_labels<E>(world: Seq<(E, String)>) -> Set<Seq<char>> {
    Set::new(|l: Seq<char>| exists|i: int| 0 <= i < world.len() && world[i].1@ == l)
}

/// No entity before the `i`-th carries its label.
pub open spec fn first_with_label<E>(world: Seq<(E, String)>, i: int) -> bool {
    forall|j: int| 0 <= j < i ==> world[j].1@ != world[i].1@
}

/// `entries` lists the map `m`: each label of `m` once, with its item.
pub open spec fn enumerates<V>(entries: Seq<(String, V)>, m: Map<Seq<char>, V>) -> bool {
    &&& entries.len() == m.len()
    &&& forall|i: int|
        0 <= i < entries.len() ==> m.contains_key(#[trigger] entries[i].0@) && m[entries[i].0@]
            == entries[i].1
    &&& forall|i: int, j: int|
        0 <= i < entries.len() && 0 <= j < entries.len() && i != j ==> entries[i].0@
            != entries[j].0@
    &&& forall|l: Seq<char>|
        #[trigger] m.contains_key(l) ==> exists|i: int| 0 <= i < entries.len() && entries[i].0@ == l
}

// ---------------------------------------------------------------------------
// Sprites, SVG sprites and texts
// ---------------------------------------------------------------------------

/// What becomes of an entity of the world at the end of a frame.
#[derive(Debug)]
pub enum SyncAction<E, V> {
    /// The entity takes this item from the engine.
    Write(E, V),
    /// The entity leaves the world.
    Despawn(E),
}

/// What becomes of the entities of one kind at the end of a frame.
#[derive(Debug)]
pub struct SyncPlan<E, V> {
    /// One action for each entity of the world, in the order given.
    pub actions: Vec<SyncAction<E, V>>,
    /// The items of the engine that no entity carries: each is spawned,
    /// with its label.
    pub spawns: Vec<(String, V)>,
}

/// The action for the `i`-th entity of `world` when the engine holds `m`: it
/// takes the engine's item under its label if there is one and no earlier
/// entity took it; otherwise it is despawned.
pub open spec fn sync_action_for<E, V>(
    world: Seq<(E, String)>,
    m: Map<Seq<char>, V>,
    i: int,
) -> SyncAction<E, V> {
    if m.contains_key(world[i].1@) && first_with_label(world, i) {
        SyncAction::Write(world[i].0, m[world[i].1@])
    } else {
        SyncAction::Despawn(world[i].0)
    }
}

/// The items of `m` that no entity of `world` carries.
pub open spec fn unclaimed<E, V>(world: Seq<(E, String)>, m: Map<Seq<char>, V>) -> Map<
    Seq<char>,
    V,
> {
    m.remove_keys(world_labels(world))
}

/// `plan` is what becomes of `world` when the engine holds `m`.
pub open spec fn sync_plan_is<E, V>(
    plan: SyncPlan<E, V>,
    world: Seq<(E, String)>,
    m: Map<Seq<char>, V>,
) -> bool {
    &&& plan.actions@.len() == world.len()
    &&& forall|i: int|
        0 <= i < world.len() ==> #[trigger] plan.actions@[i] == sync_action_for(world, m, i)
    &&& enumerates(plan.spawns@, unclaimed(world, m))
}

/// Decides what becomes of the entities `world` (each with its label) when
/// the engine holds `map`, and moves the items out of `map`: each entity
/// takes the item under its label, or is despawned if there is none; the
/// items that no entity takes are spawned. `map` is empty afterwards.
pub fn sync_with_world<E: Copy, V>(map: &mut LabelMap<V>, world: &Vec<(E, String)>) -> (plan:
    SyncPlan<E, V>)
    ensures
        sync_plan_is(plan, world@, contents(old(map))),
        contents(final(map)).is_empty(),
{
    let ghost m = contents(map);
    let mut actions: Vec<SyncAction<E, V>> = Vec::new();
    let mut i: usize = 0;
    while i < world.len()
        invariant
            i <= world@.len(),
            actions@.len() == i,
            forall|j: int| 0 <= j < i ==> #[trigger] actions@[j] == sync_action_for(world@, m, j),
            contents(map) == m.remove_keys(world_labels(world@.take(i as int))),
        decreases world@.len() - i,
    {
        let ghost before = world_labels(world@.take(i as int));
        let ghost l = world@[i as int].1@;
        proof {
            if before.contains(l) {
                let prefix = world@.take(i as int);
                let j = choose|j: int| 0 <= j < prefix.len() && prefix[j].1@ == l;
                assert(world@[j].1@ == l);
                assert(!first_with_label(world@, i as int));
            } else {
                assert forall|j: int| 0 <= j < i implies world@[j].1@ != world@[i as int].1@ by {
                    if world@[j].1@ == l {
                        assert(world@.take(i as int)[j].1@ == l);
                    }
                }
            }
        }
        let entity = world[i].0;
        let taken = map_remove(map, &world[i].1);
        match taken {
            Some(item) => {
                actions.push(SyncAction::Write(entity, item));
            },
            None => {
                actions.push(SyncAction::Despawn(entity));
            },
        }
        proof {
            let prefix = world@.take(i as int);
            let longer = world@.take(i + 1);
            let after = world_labels(longer);
            assert forall|x: Seq<char>| after.contains(x) <==> before.contains(x) || x == l by {
                if after.contains(x) {
                    let j = choose|j: int| 0 <= j < longer.len() && longer[j].1@ == x;
                    if j < i {
                        assert(prefix[j] == longer[j]);
                    }
                }
                if before.contains(x) {
                    let j = choose|j: int| 0 <= j < prefix.len() && prefix[j].1@ == x;
                    assert(prefix[j] == longer[j]);
                }
                if x == l {
                    assert(longer[i as int] == world@[i as int]);
                }
            }
            assert(m.remove_keys(after) =~= m.remove_keys(before).remove(l));
        }
        i = i + 1;
    }
    proof {
        assert(world@.take(world@.len() as int) =~= world@);
    }
    let spawns = map_drain(map);
    SyncPlan { actions, spawns }
}

// ---------------------------------------------------------------------------
// Collider lines
// ---------------------------------------------------------------------------

/// One step of drawing a path.
#[derive(Clone, Copy, Debug, PartialEq)]
pub enum PathCommand<P> {
    /// Start a new outline at the point.
    MoveTo(P),
    /// Draw a line from the current point to this one.
    LineTo(P),
    /// Draw a line back to where the outline started.
    Close,
}

/// The closed outline through `points`, in order: a move to the first point,
/// a line to each of the others, and a line back to the first. With fewer
/// than two points there is nothing to draw.
pub open spec fn closed_path<P>(points: Seq<P>) -> Seq<PathCommand<P>> {
    if points.len() < 2 {
        Seq::empty()
    } else {
        seq![PathCommand::MoveTo(points[0])] + points.drop_first().map_values(
            |p: P| PathCommand::LineTo(p),
        ) + seq![PathCommand::Close]
    }
}

/// The collider lines of a sprite: the closed outline through the points of
/// its collider, or nothing when it has fewer than two points.
pub fn collider_path<P: Copy>(points: &Vec<P>) -> (path: Vec<PathCommand<P>>)
    ensures
        path@ == closed_path(points@),
{
    let mut path: Vec<PathCommand<P>> = Vec::new();
    if points.len() < 2 {
        return path;
    }
    path.push(PathCommand::MoveTo(points[0]));
    let mut i: usize = 1;
    while i < points.len()
        invariant
            1 <= i <= points@.len(),
            path@ == seq![PathCommand::MoveTo(points@[0])] + points@.subrange(1, i as int).map_values(
                |p: P| PathCommand::LineTo(p),
            ),
        decreases points@.len() - i,
    {
        let ghost before = path@;
        path.push(PathCommand::LineTo(points[i]));
        proof {
            assert(path@ == before.push(PathCommand::LineTo(points@[i as int])));
            assert(points@.subrange(1, i + 1).map_values(|p: P| PathCommand::LineTo(p))
                =~= points@.subrange(1, i as int).map_values(|p: P| PathCommand::LineTo(p)).push(
                PathCommand::LineTo(points@[i as int]),
            ));
        }
        i = i + 1;
    }
    path.push(PathCommand::Close);
    proof {
        assert(points@.subrange(1, points@.len() as int) =~= points@.drop_first());
    }
    path
}

/// Collider lines to be drawn for a sprite.
#[derive(Debug)]
pub struct ColliderLinesSpawn {
    /// The label of the sprite that the lines belong to.
    pub sprite_label: String,
    /// The outline of the sprite's collider.
    pub path: Vec<PathCommand<Vec2>>,
    /// The sprite's transform, at which the lines are drawn.
    pub transform: Transform,
}

/// What becomes of an entity that draws collider lines.
#[derive(Debug, PartialEq)]
pub enum LineAction<E> {
    /// The lines leave the world.
    Despawn(E),
    /// The lines stay, moved to the transform of their sprite.
    Refresh(E, Transform),
    /// The lines stay as they are.
    Leave(E),
}

/// What becomes of the collider lines at the end of a frame.
#[derive(Debug)]
pub struct ColliderPlan<E> {
    /// One action for each entity that draws collider lines, in the order given.
    pub lines: Vec<LineAction<E>>,
    /// The collider lines to be drawn anew.
    pub spawns: Vec<ColliderLinesSpawn>,
}

/// The logic turned the collider lines on in this frame.
pub open spec fn turned_on(show: bool, last_show: bool) -> bool {
    show && !last_show
}

/// The logic turned the collider lines off in this frame.
pub open spec fn turned_off(show: bool, last_show: bool) -> bool {
    !show && last_show
}

/// The sprite under label `l` needs its collider lines drawn anew: all
/// sprites do when the lines were just turned on; while they are shown, those
/// whose collider changed do.
pub open spec fn needs_lines(m: Map<Seq<char>, Sprite>, show: bool, last_show: bool, l: Seq<char>) -> bool {
    turned_on(show, last_show) || (show && m[l].collider_dirty)
}

/// Lines drawn for the sprite labeled `l` are despawned: all lines when the
/// lines were just turned off; while they are shown, those whose sprite is
/// gone or is drawn anew.
pub open spec fn lines_despawned(
    m: Map<Seq<char>, Sprite>,
    show: bool,
    last_show: bool,
    l: Seq<char>,
) -> bool {
    turned_off(show, last_show) || (show && (!m.contains_key(l) || (!turned_on(show, last_show)
        && m[l].collider_dirty)))
}

/// The action for the `i`-th entity of `lines` when the engine holds the
/// sprites `m`.
pub open spec fn line_action_for<E>(
    lines: Seq<(E, ColliderLines)>,
    m: Map<Seq<char>, Sprite>,
    show: bool,
    last_show: bool,
    i: int,
) -> LineAction<E> {
    let l = lines[i].1.sprite_label@;
    if lines_despawned(m, show, last_show, l) {
        LineAction::Despawn(lines[i].0)
    } else if show {
        LineAction::Refresh(lines[i].0, m[l].transform)
    } else {
        LineAction::Leave(lines[i].0)
    }
}

/// The sprite with its collider marked clean.
pub open spec fn clean(s: Sprite) -> Sprite {
    Sprite { collider_dirty: false, ..s }
}

/// The sprites once the frame's collider lines are drawn: while the lines are
/// shown, every collider is clean; otherwise nothing changes.
pub open spec fn cleaned(m: Map<Seq<char>, Sprite>, show: bool) -> Map<Seq<char>, Sprite> {
    if show {
        m.map_values(|s: Sprite| clean(s))
    } else {
        m
    }
}

/// `spawn` draws the collider lines of the sprite `s` labeled `l`.
pub open spec fn lines_spawn_for(spawn: ColliderLinesSpawn, l: Seq<char>, s: Sprite) -> bool {
    &&& spawn.sprite_label@ == l
    &&& spawn.path@ == closed_path(s.collider@)
    &&& spawn.transform == s.transform
}

/// The sprite labeled `l` gets new collider lines: it needs them and its
/// collider has at least two points.
pub open spec fn gets_lines(m: Map<Seq<char>, Sprite>, show: bool, last_show: bool, l: Seq<char>) -> bool {
    m.contains_key(l) && needs_lines(m, show, last_show, l) && m[l].collider@.len() >= 2
}

/// `plan` is what becomes of the collider lines `lines` when the engine holds
/// the sprites `m`.
pub open spec fn collider_plan_is<E>(
    plan: ColliderPlan<E>,
    lines: Seq<(E, ColliderLines)>,
    m: Map<Seq<char>, Sprite>,
    show: bool,
    last_show: bool,
) -> bool {
    &&& plan.lines@.len() == lines.len()
    &&& forall|i: int|
        0 <= i < lines.len() ==> #[trigger] plan.lines@[i] == line_action_for(
            lines,
            m,
            show,
            last_show,
            i,
        )
    &&& forall|k: int|
        0 <= k < plan.spawns@.len() ==> gets_lines(m, show, last_show, plan.spawns@[k].sprite_label@)
            && lines_spawn_for(
            #[trigger] plan.spawns@[k],
            plan.spawns@[k].sprite_label@,
            m[plan.spawns@[k].sprite_label@],
        )
    &&& forall|k: int, j: int|
        0 <= k < plan.spawns@.len() && 0 <= j < plan.spawns@.len() && k != j
            ==> plan.spawns@[k].sprite_label@ != plan.spawns@[j].sprite_label@
    &&& forall|l: Seq<char>|
        #[trigger] gets_lines(m, show, last_show, l) ==> exists|k: int|
            0 <= k < plan.spawns@.len() && plan.spawns@[k].sprite_label@ == l
}

impl Engine {
    /// Decides what becomes of the collider lines at the end of a frame, from
    /// `show_colliders` and its value in the previous frame, and marks the
    /// colliders whose lines are drawn clean. `lines` are the entities that
    /// draw collider lines, each with the label of its sprite.
    pub fn plan_collider_lines<E: Copy>(&mut self, lines: &Vec<(E, ColliderLines)>) -> (plan:
        ColliderPlan<E>)
        ensures
            collider_plan_is(
                plan,
                lines@,
                contents(&old(self).sprites),
                old(self).show_colliders,
                old(self).last_show_colliders,
            ),
            contents(&final(self).sprites) == cleaned(
                contents(&old(self).sprites),
                old(self).show_colliders,
            ),
            forall|k: int|
                0 <= k < plan.spawns@.len() ==> contents(&old(self).sprites).contains_key(
                    (#[trigger] plan.spawns@[k]).sprite_label@,
                ) && plan.spawns@[k].transform == contents(
                    &old(self).sprites,
                )[plan.spawns@[k].sprite_label@].transform,
            contents(&final(self).sprites).dom() == contents(&old(self).sprites).dom(),
            forall|l: Seq<char>|
                #[trigger] contents(&old(self).sprites).contains_key(l) ==> {
                    let before = contents(&old(self).sprites)[l];
                    let after = contents(&final(self).sprites)[l];
                    &&& after.label == before.label
                    &&& after.filepath == before.filepath
                    &&& after.transform == before.transform
                    &&& after.collision == before.collision
                    &&& after.collider == before.collider
                    &&& after.collider_dirty == (before.collider_dirty
                        && !old(self).show_colliders)
                },
            final(self).last_show_colliders == old(self).show_colliders,
            final(self).show_colliders == old(self).show_colliders,
            final(self).delta == old(self).delta,
            final(self).time_since_startup == old(self).time_since_startup,
            final(self).window_dimensions == old(self).window_dimensions,
            final(self).should_exit == old(self).should_exit,
            final(self).svg_sprites == old(self).svg_sprites,
            final(self).texts == old(self).texts,
            final(self).collision_events == old(self).collision_events,
    {
        let ghost m = contents(&self.sprites);
        let show = self.show_colliders;
        let last = self.last_show_colliders;
        let just_on = show && !last;
        let just_off = !show && last;
        let mut actions: Vec<LineAction<E>> = Vec::new();
        let mut i: usize = 0;
        while i < lines.len()
            invariant
                i <= lines@.len(),
                contents(&self.sprites) == m,
                m == contents(&old(self).sprites),
                self.should_exit == old(self).should_exit,
                self.delta == old(self).delta,
                self.time_since_startup == old(self).time_since_startup,
                self.window_dimensions == old(self).window_dimensions,
                self.svg_sprites == old(self).svg_sprites,
                self.texts == old(self).texts,
                self.collision_events == old(self).collision_events,
                show == old(self).show_colliders,
                last == old(self).last_show_colliders,
                show == self.show_colliders,
                last == self.last_show_colliders,
                just_on == turned_on(show, last),
                just_off == turned_off(show, last),
                actions@.len() == i,
                forall|j: int|
                    0 <= j < i ==> #[trigger] actions@[j] == line_action_for(lines@, m, show, last, j),
            decreases lines@.len() - i,
        {
            let entity = lines[i].0;
            let action = match map_get(&self.sprites, &lines[i].1.sprite_label) {
                Some(sprite) => {
                    if just_off || (show && !just_on && sprite.collider_dirty) {
                        LineAction::Despawn(entity)
                    } else if show {
                        LineAction::Refresh(entity, sprite.transform)
                    } else {
                        LineAction::Leave(entity)
                    }
                },
                None => {
                    if just_off || show {
                        LineAction::Despawn(entity)
                    } else {
                        LineAction::Leave(entity)
                    }
                },
            };
            actions.push(action);
            i = i + 1;
        }
        let mut spawns: Vec<ColliderLinesSpawn> = Vec::new();
        if show {
            let labels = map_labels(&self.sprites);
            let mut k: usize = 0;
            while k < labels.len()
                invariant
                    show,
                    show == self.show_colliders,
                    last == self.last_show_colliders,
                    self.should_exit == old(self).should_exit,
                    self.delta == old(self).delta,
                    self.time_since_startup == old(self).time_since_startup,
                    self.window_dimensions == old(self).window_dimensions,
                    self.svg_sprites == old(self).svg_sprites,
                    self.texts == old(self).texts,
                    self.collision_events == old(self).collision_events,
                    actions@.len() == lines@.len(),
                    forall|j: int|
                        0 <= j < lines@.len() ==> #[trigger] actions@[j] == line_action_for(lines@, m, show, last, j),
                    k <= labels@.len(),
                    just_on == turned_on(show, last),
                    labels@.len() == m.len(),
                    forall|a: int| 0 <= a < labels@.len() ==> m.contains_key(#[trigger] labels@[a]@),
                    forall|a: int, b: int|
                        0 <= a < labels@.len() && 0 <= b < labels@.len() && a != b
                            ==> labels@[a]@ != labels@[b]@,
                    forall|l: Seq<char>|
                        #[trigger] m.contains_key(l) ==> exists|a: int|
                            0 <= a < labels@.len() && labels@[a]@ == l,
                    contents(&self.sprites).dom() == m.dom(),
                    forall|l: Seq<char>|
                        #[trigger] contents(&self.sprites).contains_key(l) ==> contents(
                            &self.sprites,
                        )[l] == (if (exists|a: int| 0 <= a < k && labels@[a]@ == l) {
                            clean(m[l])
                        } else {
                            m[l]
                        }),
                    forall|j: int|
                        0 <= j < spawns@.len() ==> exists|a: int|
                            0 <= a < k && labels@[a]@ == (#[trigger] spawns@[j]).sprite_label@,
                    forall|j: int|
                        0 <= j < spawns@.len() ==> gets_lines(m, show, last, spawns@[j].sprite_label@)
                            && lines_spawn_for(
                            #[trigger] spawns@[j],
                            spawns@[j].sprite_label@,
                            m[spawns@[j].sprite_label@],
                        ),
                    forall|j: int, b: int|
                        0 <= j < spawns@.len() && 0 <= b < spawns@.len() && j != b
                            ==> spawns@[j].sprite_label@ != spawns@[b].sprite_label@,
                    forall|a: int|
                        0 <= a < k && #[trigger] gets_lines(m, show, last, labels@[a]@) ==> exists|
                            j: int,
                        | 0 <= j < spawns@.len() && spawns@[j].sprite_label@ == labels@[a]@,
                decreases labels@.len() - k,
            {
                let label = &labels[k];
                let ghost l = label@;
                proof {
                    assert(m.contains_key(l));
                    assert forall|a: int| 0 <= a < k implies labels@[a]@ != l by {
                        assert(labels@[a]@ != labels@[k as int]@);
                    }
                    assert(contents(&self.sprites)[l] == m[l]);
                }
                let ghost spawns_before = spawns@;
                let sprite = map_get_mut(&mut self.sprites, label);
                if just_on || sprite.collider_dirty {
                    if sprite.collider.len() >= 2 {
                        let spawn = ColliderLinesSpawn {
                            sprite_label: label.clone(),
                            path: collider_path(&sprite.collider),
                            transform: sprite.transform,
                        };
                        spawns.push(spawn);
                    }
                    sprite.collider_dirty = false;
                }
                proof {
                    assert(spawns_before == spawns@.take(spawns_before.len() as int));
                    assert forall|x: Seq<char>| #[trigger]
                        contents(&self.sprites).contains_key(x) implies contents(&self.sprites)[x]
                        == (if (exists|a: int| 0 <= a < k + 1 && labels@[a]@ == x) {
                        clean(m[x])
                    } else {
                        m[x]
                    }) by {
                        if x == l {
                            assert(labels@[k as int]@ == x);
                        } else if exists|a: int| 0 <= a < k + 1 && labels@[a]@ == x {
                            let a = choose|a: int| 0 <= a < k + 1 && labels@[a]@ == x;
                            assert(a < k);
                        }
                    }
                    assert forall|j: int| 0 <= j < spawns@.len() implies exists|a: int|
                        0 <= a < k + 1 && labels@[a]@ == (#[trigger] spawns@[j]).sprite_label@ by {
                        if j < spawns_before.len() {
                            assert(spawns@[j] == spawns_before[j]);
                        } else {
                            assert(labels@[k as int]@ == spawns@[j].sprite_label@);
                        }
                    }
                    assert forall|a: int|
                        0 <= a < k + 1 && #[trigger] gets_lines(m, show, last, labels@[a]@) implies exists|
                        j: int,
                    | 0 <= j < spawns@.len() && spawns@[j].sprite_label@ == labels@[a]@ by {
                        if a < k {
                            let j = choose|j: int|
                                0 <= j < spawns_before.len() && spawns_before[j].sprite_label@
                                    == labels@[a]@;
                            assert(spawns@[j] == spawns_before[j]);
                        } else {
                            assert(spawns@[spawns@.len() - 1].sprite_label@ == labels@[a]@);
                        }
                    }
                }
                k = k + 1;
            }
            proof {
                assert forall|l: Seq<char>| #[trigger] gets_lines(m, show, last, l) implies exists|
                    j: int,
                | 0 <= j < spawns@.len() && spawns@[j].sprite_label@ == l by {
                    let a = choose|a: int| 0 <= a < labels@.len() && labels@[a]@ == l;
                    assert(gets_lines(m, show, last, labels@[a]@));
                }
                assert forall|l: Seq<char>| #[trigger]
                    contents(&self.sprites).contains_key(l) implies contents(&self.sprites)[l]
                    == clean(m[l]) by {
                    let a = choose|a: int| 0 <= a < labels@.len() && labels@[a]@ == l;
                }
                assert(contents(&self.sprites) =~= cleaned(m, show));
            }
        }
        self.last_show_colliders = show;
        ColliderPlan { lines: actions, spawns }
    }
}

// ---------------------------------------------------------------------------
// The whole frame
// ---------------------------------------------------------------------------

/// The entities of the world at the end of a frame, each with its label.
pub struct FrameWorld<E> {
    /// The entities that draw collider lines, each with its marker.
    pub collider_lines: Vec<(E, ColliderLines)>,
    /// The sprite entities, each with its sprite's label.
    pub sprites: Vec<(E, String)>,
    /// The SVG sprite entities, each with its SVG sprite's label.
    pub svg_sprites: Vec<(E, String)>,
    /// The text entities, each with its text's label.
    pub texts: Vec<(E, String)>,
}

/// Everything that becomes of the world at the end of a frame.
#[derive(Debug)]
pub struct FramePlan<E> {
    pub collider_lines: ColliderPlan<E>,
    pub sprites: SyncPlan<E, Sprite>,
    pub svg_sprites: SyncPlan<E, SvgSprite>,
    pub texts: SyncPlan<E, Text>,
    /// The game exits once this frame has run.
    pub exit: bool,
}

impl Engine {
    /// Decides, once the game's logic has run, what becomes of the world:
    /// first the collider lines (which marks the drawn colliders clean), then
    /// the sprites, SVG sprites and texts, whose items move out of the engine
    /// into the plan, and whether the game exits.
    pub fn plan_frame<E: Copy>(&mut self, world: &FrameWorld<E>) -> (plan: FramePlan<E>)
        ensures
            collider_plan_is(
                plan.collider_lines,
                world.collider_lines@,
                contents(&old(self).sprites),
                old(self).show_colliders,
                old(self).last_show_colliders,
            ),
            sync_plan_is(
                plan.sprites,
                world.sprites@,
                cleaned(contents(&old(self).sprites), old(self).show_colliders),
            ),
            forall|i: int|
                0 <= i < world.sprites@.len() ==> match #[trigger] plan.sprites.actions@[i] {
                    SyncAction::Write(e, s) => {
                        let before = contents(&old(self).sprites)[world.sprites@[i].1@];
                        &&& e == world.sprites@[i].0
                        &&& contents(&old(self).sprites).contains_key(world.sprites@[i].1@)
                        &&& s.label == before.label
                        &&& s.filepath == before.filepath
                        &&& s.transform == before.transform
                        &&& s.collision == before.collision
                        &&& s.collider == before.collider
                        &&& s.collider_dirty == (before.collider_dirty
                            && !old(self).show_colliders)
                    },
                    SyncAction::Despawn(e) => e == world.sprites@[i].0,
                },
            forall|k: int|
                0 <= k < plan.sprites.spawns@.len() ==> {
                    let (l, s) = #[trigger] plan.sprites.spawns@[k];
                    let before = contents(&old(self).sprites)[l@];
                    &&& contents(&old(self).sprites).contains_key(l@)
                    &&& s.label == before.label
                    &&& s.filepath == before.filepath
                    &&& s.transform == before.transform
                    &&& s.collision == before.collision
                    &&& s.collider == before.collider
                    &&& s.collider_dirty == (before.collider_dirty && !old(self).show_colliders)
                },
            sync_plan_is(plan.svg_sprites, world.svg_sprites@, contents(&old(self).svg_sprites)),
            sync_plan_is(plan.texts, world.texts@, contents(&old(self).texts)),
            plan.exit == old(self).should_exit,
            contents(&final(self).sprites).is_empty(),
            contents(&final(self).svg_sprites).is_empty(),
            contents(&final(self).texts).is_empty(),
            final(self).last_show_colliders == old(self).show_colliders,
            final(self).show_colliders == old(self).show_colliders,
            final(self).delta == old(self).delta,
            final(self).time_since_startup == old(self).time_since_startup,
            final(self).window_dimensions == old(self).window_dimensions,
            final(self).should_exit == old(self).should_exit,
            final(self).collision_events == old(self).collision_events,
    {
        let ghost before = contents(&self.sprites);
        let collider_lines = self.plan_collider_lines(&world.collider_lines);
        let ghost cleaned_sprites = contents(&self.sprites);
        let sprites = sync_with_world(&mut self.sprites, &world.sprites);
        proof {
            assert forall|i: int| 0 <= i < world.sprites@.len() implies match #[trigger] sprites.actions@[i] {
                SyncAction::Write(e, s) => {
                    let b = before[world.sprites@[i].1@];
                    &&& e == world.sprites@[i].0
                    &&& before.contains_key(world.sprites@[i].1@)
                    &&& s.label == b.label
                    &&& s.filepath == b.filepath
                    &&& s.transform == b.transform
                    &&& s.collision == b.collision
                    &&& s.collider == b.collider
                    &&& s.collider_dirty == (b.collider_dirty && !self.show_colliders)
                },
                SyncAction::Despawn(e) => e == world.sprites@[i].0,
            } by {
                assert(sprites.actions@[i] == sync_action_for(world.sprites@, cleaned_sprites, i));
            }
            assert forall|k: int| 0 <= k < sprites.spawns@.len() implies {
                let (l, s) = #[trigger] sprites.spawns@[k];
                let b = before[l@];
                &&& before.contains_key(l@)
                &&& s.label == b.label
                &&& s.filepath == b.filepath
                &&& s.transform == b.transform
                &&& s.collision == b.collision
                &&& s.collider == b.collider
                &&& s.collider_dirty == (b.collider_dirty && !self.show_colliders)
            } by {
                let l = sprites.spawns@[k].0@;
                assert(unclaimed(world.sprites@, cleaned_sprites).contains_key(l));
                assert(cleaned_sprites.contains_key(l));
            }
        }
        let svg_sprites = sync_with_world(&mut self.svg_sprites, &world.svg_sprites);
        let texts = sync_with_world(&mut self.texts, &world.texts);
        FramePlan { collider_lines, sprites, svg_sprites, texts, exit: self.should_exit }
    }
}

/// The path of a font file among the game's assets: `font/` and the font's name.
pub fn font_path(font: &String) -> (path: String)
    ensures
        path@ == "font/"@ + font@,
{
    let mut path = String::from_str("font/");
    path.append(font.as_str());
    proof {
        reveal_strlit("font/");
    }
    path
}

} // verus!
