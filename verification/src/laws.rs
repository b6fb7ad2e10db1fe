//! What holds of every frame, stated over the specifications that the
//! frame's functions meet.
use crate::engine::loaded;
use crate::engine::lemma_loaded;
use crate::items::{ColliderLines, Labeled, Sprite};
use crate::sync::{
    cleaned, collider_plan_is, ColliderPlan, closed_path, gets_lines, line_action_for, sync_action_for, turned_off, turned_on, unclaimed,
    world_labels, LineAction, PathCommand, SyncAction,
};
use vstd::prelude::*;

verus! {

/// Every item that the engine holds at the end of a frame is in the world
/// afterwards exactly once, as it was left: either the first entity that
/// carries its label takes it, or, when no entity carries the label, it is
/// spawned. An entity whose label the logic removed from the engine is
/// despawned, and so is every later entity with a label already taken.
pub proof fn law_engine_items_reach_the_world<E, V>(world: Seq<(E, String)>, m: Map<Seq<char>, V>)
    ensures
        forall|l: Seq<char>|
            #[trigger] m.contains_key(l) ==> (unclaimed(world, m).contains_key(l) && unclaimed(
                world,
                m,
            )[l] == m[l]) || (exists|i: int|
                0 <= i < world.len() && world[i].1@ == l && sync_action_for(world, m, i)
                    == SyncAction::<E, V>::Write(world[i].0, m[l])),
        forall|l: Seq<char>|
            #[trigger] unclaimed(world, m).contains_key(l) ==> m.contains_key(l) && forall|i: int|
                0 <= i < world.len() ==> world[i].1@ != l,
        forall|i: int|
            0 <= i < world.len() && (#[trigger] sync_action_for(world, m, i) is Write)
                ==> m.contains_key(world[i].1@),
        forall|i: int|
            0 <= i < world.len() && !m.contains_key(world[i].1@) ==> #[trigger] sync_action_for(
                world,
                m,
                i,
            ) == SyncAction::<E, V>::Despawn(world[i].0),
        forall|i: int, j: int|
            0 <= i < j < world.len() && (#[trigger] sync_action_for(world, m, i) is Write) && (
            #[trigger] sync_action_for(world, m, j) is Write) ==> world[i].1@ != world[j].1@,
{
    assert forall|l: Seq<char>| #[trigger] m.contains_key(l) implies (unclaimed(
        world,
        m,
    ).contains_key(l) && unclaimed(world, m)[l] == m[l]) || (exists|i: int|
        0 <= i < world.len() && world[i].1@ == l && sync_action_for(world, m, i)
            == SyncAction::<E, V>::Write(world[i].0, m[l])) by {
        if world_labels(world).contains(l) {
            let k = choose|k: int| 0 <= k < world.len() && world[k].1@ == l;
            let i = first_index(world, l, k);
            assert(sync_action_for(world, m, i) == SyncAction::<E, V>::Write(world[i].0, m[l]));
        }
    }
    assert forall|l: Seq<char>| #[trigger] unclaimed(world, m).contains_key(l) implies m.contains_key(
        l,
    ) && forall|i: int| 0 <= i < world.len() ==> world[i].1@ != l by {
        assert forall|i: int| 0 <= i < world.len() implies world[i].1@ != l by {
            if world[i].1@ == l {
                assert(world_labels(world).contains(l));
            }
        }
    }
}

/// The first index of `world` whose entity carries `l`, at or before `k`.
proof fn first_index<E>(world: Seq<(E, String)>, l: Seq<char>, k: int) -> (i: int)
    requires
        0 <= k < world.len(),
        world[k].1@ == l,
    ensures
        0 <= i <= k,
        world[i].1@ == l,
        forall|j: int| 0 <= j < i ==> world[j].1@ != world[i].1@,
    decreases k,
{
    if exists|j: int| 0 <= j < k && world[j].1@ == l {
        let j = choose|j: int| 0 <= j < k && world[j].1@ == l;
        first_index(world, l, j)
    } else {
        k
    }
}

/// A frame in which the logic changes nothing leaves the world as it was:
/// when the engine was filled from the world's items (with distinct labels),
/// every entity takes back its own item and nothing is spawned.
pub proof fn law_unchanged_frame_keeps_world<E, V: Labeled>(
    world: Seq<(E, String)>,
    items: Seq<V>,
)
    requires
        world.len() == items.len(),
        forall|i: int| 0 <= i < world.len() ==> (#[trigger] world[i]).1@ == items[i].spec_label(),
        forall|i: int, j: int|
            0 <= i < j < items.len() ==> items[i].spec_label() != items[j].spec_label(),
    ensures
        forall|i: int|
            0 <= i < world.len() ==> #[trigger] sync_action_for(world, loaded(items), i)
                == SyncAction::<E, V>::Write(world[i].0, items[i]),
        unclaimed(world, loaded(items)).is_empty(),
{
    lemma_loaded(items);
    let m = loaded(items);
    assert forall|i: int| 0 <= i < world.len() implies #[trigger] sync_action_for(world, m, i)
        == SyncAction::<E, V>::Write(world[i].0, items[i]) by {
        let l = items[i].spec_label();
        assert(world[i].1@ == l);
        assert(m.contains_key(l));
        let k = crate::engine::last_index(items, l);
        if k != i {
            if k < i {
                assert(items[k].spec_label() != items[i].spec_label());
            } else {
                assert(items[i].spec_label() != items[k].spec_label());
            }
        }
        assert forall|j: int| 0 <= j < i implies world[j].1@ != world[i].1@ by {
            assert(world[j].1@ == items[j].spec_label());
        }
    }
    assert forall|l: Seq<char>| !(#[trigger] unclaimed(world, m).contains_key(l)) by {
        if m.contains_key(l) {
            let i = choose|i: int| 0 <= i < items.len() && items[i].spec_label() == l;
            assert(world[i].1@ == l);
            assert(world_labels(world).contains(l));
        }
    }
    assert(unclaimed(world, m).dom() =~= Set::<Seq<char>>::empty());
}

/// Turning the collider lines off despawns all of them, and none is drawn.
pub proof fn law_turning_lines_off_removes_them<E>(
    lines: Seq<(E, ColliderLines)>,
    m: Map<Seq<char>, Sprite>,
    show: bool,
    last_show: bool,
)
    requires
        turned_off(show, last_show),
    ensures
        forall|i: int|
            0 <= i < lines.len() ==> #[trigger] line_action_for(lines, m, show, last_show, i)
                == LineAction::Despawn(lines[i].0),
        forall|l: Seq<char>| !#[trigger] gets_lines(m, show, last_show, l),
{
}

/// While the collider lines stay hidden, none is touched and none is drawn.
pub proof fn law_hidden_lines_stay_untouched<E>(
    lines: Seq<(E, ColliderLines)>,
    m: Map<Seq<char>, Sprite>,
)
    ensures
        forall|i: int|
            0 <= i < lines.len() ==> #[trigger] line_action_for(lines, m, false, false, i)
                == LineAction::Leave(lines[i].0),
        forall|l: Seq<char>| !#[trigger] gets_lines(m, false, false, l),
{
}

/// Turning the collider lines on draws them for every sprite whose collider
/// has at least two points; only lines whose sprite is gone are despawned.
pub proof fn law_turning_lines_on_draws_all<E>(
    lines: Seq<(E, ColliderLines)>,
    m: Map<Seq<char>, Sprite>,
    show: bool,
    last_show: bool,
)
    requires
        turned_on(show, last_show),
    ensures
        forall|l: Seq<char>|
            #[trigger] m.contains_key(l) && m[l].collider@.len() >= 2 ==> gets_lines(
                m,
                show,
                last_show,
                l,
            ),
        forall|i: int|
            0 <= i < lines.len() ==> (#[trigger] line_action_for(lines, m, show, last_show, i)
                == LineAction::Despawn(lines[i].0) <==> !m.contains_key(
                lines[i].1.sprite_label@,
            )),
{
    assert forall|i: int| 0 <= i < lines.len() implies (#[trigger] line_action_for(
        lines,
        m,
        show,
        last_show,
        i,
    ) == LineAction::Despawn(lines[i].0) <==> !m.contains_key(lines[i].1.sprite_label@)) by {
        let l = lines[i].1.sprite_label@;
        if m.contains_key(l) {
            assert(line_action_for(lines, m, show, last_show, i) == LineAction::Refresh(
                lines[i].0,
                m[l].transform,
            ));
        }
    }
}

/// While the collider lines are shown and nothing changed (every sprite's
/// collider is clean and every line still has its sprite), a frame keeps
/// every line, moved to its sprite, and draws none anew.
pub proof fn law_steady_lines_are_kept<E>(lines: Seq<(E, ColliderLines)>, m: Map<Seq<char>, Sprite>)
    requires
        forall|l: Seq<char>| #[trigger] m.contains_key(l) ==> !m[l].collider_dirty,
        forall|i: int| 0 <= i < lines.len() ==> m.contains_key(#[trigger] lines[i].1.sprite_label@),
    ensures
        forall|i: int|
            0 <= i < lines.len() ==> #[trigger] line_action_for(lines, m, true, true, i)
                == LineAction::Refresh(lines[i].0, m[lines[i].1.sprite_label@].transform),
        forall|l: Seq<char>| !#[trigger] gets_lines(m, true, true, l),
{
    assert forall|i: int| 0 <= i < lines.len() implies #[trigger] line_action_for(
        lines,
        m,
        true,
        true,
        i,
    ) == LineAction::Refresh(lines[i].0, m[lines[i].1.sprite_label@].transform) by {
        assert(m.contains_key(lines[i].1.sprite_label@));
    }
}

/// The collider lines of a collider with `n >= 2` points are `n + 1` steps:
/// a move to the first point, a line to each other point in order, and the
/// line back that closes the outline.
pub proof fn law_collider_path_is_closed<P>(points: Seq<P>)
    requires
        points.len() >= 2,
    ensures
        closed_path(points).len() == points.len() + 1,
        closed_path(points)[0] == PathCommand::MoveTo(points[0]),
        forall|i: int|
            1 <= i < points.len() ==> #[trigger] closed_path(points)[i] == PathCommand::LineTo(
                points[i],
            ),
        closed_path(points)[points.len() as int] == PathCommand::<P>::Close,
{
}

/// `after` is what the world holds of collider lines once the plan `plan`
/// for the line entities `before` is carried out: each line entity of `after`
/// is one of `before` that the plan does not despawn, or lines the plan
/// draws anew for a sprite.
pub open spec fn lines_applied<E>(
    before: Seq<(E, ColliderLines)>,
    plan: ColliderPlan<E>,
    after: Seq<(E, ColliderLines)>,
) -> bool {
    forall|j: int|
        #![trigger after[j]]
        0 <= j < after.len() ==> (exists|i: int|
            0 <= i < before.len() && #[trigger] before[i] == after[j] && !(plan.lines@[i] is Despawn))
            || (exists|k: int|
            0 <= k < plan.spawns@.len() && (#[trigger] plan.spawns@[k]).sprite_label@
                == after[j].1.sprite_label@)
}

/// The value of `show_colliders` at the end of the frame before frame `k`;
/// a new engine starts with it off.
pub open spec fn shown_before(shows: Seq<bool>, k: int) -> bool {
    if k == 0 {
        false
    } else {
        shows[k - 1]
    }
}

/// No collider lines exist while they are hidden. Take a run of frames that
/// starts without collider lines, in which frame `k` finds the line entities
/// `lines[k]`, the sprites `sprites[k]` and `show_colliders == shows[k]`,
/// plans `plans[k]` as `Engine::plan_collider_lines` does, and leaves the
/// world holding what carrying out that plan leaves. Then a frame that starts
/// with the lines hidden finds none, and a frame that ends with them hidden
/// despawns every line entity and draws none, so that none is left.
pub proof fn law_no_collider_lines_while_hidden<E>(
    lines: Seq<Seq<(E, ColliderLines)>>,
    sprites: Seq<Map<Seq<char>, Sprite>>,
    shows: Seq<bool>,
    plans: Seq<ColliderPlan<E>>,
)
    requires
        lines.len() == sprites.len(),
        lines.len() == shows.len(),
        lines.len() == plans.len(),
        lines.len() > 0 ==> lines[0].len() == 0,
        forall|k: int|
            0 <= k < lines.len() ==> collider_plan_is(
                #[trigger] plans[k],
                lines[k],
                sprites[k],
                shows[k],
                shown_before(shows, k),
            ),
        forall|k: int|
            0 <= k < lines.len() - 1 ==> lines_applied(lines[k], plans[k], #[trigger] lines[k + 1]),
    ensures
        forall|k: int|
            0 <= k < lines.len() && !shown_before(shows, k) ==> (#[trigger] lines[k]).len() == 0,
        forall|k: int|
            0 <= k < lines.len() && !shows[k] ==> {
                &&& forall|i: int|
                    0 <= i < lines[k].len() ==> (#[trigger] plans[k].lines@[i]) is Despawn
                &&& plans[k].spawns@.len() == 0
                &&& forall|after: Seq<(E, ColliderLines)>|
                    #[trigger] lines_applied(lines[k], plans[k], after) ==> after.len() == 0
            },
{
    assert forall|k: int| 0 <= k < lines.len() implies (!shown_before(shows, k) ==> (
    #[trigger] lines[k]).len() == 0) && (!shows[k] ==> {
        &&& forall|i: int| 0 <= i < lines[k].len() ==> (#[trigger] plans[k].lines@[i]) is Despawn
        &&& plans[k].spawns@.len() == 0
        &&& forall|after: Seq<(E, ColliderLines)>|
            #[trigger] lines_applied(lines[k], plans[k], after) ==> after.len() == 0
    }) by {
        lemma_hidden_frames(lines, sprites, shows, plans, k);
    }
}

proof fn lemma_hidden_frame<E>(
    lines: Seq<(E, ColliderLines)>,
    m: Map<Seq<char>, Sprite>,
    last: bool,
    plan: ColliderPlan<E>,
)
    requires
        !last ==> lines.len() == 0,
        collider_plan_is(plan, lines, m, false, last),
    ensures
        forall|i: int| 0 <= i < lines.len() ==> (#[trigger] plan.lines@[i]) is Despawn,
        plan.spawns@.len() == 0,
        forall|after: Seq<(E, ColliderLines)>|
            #[trigger] lines_applied(lines, plan, after) ==> after.len() == 0,
{
    assert forall|i: int| 0 <= i < lines.len() implies (#[trigger] plan.lines@[i]) is Despawn by {
        assert(plan.lines@[i] == line_action_for(lines, m, false, last, i));
    }
    if plan.spawns@.len() > 0 {
        assert(gets_lines(m, false, last, plan.spawns@[0].sprite_label@));
    }
    assert forall|after: Seq<(E, ColliderLines)>|
        #[trigger] lines_applied(lines, plan, after) implies after.len() == 0 by {
        if after.len() > 0 {
            let first = after[0];
            assert((exists|i: int|
                0 <= i < lines.len() && #[trigger] lines[i] == first && !(plan.lines@[i] is Despawn))
                || (exists|k: int|
                0 <= k < plan.spawns@.len() && (#[trigger] plan.spawns@[k]).sprite_label@
                    == first.1.sprite_label@));
            if exists|i: int|
                0 <= i < lines.len() && #[trigger] lines[i] == after[0] && !(plan.lines@[i] is Despawn) {
                let i = choose|i: int|
                    0 <= i < lines.len() && #[trigger] lines[i] == after[0] && !(
                    plan.lines@[i] is Despawn);
                assert(plan.lines@[i] is Despawn);
            }
        }
    }
}

proof fn lemma_hidden_frames<E>(
    lines: Seq<Seq<(E, ColliderLines)>>,
    sprites: Seq<Map<Seq<char>, Sprite>>,
    shows: Seq<bool>,
    plans: Seq<ColliderPlan<E>>,
    k: int,
)
    requires
        0 <= k < lines.len(),
        lines.len() == sprites.len(),
        lines.len() == shows.len(),
        lines.len() == plans.len(),
        lines[0].len() == 0,
        forall|j: int|
            0 <= j < lines.len() ==> collider_plan_is(
                #[trigger] plans[j],
                lines[j],
                sprites[j],
                shows[j],
                shown_before(shows, j),
            ),
        forall|j: int|
            0 <= j < lines.len() - 1 ==> lines_applied(lines[j], plans[j], #[trigger] lines[j + 1]),
    ensures
        !shown_before(shows, k) ==> lines[k].len() == 0,
        !shows[k] ==> {
            &&& forall|i: int| 0 <= i < lines[k].len() ==> (#[trigger] plans[k].lines@[i]) is Despawn
            &&& plans[k].spawns@.len() == 0
            &&& forall|after: Seq<(E, ColliderLines)>|
                #[trigger] lines_applied(lines[k], plans[k], after) ==> after.len() == 0
        },
    decreases k,
{
    let last = shown_before(shows, k);
    if k > 0 {
        lemma_hidden_frames(lines, sprites, shows, plans, k - 1);
        if !last {
            assert(!shows[k - 1]);
            assert(lines_applied(lines[k - 1], plans[k - 1], lines[(k - 1) + 1]));
        }
    }
    assert(collider_plan_is(plans[k], lines[k], sprites[k], shows[k], last));
    if !shows[k] {
        lemma_hidden_frame(lines[k], sprites[k], last, plans[k]);
    }
}

/// Collider lines are drawn on their sprite: every set of lines that a frame
/// draws belongs to a sprite of the engine, outlines that sprite's collider,
/// and stands at that sprite's transform.
pub proof fn law_collider_lines_drawn_on_their_sprite<E>(
    plan: ColliderPlan<E>,
    lines: Seq<(E, ColliderLines)>,
    m: Map<Seq<char>, Sprite>,
    show: bool,
    last_show: bool,
)
    requires
        collider_plan_is(plan, lines, m, show, last_show),
    ensures
        forall|k: int|
            0 <= k < plan.spawns@.len() ==> {
                let l = (#[trigger] plan.spawns@[k]).sprite_label@;
                &&& m.contains_key(l)
                &&& m[l].collider@.len() >= 2
                &&& plan.spawns@[k].transform == m[l].transform
                &&& plan.spawns@[k].path@.len() == m[l].collider@.len() + 1
                &&& plan.spawns@[k].path@[0] == PathCommand::MoveTo(m[l].collider@[0])
            },
        forall|i: int|
            0 <= i < lines.len() ==> match #[trigger] plan.lines@[i] {
                LineAction::Refresh(e, t) => {
                    &&& e == lines[i].0
                    &&& m.contains_key(lines[i].1.sprite_label@)
                    &&& t == m[lines[i].1.sprite_label@].transform
                },
                LineAction::Despawn(e) => e == lines[i].0,
                LineAction::Leave(e) => e == lines[i].0,
            },
{
    assert forall|i: int| 0 <= i < lines.len() implies match #[trigger] plan.lines@[i] {
        LineAction::Refresh(e, t) => {
            &&& e == lines[i].0
            &&& m.contains_key(lines[i].1.sprite_label@)
            &&& t == m[lines[i].1.sprite_label@].transform
        },
        LineAction::Despawn(e) => e == lines[i].0,
        LineAction::Leave(e) => e == lines[i].0,
    } by {
        assert(plan.lines@[i] == line_action_for(lines, m, show, last_show, i));
    }
    assert forall|k: int| 0 <= k < plan.spawns@.len() implies {
        let l = (#[trigger] plan.spawns@[k]).sprite_label@;
        &&& m.contains_key(l)
        &&& m[l].collider@.len() >= 2
        &&& plan.spawns@[k].transform == m[l].transform
        &&& plan.spawns@[k].path@.len() == m[l].collider@.len() + 1
        &&& plan.spawns@[k].path@[0] == PathCommand::MoveTo(m[l].collider@[0])
    } by {
        let l = plan.spawns@[k].sprite_label@;
        law_collider_path_is_closed(m[l].collider@);
    }
}

/// Drawing the collider lines changes nothing of a sprite but its dirty mark:
/// the same sprites stay, each with its label, image, transform, collision
/// flag and collider; while the lines are shown every collider is clean, and
/// while they are hidden the mark is kept.
pub proof fn law_drawing_lines_changes_only_dirty(m: Map<Seq<char>, Sprite>, show: bool)
    ensures
        cleaned(m, show).dom() == m.dom(),
        forall|l: Seq<char>|
            #[trigger] m.contains_key(l) ==> {
                let after = cleaned(m, show)[l];
                &&& after.label == m[l].label
                &&& after.filepath == m[l].filepath
                &&& after.transform == m[l].transform
                &&& after.collision == m[l].collision
                &&& after.collider == m[l].collider
                &&& after.collider_dirty == (m[l].collider_dirty && !show)
            },
{
}

/// The sprites written back at the end of a frame are those the logic left,
/// changed at most in their dirty mark: an entity that takes a sprite takes
/// the engine's sprite under its label with the same label, image,
/// transform, collision flag and collider.
pub proof fn law_written_sprites_keep_their_fields<E>(
    world: Seq<(E, String)>,
    m: Map<Seq<char>, Sprite>,
    show: bool,
)
    ensures
        forall|i: int|
            0 <= i < world.len() ==> match #[trigger] sync_action_for(world, cleaned(m, show), i) {
                SyncAction::Write(e, s) => {
                    let before = m[world[i].1@];
                    &&& e == world[i].0
                    &&& m.contains_key(world[i].1@)
                    &&& s.label == before.label
                    &&& s.filepath == before.filepath
                    &&& s.transform == before.transform
                    &&& s.collision == before.collision
                    &&& s.collider == before.collider
                    &&& s.collider_dirty == (before.collider_dirty && !show)
                },
                SyncAction::Despawn(e) => e == world[i].0,
            },
{
    law_drawing_lines_changes_only_dirty(m, show);
}

} // verus!
