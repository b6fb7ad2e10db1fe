//! The `Engine`: the state that a game's logic reads and changes each frame.
use crate::items::{default_font, identity, CollisionEvent, Labeled, Sprite, SvgSprite, Text, DEFAULT_FONT_SIZE};
use crate::label_map::{
    contents, map_clear, map_get, map_get_mut, map_insert, new_label_map, LabelMap,
};
use bevy::math::Vec2;
use std::time::Duration;
use vstd::prelude::*;

verus! {

/// `Duration::ZERO`.
#[verifier::external_body]
fn zero_duration() -> Duration {
    Duration::ZERO
}

/// `Vec2::ZERO`.
#[verifier::external_body]
fn zero_vec2() -> Vec2 {
    Vec2::ZERO
}

/// What a list of items holds once it is put into a label map in order: each
/// label maps to the last item that carries it.
pub open spec fn loaded<V: Labeled>(items: Seq<V>) -> Map<Seq<char>, V>
    decreases items.len(),
{
    if items.len() == 0 {
        Map::empty()
    } else {
        let rest = loaded(items.drop_first());
        if rest.contains_key(items[0].spec_label()) {
            rest
        } else {
            rest.insert(items[0].spec_label(), items[0])
        }
    }
}

/// The last index of `items` whose item carries the label `l`.
pub open spec fn last_index<V: Labeled>(items: Seq<V>, l: Seq<char>) -> int {
    choose|i: int|
        0 <= i < items.len() && items[i].spec_label() == l && forall|j: int|
            i < j < items.len() ==> items[j].spec_label() != l
}

/// `loaded(items)` holds exactly the labels of the items, each with the last
/// item that carries it.
pub proof fn lemma_loaded<V: Labeled>(items: Seq<V>)
    ensures
        forall|l: Seq<char>|
            #[trigger] loaded(items).contains_key(l) <==> exists|i: int|
                0 <= i < items.len() && items[i].spec_label() == l,
        forall|l: Seq<char>|
            #[trigger] loaded(items).contains_key(l) ==> {
                let i = last_index(items, l);
                &&& 0 <= i < items.len()
                &&& items[i].spec_label() == l
                &&& forall|j: int| i < j < items.len() ==> items[j].spec_label() != l
                &&& loaded(items)[l] == items[i]
            },
    decreases items.len(),
{
    if items.len() > 0 {
        let rest = items.drop_first();
        lemma_loaded(rest);
        assert forall|l: Seq<char>|
            #[trigger] loaded(items).contains_key(l) <==> exists|i: int|
                0 <= i < items.len() && items[i].spec_label() == l by {
            if loaded(items).contains_key(l) && l != items[0].spec_label() {
                assert(loaded(rest).contains_key(l));
                let k = choose|k: int| 0 <= k < rest.len() && rest[k].spec_label() == l;
                assert(items[k + 1] == rest[k]);
            }
            if exists|i: int| 0 <= i < items.len() && items[i].spec_label() == l {
                let i = choose|i: int| 0 <= i < items.len() && items[i].spec_label() == l;
                if i > 0 {
                    assert(rest[i - 1] == items[i]);
                    assert(loaded(rest).contains_key(l));
                }
            }
        }
        assert forall|l: Seq<char>| #[trigger] loaded(items).contains_key(l) implies {
            let i = last_index(items, l);
            &&& 0 <= i < items.len()
            &&& items[i].spec_label() == l
            &&& forall|j: int| i < j < items.len() ==> items[j].spec_label() != l
            &&& loaded(items)[l] == items[i]
        } by {
            if loaded(rest).contains_key(l) {
                let k = last_index(rest, l);
                assert(items[k + 1] == rest[k]);
                assert forall|j: int| k + 1 < j < items.len() implies items[j].spec_label()
                    != l by {
                    assert(items[j] == rest[j - 1]);
                }
                assert(0 <= k + 1 < items.len() && items[k + 1].spec_label() == l && forall|
                    j: int,
                | k + 1 < j < items.len() ==> items[j].spec_label() != l);
                let i = last_index(items, l);
                if i != k + 1 {
                    if i < k + 1 {
                    } else {
                        assert(rest[i - 1] == items[i]);
                    }
                }
            } else {
                assert(l == items[0].spec_label());
                assert forall|j: int| 0 < j < items.len() implies items[j].spec_label() != l by {
                    assert(items[j] == rest[j - 1]);
                    if items[j].spec_label() == l {
                        assert(exists|i: int| 0 <= i < rest.len() && rest[i].spec_label() == l);
                    }
                }
                assert(0 <= 0 < items.len() && items[0].spec_label() == l && forall|j: int|
                    0 < j < items.len() ==> items[j].spec_label() != l);
                let i = last_index(items, l);
                if i != 0 {
                    assert(items[i].spec_label() == l);
                }
            }
        }
    }
}

/// Empties `map` and puts `items` into it, each under its label; where two
/// items carry one label, the later one stays.
pub fn load_items<V: Labeled>(map: &mut LabelMap<V>, items: Vec<V>)
    ensures
        contents(final(map)) == loaded(items@),
{
    map_clear(map);
    let mut items = items;
    let ghost all = items@;
    while items.len() > 0
        invariant
            all.subrange(0, items@.len() as int) == items@,
            items@.len() <= all.len(),
            contents(map) == loaded(all.subrange(items@.len() as int, all.len() as int)),
        decreases items@.len(),
    {
        let ghost k = items@.len() - 1;
        let item = items.pop().unwrap();
        proof {
            let suffix = all.subrange(k, all.len() as int);
            assert(suffix.drop_first() =~= all.subrange(k + 1, all.len() as int));
            assert(suffix[0] == item);
            assert(all.subrange(0, k) =~= items@);
        }
        let label = item.label().clone();
        let present = map_get(map, &label).is_some();
        if !present {
            map_insert(map, label, item);
        }
    }
    proof {
        assert(all.subrange(0, all.len() as int) =~= all);
    }
}

/// The engine: the state of the game that the game's logic reads and changes
/// each frame.
///
/// The sprites, SVG sprites and texts, `should_exit` and `show_colliders` are
/// shared with the world: each frame the engine is filled from the world, the
/// logic runs, and what the logic left is brought back into the world. The
/// collision events, the frame's timing and the window's size are filled
/// anew each frame, and what the logic does to them is dropped.
pub struct Engine {
    /// The sprites, by label.
    pub sprites: LabelMap<Sprite>,
    /// The SVG sprites, by label.
    pub svg_sprites: LabelMap<SvgSprite>,
    /// The texts, by label.
    pub texts: LabelMap<Text>,
    /// When set, the game exits once the current frame has run.
    pub should_exit: bool,
    /// When set, the collider of each sprite is drawn as white lines.
    pub show_colliders: bool,
    /// The value of `show_colliders` at the end of the previous frame, by
    /// which the engine sees that the logic turned the collider lines on or
    /// off. The engine keeps it; the logic has no reason to change it.
    pub last_show_colliders: bool,
    /// The collisions that began or ended in this frame.
    pub collision_events: Vec<CollisionEvent>,
    /// The time between the previous frame and this one.
    pub delta: Duration,
    /// The time since the game started.
    pub time_since_startup: Duration,
    /// The window's size, in logical pixels.
    pub window_dimensions: Vec2,
}

impl Engine {
    /// A new engine: no sprites, SVG sprites, texts or collision events, and
    /// all flags off.
    pub fn new() -> (engine: Engine)
        ensures
            contents(&engine.sprites).is_empty(),
            contents(&engine.svg_sprites).is_empty(),
            contents(&engine.texts).is_empty(),
            !engine.should_exit,
            !engine.show_colliders,
            !engine.last_show_colliders,
            engine.collision_events@ == Seq::<CollisionEvent>::empty(),
    {
        Engine {
            sprites: new_label_map(),
            svg_sprites: new_label_map(),
            texts: new_label_map(),
            should_exit: false,
            show_colliders: false,
            last_show_colliders: false,
            collision_events: Vec::new(),
            delta: zero_duration(),
            time_since_startup: zero_duration(),
            window_dimensions: zero_vec2(),
        }
    }

    /// Adds a sprite with the given label and image file, and returns it so
    /// that its transform and so on can be set. `collider` holds the points
    /// read from the image's `.collider` file (none when there is no such
    /// file). Labels are unique: adding two sprites with the same label
    /// crashes the game, so a label already in use is ruled out.
    pub fn add_sprite(
        &mut self,
        label: String,
        file_or_preset: String,
        collider: Vec<Vec2>,
    ) -> (sprite: &mut Sprite)
        requires
            !contents(&old(self).sprites).contains_key(label@),
        ensures
            sprite.label == label,
            sprite.filepath == file_or_preset,
            !sprite.collision,
            sprite.collider == collider,
            sprite.collider_dirty,
            sprite.transform == identity(),
            contents(&final(self).sprites) == contents(&old(self).sprites).insert(
                label@,
                *final(sprite),
            ),
            contents(&old(self).sprites).dom().finite(),
            contents(&final(self).sprites).len() == contents(&old(self).sprites).len() + 1,
            final(self).svg_sprites == old(self).svg_sprites,
            final(self).texts == old(self).texts,
            final(self).should_exit == old(self).should_exit,
            final(self).show_colliders == old(self).show_colliders,
            final(self).delta == old(self).delta,
            final(self).time_since_startup == old(self).time_since_startup,
            final(self).window_dimensions == old(self).window_dimensions,
            final(self).last_show_colliders == old(self).last_show_colliders,
            final(self).collision_events == old(self).collision_events,
    {
        let key = label.clone();
        map_insert(&mut self.sprites, key, Sprite::new(label.clone(), file_or_preset, collider));
        map_get_mut(&mut self.sprites, &label)
    }
    /// Adds an SVG sprite with the given label and SVG file, and returns it so
    /// that its transform can be set. An SVG sprite already under the label is
    /// replaced.
    pub fn add_svg_sprite(&mut self, label: String, file_or_preset: String) -> (svg_sprite:
        &mut SvgSprite)
        ensures
            svg_sprite.label == label,
            svg_sprite.filepath == file_or_preset,
            svg_sprite.transform == identity(),
            contents(&final(self).svg_sprites) == contents(&old(self).svg_sprites).insert(
                label@,
                *final(svg_sprite),
            ),
            contents(&old(self).svg_sprites).dom().finite(),
            contents(&final(self).svg_sprites).len() == contents(&old(self).svg_sprites).len() + (
            if contents(&old(self).svg_sprites).contains_key(label@) {
                0int
            } else {
                1int
            }),
            final(self).sprites == old(self).sprites,
            final(self).texts == old(self).texts,
            final(self).should_exit == old(self).should_exit,
            final(self).show_colliders == old(self).show_colliders,
            final(self).delta == old(self).delta,
            final(self).time_since_startup == old(self).time_since_startup,
            final(self).window_dimensions == old(self).window_dimensions,
            final(self).last_show_colliders == old(self).last_show_colliders,
            final(self).collision_events == old(self).collision_events,
    {
        let key = label.clone();
        map_insert(&mut self.svg_sprites, key, SvgSprite::new(label.clone(), file_or_preset));
        map_get_mut(&mut self.svg_sprites, &label)
    }

    /// Adds a text with the given label and value, in the default font and
    /// size, and returns it so that its transform, font and so on can be set.
    /// Labels are unique: adding two texts with the same label crashes the
    /// game, so a label already in use is ruled out.
    pub fn add_text(&mut self, label: String, text: String) -> (added: &mut Text)
        requires
            !contents(&old(self).texts).contains_key(label@),
        ensures
            added.label == label,
            added.value == text,
            added.font@ == default_font(),
            added.font_size == DEFAULT_FONT_SIZE,
            added.transform == identity(),
            contents(&final(self).texts) == contents(&old(self).texts).insert(
                label@,
                *final(added),
            ),
            contents(&old(self).texts).dom().finite(),
            contents(&final(self).texts).len() == contents(&old(self).texts).len() + 1,
            final(self).sprites == old(self).sprites,
            final(self).svg_sprites == old(self).svg_sprites,
            final(self).should_exit == old(self).should_exit,
            final(self).show_colliders == old(self).show_colliders,
            final(self).delta == old(self).delta,
            final(self).time_since_startup == old(self).time_since_startup,
            final(self).window_dimensions == old(self).window_dimensions,
            final(self).last_show_colliders == old(self).last_show_colliders,
            final(self).collision_events == old(self).collision_events,
    {
        let key = label.clone();
        map_insert(&mut self.texts, key, Text::new(label.clone(), text));
        map_get_mut(&mut self.texts, &label)
    }

    /// Fills the engine from the world at the start of a frame: the
    /// collision events of this frame replace those of the last one, and the
    /// sprites, SVG sprites and texts are those that the world holds, each
    /// under its label.
    pub fn load_frame(
        &mut self,
        collision_events: Vec<CollisionEvent>,
        sprites: Vec<Sprite>,
        svg_sprites: Vec<SvgSprite>,
        texts: Vec<Text>,
    )
        ensures
            final(self).collision_events@ == collision_events@,
            contents(&final(self).sprites) == loaded(sprites@),
            contents(&final(self).svg_sprites) == loaded(svg_sprites@),
            contents(&final(self).texts) == loaded(texts@),
            final(self).should_exit == old(self).should_exit,
            final(self).show_colliders == old(self).show_colliders,
            final(self).delta == old(self).delta,
            final(self).time_since_startup == old(self).time_since_startup,
            final(self).window_dimensions == old(self).window_dimensions,
            final(self).last_show_colliders == old(self).last_show_colliders,
    {
        self.collision_events = collision_events;
        load_items(&mut self.sprites, sprites);
        load_items(&mut self.svg_sprites, svg_sprites);
        load_items(&mut self.texts, texts);
    }
}

impl Default for Engine {
    /// The same as `Engine::new`.
    fn default() -> (engine: Engine)
        ensures
            contents(&engine.sprites).is_empty(),
            contents(&engine.svg_sprites).is_empty(),
            contents(&engine.texts).is_empty(),
            !engine.should_exit,
            !engine.show_colliders,
            !engine.last_show_colliders,
            engine.collision_events@ == Seq::<CollisionEvent>::empty(),
    {
        Engine::new()
    }
}

} // verus!
