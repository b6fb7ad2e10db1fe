//! The items that a game places in the world: sprites, SVG sprites and texts,
//! each found by its label, and the collision events between sprites.
use bevy::math::Vec2;
use bevy::transform::components::Transform;
use vstd::prelude::*;

verus! {

/// Bevy's identity transform: no translation, no rotation, unit scale. The
/// library never looks inside a transform; what it needs is that the identity
/// is one fixed value, the one that `identity_transform` returns.
pub open spec fn identity() -> Transform {
    vstd::pervasive::arbitrary()
}

/// Bevy's identity `Transform` (`Transform::identity`, a `const fn` without
/// arguments, so every call gives the same value: `identity()`).
#[verifier::external_body]
pub fn identity_transform() -> (t: Transform)
    ensures
        t == identity(),
{
    Transform::identity()
}

/// An item that carries a label, by which the engine finds it.
pub trait Labeled {
    /// The text of the item's label.
    spec fn spec_label(&self) -> Seq<char>;

    /// The item's label.
    fn label(&self) -> (label: &String)
        ensures
            label@ == self.spec_label(),
    ;
}

/// A sprite: an image placed in the world.
#[derive(Debug)]
pub struct Sprite {
    /// The unique label of the sprite.
    pub label: String,
    /// The image file, relative to `assets/sprite`.
    pub filepath: String,
    /// Where the sprite stands: translation (with the layer as `z`), rotation and scale.
    pub transform: Transform,
    /// Whether the sprite takes part in collision detection.
    pub collision: bool,
    /// The points of the sprite's collider polygon; empty when it has none.
    pub collider: Vec<Vec2>,
    /// Set when the collider has changed and its lines must be drawn again.
    pub collider_dirty: bool,
}

impl Labeled for Sprite {
    open spec fn spec_label(&self) -> Seq<char> {
        self.label@
    }

    fn label(&self) -> (label: &String) {
        &self.label
    }
}

/// A copy of a list of points.
fn copy_points(points: &Vec<Vec2>) -> (copy: Vec<Vec2>)
    ensures
        copy@ == points@,
{
    let mut copy: Vec<Vec2> = Vec::new();
    let mut i: usize = 0;
    while i < points.len()
        invariant
            i <= points@.len(),
            copy@ == points@.take(i as int),
        decreases points@.len() - i,
    {
        copy.push(points[i]);
        proof {
            assert(points@.take(i + 1) =~= points@.take(i as int).push(points@[i as int]));
        }
        i = i + 1;
    }
    proof {
        assert(points@.take(points@.len() as int) =~= points@);
    }
    copy
}

impl Clone for Sprite {
    /// A sprite with the same fields; the collider holds the same points.
    fn clone(&self) -> (copy: Sprite)
        ensures
            copy.label == self.label,
            copy.filepath == self.filepath,
            copy.transform == self.transform,
            copy.collision == self.collision,
            copy.collider@ == self.collider@,
            copy.collider_dirty == self.collider_dirty,
    {
        Sprite {
            label: self.label.clone(),
            filepath: self.filepath.clone(),
            transform: self.transform,
            collision: self.collision,
            collider: copy_points(&self.collider),
            collider_dirty: self.collider_dirty,
        }
    }
}

impl Sprite {
    /// A sprite with the given label and image file, at the identity
    /// transform, with collision off and the given collider: the points read
    /// from the image's `.collider` file, or none when there is no such file.
    /// Its collider is marked dirty, so that its lines are drawn.
    pub fn new(label: String, filepath: String, collider: Vec<Vec2>) -> (sprite: Sprite)
        ensures
            sprite.label == label,
            sprite.filepath == filepath,
            !sprite.collision,
            sprite.collider == collider,
            sprite.collider_dirty,
            sprite.transform == identity(),
    {
        Sprite {
            label,
            filepath,
            transform: identity_transform(),
            collision: false,
            collider,
            collider_dirty: true,
        }
    }
}

/// A sprite drawn from an SVG file.
#[derive(Debug)]
pub struct SvgSprite {
    /// The unique label of the SVG sprite.
    pub label: String,
    /// The SVG file, relative to `assets/svg`.
    pub filepath: String,
    /// Where the SVG sprite stands.
    pub transform: Transform,
}

impl Labeled for SvgSprite {
    open spec fn spec_label(&self) -> Seq<char> {
        self.label@
    }

    fn label(&self) -> (label: &String) {
        &self.label
    }
}

impl Clone for SvgSprite {
    /// The same SVG sprite.
    fn clone(&self) -> (copy: SvgSprite)
        ensures
            copy == *self,
    {
        SvgSprite {
            label: self.label.clone(),
            filepath: self.filepath.clone(),
            transform: self.transform,
        }
    }
}

impl SvgSprite {
    /// An SVG sprite with the given label and file, at the identity transform.
    pub fn new(label: String, filepath: String) -> (svg_sprite: SvgSprite)
        ensures
            svg_sprite.label == label,
            svg_sprite.filepath == filepath,
            svg_sprite.transform == identity(),
    {
        SvgSprite { label, filepath, transform: identity_transform() }
    }
}

/// The font that a text uses unless told otherwise, relative to `assets/font`.
pub open spec fn default_font() -> Seq<char> {
    "FiraSans-Bold.ttf"@
}

/// The font size that a text uses unless told otherwise.
pub const DEFAULT_FONT_SIZE: u32 = 30;

/// A text placed in the world.
#[derive(Debug)]
pub struct Text {
    /// The unique label of the text.
    pub label: String,
    /// The string that is shown.
    pub value: String,
    /// The font file, relative to `assets/font`.
    pub font: String,
    /// The font size, in logical pixels.
    pub font_size: u32,
    /// Where the text stands.
    pub transform: Transform,
}

impl Labeled for Text {
    open spec fn spec_label(&self) -> Seq<char> {
        self.label@
    }

    fn label(&self) -> (label: &String) {
        &self.label
    }
}

impl Clone for Text {
    /// The same text.
    fn clone(&self) -> (copy: Text)
        ensures
            copy == *self,
    {
        Text {
            label: self.label.clone(),
            value: self.value.clone(),
            font: self.font.clone(),
            font_size: self.font_size,
            transform: self.transform,
        }
    }
}

impl Text {
    /// A text with the given label and value, in the default font and size,
    /// at the identity transform.
    pub fn new(label: String, value: String) -> (text: Text)
        ensures
            text.label == label,
            text.value == value,
            text.font@ == default_font(),
            text.font_size == DEFAULT_FONT_SIZE,
            text.transform == identity(),
    {
        let font = String::from_str("FiraSans-Bold.ttf");
        proof {
            reveal_strlit("FiraSans-Bold.ttf");
        }
        Text { label, value, font, font_size: DEFAULT_FONT_SIZE, transform: identity_transform() }
    }
}

/// Whether two sprites began or ended overlapping.
#[derive(Clone, Copy, Debug, PartialEq, Eq, Structural)]
pub enum CollisionState {
    Begin,
    End,
}

/// The labels of the two sprites of a collision.
#[derive(Clone, Debug)]
pub struct CollisionPair(pub String, pub String);

/// A collision between two sprites, reported in the frame in which it began
/// or ended.
#[derive(Clone, Debug)]
pub struct CollisionEvent {
    pub state: CollisionState,
    pub pair: CollisionPair,
}

/// A marker of the entity that draws a sprite's collider lines: the label of
/// the sprite that the lines belong to.
#[derive(Clone, Debug)]
pub struct ColliderLines {
    pub sprite_label: String,
}

} // verus!
