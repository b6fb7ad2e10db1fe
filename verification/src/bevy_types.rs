//! The Bevy types that the library's items hold. Verus sees none of their
//! fields: a sprite's transform, a collider point and the window size are
//! carried through the library, never read by it.
use vstd::prelude::*;

verus! {

/// Bevy's `Transform` (translation, rotation and scale of an entity).
#[verifier::external_type_specification]
#[verifier::external_body]
pub struct ExTransform(bevy::transform::components::Transform);

/// glam's `Vec2`, re-exported by Bevy.
#[verifier::external_type_specification]
#[verifier::external_body]
pub struct ExVec2(bevy::math::Vec2);

/// aHash's `RandomState`, the hasher of Bevy's `HashMap`.
#[verifier::external_type_specification]
#[verifier::external_body]
pub struct ExHashState(ahash::RandomState);

} // verus!
