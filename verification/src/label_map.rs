//! The engine keeps its sprites, SVG sprites and texts in Bevy's `HashMap`
//! (`bevy::utils::HashMap`, a `std::collections::HashMap` with aHash's
//! `RandomState`), keyed by label. The functions here are the only places
//! that call the map; each one states, over `labels_of`, what the call does
//! to the map's contents. A `HashMap` holds finitely many entries, so its
//! contents have a finite domain.
use vstd::prelude::*;

verus! {

/// A map from labels to items, as the engine stores it.
pub type LabelMap<V> = bevy::utils::HashMap<String, V>;

/// The contents of a label map, keyed by the text of each label.
///
/// `m` is vstd's view of the `HashMap`; two `String` keys with the same text
/// are one key of the `HashMap`, so the contents are keyed by `s@`.
#[verifier::opaque]
pub open spec fn labels_of<V>(m: Map<String, V>) -> Map<Seq<char>, V> {
    Map::new(
        |l: Seq<char>| exists|s: String| m.contains_key(s) && s@ == l,
        |l: Seq<char>| m[choose|s: String| m.contains_key(s) && s@ == l],
    )
}

/// The contents of a label map, keyed by the text of each label.
pub open spec fn contents<V>(m: &LabelMap<V>) -> Map<Seq<char>, V> {
    labels_of(m@)
}

/// An empty `HashMap` has empty contents.
pub proof fn lemma_empty_contents<V>(m: Map<String, V>)
    requires
        m == Map::<String, V>::empty(),
    ensures
        labels_of(m) == Map::<Seq<char>, V>::empty(),
{
    reveal(labels_of);
    assert(labels_of(m) =~= Map::<Seq<char>, V>::empty());
}

/// A new, empty label map.
pub fn new_label_map<V>() -> (m: LabelMap<V>)
    ensures
        contents(&m) == Map::<Seq<char>, V>::empty(),
{
    let m: LabelMap<V> = LabelMap::<V>::default();
    proof {
        lemma_empty_contents(m@);
    }
    m
}

/// `HashMap::insert`: the label now maps to `item`; the item that was under
/// the label before, if any, is returned.
#[verifier::external_body]
pub fn map_insert<V>(m: &mut LabelMap<V>, label: String, item: V) -> (previous: Option<V>)
    ensures
        contents(old(m)).dom().finite(),
        contents(final(m)) == contents(old(m)).insert(label@, item),
        previous == (if contents(old(m)).contains_key(label@) {
            Some(contents(old(m))[label@])
        } else {
            None::<V>
        }),
{
    m.insert(label, item)
}

/// `HashMap::get`: the item under the label, if any; the map is unchanged.
#[verifier::external_body]
pub fn map_get<'a, V>(m: &'a LabelMap<V>, label: &String) -> (item: Option<&'a V>)
    ensures
        item == (if contents(m).contains_key(label@) {
            Some(&contents(m)[label@])
        } else {
            None::<&V>
        }),
{
    m.get(label)
}

/// `HashMap::get_mut` on a label that is present: a mutable reference to its
/// item; what is written through it is what the map holds under the label.
#[verifier::external_body]
pub fn map_get_mut<'a, V>(m: &'a mut LabelMap<V>, label: &String) -> (item: &'a mut V)
    requires
        contents(old(m)).contains_key(label@),
    ensures
        contents(old(m)).dom().finite(),
        *item == contents(old(m))[label@],
        contents(final(m)) == contents(old(m)).insert(label@, *final(item)),
{
    m.get_mut(label).unwrap()
}

/// `HashMap::remove`: takes the item under the label out of the map.
#[verifier::external_body]
pub fn map_remove<V>(m: &mut LabelMap<V>, label: &String) -> (item: Option<V>)
    ensures
        contents(old(m)).dom().finite(),
        contents(final(m)) == contents(old(m)).remove(label@),
        item == (if contents(old(m)).contains_key(label@) {
            Some(contents(old(m))[label@])
        } else {
            None::<V>
        }),
{
    m.remove(label)
}

/// `HashMap::clear`: the map is empty afterwards.
#[verifier::external_body]
pub fn map_clear<V>(m: &mut LabelMap<V>)
    ensures
        contents(final(m)).is_empty(),
{
    m.clear()
}

/// `HashMap::keys`, cloned: every label of the map once, in the map's own
/// (unspecified) order.
#[verifier::external_body]
pub fn map_labels<V>(m: &LabelMap<V>) -> (labels: Vec<String>)
    ensures
        labels@.len() == contents(m).len(),
        forall|i: int| 0 <= i < labels@.len() ==> contents(m).contains_key(#[trigger] labels@[i]@),
        forall|i: int, j: int|
            0 <= i < labels@.len() && 0 <= j < labels@.len() && i != j ==> labels@[i]@
                != labels@[j]@,
        forall|l: Seq<char>|
            #[trigger] contents(m).contains_key(l) ==> exists|i: int|
                0 <= i < labels@.len() && labels@[i]@ == l,
{
    m.keys().cloned().collect()
}

/// `HashMap::drain`: every entry of the map once, in the map's own
/// (unspecified) order; the map is empty afterwards.
#[verifier::external_body]
pub fn map_drain<V>(m: &mut LabelMap<V>) -> (entries: Vec<(String, V)>)
    ensures
        contents(final(m)).is_empty(),
        entries@.len() == contents(old(m)).len(),
        forall|i: int|
            0 <= i < entries@.len() ==> contents(old(m)).contains_key(#[trigger] entries@[i].0@)
                && contents(old(m))[entries@[i].0@] == entries@[i].1,
        forall|i: int, j: int|
            0 <= i < entries@.len() && 0 <= j < entries@.len() && i != j ==> entries@[i].0@
                != entries@[j].0@,
        forall|l: Seq<char>|
            #[trigger] contents(old(m)).contains_key(l) ==> exists|i: int|
                0 <= i < entries@.len() && entries@[i].0@ == l,
{
    m.drain().collect()
}

} // verus!
