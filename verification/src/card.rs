//! The card record and its mathematical model.

use vstd::prelude::*;

verus! {

/// The bits of a card identifier that say how it was made: the version
/// nibble and the two variant bits of a UUID.
pub const ID_KIND_MASK: u128 = 0x0000_0000_0000_f000_c000_0000_0000_0000;

/// The value of those bits in a random (version 4) UUID of the standard
/// variant.
pub const ID_KIND_RANDOM: u128 = 0x0000_0000_0000_4000_8000_0000_0000_0000;

/// Whether `id` is the 128-bit value of a random (version 4) UUID.
pub open spec fn is_random_id(id: u128) -> bool {
    id & ID_KIND_MASK == ID_KIND_RANDOM
}

/// Draws a new identifier from `uuid::Uuid::new_v4` and hands it out as the
/// 128-bit number that `Uuid::as_u128` gives.
///
/// Trusted: the value is random, and only the version and variant bits that
/// `new_v4` sets are claimed of it. `new_v4` panics where the system has no
/// random bytes to give.
#[verifier::external_body]
pub(crate) fn fresh_id() -> (id: u128)
    ensures
        is_random_id(id),
{
    uuid::Uuid::new_v4().as_u128()
}

/// A bookmark-like record.
#[derive(Debug, PartialEq, Eq)]
pub struct Card {
    /// The card's UUID as a 128-bit number, most significant byte first.
    pub id: u128,
    pub name: String,
    pub description: String,
    pub url: String,
    pub tags: Vec<String>,
    pub folders: Vec<String>,
}

/// What a [`Card`] holds, as plain values.
pub struct CardView {
    pub id: u128,
    pub name: Seq<char>,
    pub description: Seq<char>,
    pub url: Seq<char>,
    pub tags: Seq<Seq<char>>,
    pub folders: Seq<Seq<char>>,
}

impl View for Card {
    type V = CardView;

    open spec fn view(&self) -> CardView {
        CardView {
            id: self.id,
            name: self.name@,
            description: self.description@,
            url: self.url@,
            tags: self.tags.deep_view(),
            folders: self.folders.deep_view(),
        }
    }
}

impl DeepView for Card {
    type V = CardView;

    open spec fn deep_view(&self) -> CardView {
        self@
    }
}

/// Copies a list of strings.
pub fn clone_strings(v: &Vec<String>) -> (w: Vec<String>)
    ensures
        w.deep_view() == v.deep_view(),
{
    let mut w: Vec<String> = Vec::new();
    let mut i: usize = 0;
    while i < v.len()
        invariant
            i <= v.len(),
            w.len() == i,
            forall|j: int| 0 <= j < i ==> w[j]@ == v[j]@,
        decreases v.len() - i,
    {
        w.push(v[i].clone());
        i += 1;
    }
    assert(w.deep_view() =~= v.deep_view());
    w
}

impl Clone for Card {
    fn clone(&self) -> (c: Card)
        ensures
            c@ == self@,
    {
        Card {
            id: self.id,
            name: self.name.clone(),
            description: self.description.clone(),
            url: self.url.clone(),
            tags: clone_strings(&self.tags),
            folders: clone_strings(&self.folders),
        }
    }
}

impl Default for Card {
    /// A card with a new random identifier and nothing else.
    fn default() -> (c: Card)
        ensures
            is_random_id(c.id),
            c@ == CardView::blank(c.id),
    {
        let c = Card {
            id: fresh_id(),
            name: String::new(),
            description: String::new(),
            url: String::new(),
            tags: Vec::new(),
            folders: Vec::new(),
        };
        assert(c.tags.deep_view() =~= Seq::<Seq<char>>::empty());
        assert(c.folders.deep_view() =~= Seq::<Seq<char>>::empty());
        c
    }
}

impl CardView {
    /// The card with identifier `id` and every other field empty.
    pub open spec fn blank(id: u128) -> CardView {
        CardView {
            id,
            name: Seq::empty(),
            description: Seq::empty(),
            url: Seq::empty(),
            tags: Seq::empty(),
            folders: Seq::empty(),
        }
    }
}

/// Copies a card store.
pub fn clone_cards(v: &Vec<Card>) -> (w: Vec<Card>)
    ensures
        w.deep_view() == v.deep_view(),
{
    let mut w: Vec<Card> = Vec::new();
    let mut i: usize = 0;
    while i < v.len()
        invariant
            i <= v.len(),
            w.len() == i,
            forall|j: int| 0 <= j < i ==> w[j]@ == v[j]@,
        decreases v.len() - i,
    {
        w.push(v[i].clone());
        i += 1;
    }
    assert(w.deep_view() =~= v.deep_view());
    w
}

} // verus!
