//! The targets that a selection owner offers, and the choice among them.

use vstd::prelude::*;
use vstd::string::StringExecFns;

verus! {

/// A target that the owner offers: its identifier on the display server and
/// the name the server resolved it to.
#[derive(Debug, Clone, PartialEq, Eq)]
pub struct Offer {
    pub atom: u32,
    pub name: String,
}

impl View for Offer {
    type V = (u32, Seq<char>);

    open spec fn view(&self) -> (u32, Seq<char>) {
        (self.atom, self.name@)
    }
}

/// The views of a list of offers, in the list's order.
pub open spec fn offers_view(offers: Seq<Offer>) -> Seq<(u32, Seq<char>)> {
    Seq::new(offers.len(), |i: int| offers[i]@)
}

/// The names of a list of offers, in the list's order.
pub open spec fn names_of(offers: Seq<(u32, Seq<char>)>) -> Seq<Seq<char>> {
    Seq::new(offers.len(), |i: int| offers[i].1)
}

/// Whether a target name denotes negotiation machinery and no content type.
pub open spec fn is_meta(name: Seq<char>) -> bool {
    ||| name == "TARGETS"@
    ||| name == "TIMESTAMP"@
    ||| name == "SAVE_TARGETS"@
    ||| name == "MULTIPLE"@
}

/// The position of the first offer whose name is no meta-type.
pub open spec fn first_usable(offers: Seq<(u32, Seq<char>)>) -> Option<int>
    decreases offers.len(),
{
    if offers.len() == 0 {
        None
    } else if !is_meta(offers[0].1) {
        Some(0int)
    } else {
        match first_usable(offers.skip(1)) {
            Some(i) => Some(i + 1),
            None => None,
        }
    }
}

/// `first_usable` gives the least position with a usable name, and nothing
/// exactly where every name is a meta-type.
pub proof fn lemma_first_usable(offers: Seq<(u32, Seq<char>)>)
    ensures
        match first_usable(offers) {
            Some(i) => 0 <= i < offers.len() && !is_meta(offers[i].1) && forall|j: int|
                0 <= j < i ==> is_meta(#[trigger] offers[j].1),
            None => forall|j: int| 0 <= j < offers.len() ==> is_meta(#[trigger] offers[j].1),
        },
    decreases offers.len(),
{
    if offers.len() > 0 && is_meta(offers[0].1) {
        let rest = offers.skip(1);
        lemma_first_usable(rest);
        match first_usable(rest) {
            Some(i) => {
                assert forall|j: int| 0 <= j < i + 1 implies is_meta(#[trigger] offers[j].1) by {
                    if j > 0 {
                        assert(offers[j] == rest[j - 1]);
                    }
                }
            },
            None => {
                assert forall|j: int| 0 <= j < offers.len() implies is_meta(
                    #[trigger] offers[j].1,
                ) by {
                    if j > 0 {
                        assert(offers[j] == rest[j - 1]);
                    }
                }
            },
        }
    }
}

/// A position that holds a usable name, with meta-types alone before it, is
/// the one that `first_usable` gives.
pub proof fn lemma_first_usable_is(offers: Seq<(u32, Seq<char>)>, at: int)
    requires
        0 <= at < offers.len(),
        !is_meta(offers[at].1),
        forall|j: int| 0 <= j < at ==> is_meta(#[trigger] offers[j].1),
    ensures
        first_usable(offers) == Some(at),
{
    lemma_first_usable(offers);
}

/// Every name a meta-type: there is no usable offer.
pub proof fn lemma_first_usable_none(offers: Seq<(u32, Seq<char>)>)
    requires
        forall|j: int| 0 <= j < offers.len() ==> is_meta(#[trigger] offers[j].1),
    ensures
        first_usable(offers).is_none(),
{
    lemma_first_usable(offers);
}

/// Tells whether `name` is one of the four meta-type names.
pub fn is_meta_name(name: &String) -> (meta: bool)
    ensures
        meta == is_meta(name@),
{
    let targets = String::from_str("TARGETS");
    let timestamp = String::from_str("TIMESTAMP");
    let save_targets = String::from_str("SAVE_TARGETS");
    let multiple = String::from_str("MULTIPLE");
    name.eq(&targets) || name.eq(&timestamp) || name.eq(&save_targets) || name.eq(&multiple)
}

/// Picks the first offer, in the owner's order, that is no meta-type.
pub fn select_target(offers: &Vec<Offer>) -> (chosen: Option<usize>)
    ensures
        match chosen {
            Some(i) => first_usable(offers_view(offers@)) == Some(i as int),
            None => first_usable(offers_view(offers@)).is_none(),
        },
{
    let ghost all = offers_view(offers@);
    let mut i: usize = 0;
    while i < offers.len()
        invariant
            i <= offers.len(),
            all == offers_view(offers@),
            forall|j: int| 0 <= j < i ==> is_meta(#[trigger] all[j].1),
        decreases offers.len() - i,
    {
        if !is_meta_name(&offers[i].name) {
            proof {
                lemma_first_usable_is(all, i as int);
            }
            return Some(i);
        }
        i += 1;
    }
    proof {
        lemma_first_usable_none(all);
    }
    None
}

/// The names of the offers, in the owner's order.
pub fn offered_names(offers: &Vec<Offer>) -> (names: Vec<String>)
    ensures
        names.deep_view() == names_of(offers_view(offers@)),
{
    let mut names: Vec<String> = Vec::new();
    let mut i: usize = 0;
    while i < offers.len()
        invariant
            i <= offers.len(),
            names.len() == i,
            forall|j: int| 0 <= j < i ==> (#[trigger] names[j])@ == offers[j].name@,
        decreases offers.len() - i,
    {
        names.push(offers[i].name.clone());
        i += 1;
    }
    assert(names.deep_view() =~= names_of(offers_view(offers@)));
    names
}

} // verus!
