//! Registrations: which compile-time combination each monomorphised entry
//! serves, how a case is matched to one, and how they are listed.
//!
//! A registration's compile-time coordinate is a list of tag key/value
//! pairs; a case's tags are given as key/value pairs with each value
//! rendered as a string (the keys of a case are distinct).
use vstd::prelude::*;
use vstd::relations::sorted_by;
use crate::text_order::{pair_le, pair_le_exec, lemma_pair_le_properties, lemma_pair_le_total_ordering};

verus! {

/// A list of string pairs seen as pairs of character sequences.
pub open spec fn pairs_view(s: Seq<(String, String)>) -> Seq<(Seq<char>, Seq<char>)> {
    s.map_values(|p: (String, String)| (p.0@, p.1@))
}

/// The value of the first tag named `key`, if any.
pub open spec fn tag_value(tags: Seq<(Seq<char>, Seq<char>)>, key: Seq<char>) -> Option<Seq<char>>
    decreases tags.len(),
{
    if tags.len() == 0 {
        None
    } else if tags[0].0 == key {
        Some(tags[0].1)
    } else {
        tag_value(tags.drop_first(), key)
    }
}

/// Whether every compile-time pair of a registration is among the case's
/// tags, with the same value.
pub open spec fn serves(compile_time: Seq<(Seq<char>, Seq<char>)>, tags: Seq<(Seq<char>, Seq<char>)>) -> bool {
    forall|i: int| 0 <= i < compile_time.len() ==> tag_value(tags, #[trigger] compile_time[i].0) == Some(compile_time[i].1)
}

/// The first registration that serves the case, if any.
pub open spec fn first_serving(registrations: Seq<Seq<(Seq<char>, Seq<char>)>>, tags: Seq<(Seq<char>, Seq<char>)>) -> Option<int>
    decreases registrations.len(),
{
    if registrations.len() == 0 {
        None
    } else if serves(registrations[0], tags) {
        Some(0)
    } else {
        match first_serving(registrations.drop_first(), tags) {
            Some(i) => Some(i + 1),
            None => None,
        }
    }
}

/// The registrations' pairs, each seen as character sequences.
pub open spec fn registrations_view(registrations: Seq<Vec<(String, String)>>) -> Seq<Seq<(Seq<char>, Seq<char>)>> {
    registrations.map_values(|r: Vec<(String, String)>| pairs_view(r@))
}

/// Whether the case's tags give `key` the value `value`.
pub fn has_tag(tags: &Vec<(String, String)>, key: &String, value: &String) -> (found: bool)
    ensures
        found == (tag_value(pairs_view(tags@), key@) == Some(value@)),
{
    let ghost view = pairs_view(tags@);
    let mut i: usize = 0;
    assert(view.skip(0) =~= view);
    while i < tags.len()
        invariant
            i <= tags@.len(),
            view == pairs_view(tags@),
            tag_value(view, key@) == tag_value(view.skip(i as int), key@),
        decreases tags@.len() - i,
    {
        if tags[i].0 == *key {
            return tags[i].1 == *value;
        }
        assert(view.skip(i as int).drop_first() =~= view.skip(i + 1));
        i += 1;
    }
    false
}

/// Whether a registration's compile-time pairs all hold of the case's tags.
pub fn serves_case(compile_time: &Vec<(String, String)>, tags: &Vec<(String, String)>) -> (ok: bool)
    ensures
        ok == serves(pairs_view(compile_time@), pairs_view(tags@)),
{
    let ghost ct = pairs_view(compile_time@);
    let mut i: usize = 0;
    while i < compile_time.len()
        invariant
            i <= compile_time@.len(),
            ct == pairs_view(compile_time@),
            forall|j: int| 0 <= j < i ==> tag_value(pairs_view(tags@), #[trigger] ct[j].0) == Some(ct[j].1),
        decreases compile_time@.len() - i,
    {
        assert(ct[i as int] == (compile_time@[i as int].0@, compile_time@[i as int].1@));
        if !has_tag(tags, &compile_time[i].0, &compile_time[i].1) {
            assert(tag_value(pairs_view(tags@), ct[i as int].0) != Some(ct[i as int].1));
            return false;
        }
        i += 1;
    }
    true
}

/// The first registration whose compile-time pairs all hold of the case's
/// tags; `None` when no registration serves the case.
pub fn find(registrations: &Vec<Vec<(String, String)>>, tags: &Vec<(String, String)>) -> (found: Option<usize>)
    ensures
        found matches Some(i) ==> first_serving(registrations_view(registrations@), pairs_view(tags@)) == Some(i as int),
        found is None ==> first_serving(registrations_view(registrations@), pairs_view(tags@)) is None,
{
    let ghost regs = registrations_view(registrations@);
    let ghost tv = pairs_view(tags@);
    let mut i: usize = 0;
    assert(regs.skip(0) =~= regs);
    while i < registrations.len()
        invariant
            i <= registrations@.len(),
            regs == registrations_view(registrations@),
            tv == pairs_view(tags@),
            first_serving(regs, tv) == match first_serving(regs.skip(i as int), tv) {
                Some(j) => Some(j + i),
                None => None::<int>,
            },
        decreases registrations@.len() - i,
    {
        if serves_case(&registrations[i], tags) {
            return Some(i);
        }
        assert(regs.skip(i as int).drop_first() =~= regs.skip(i + 1));
        i += 1;
    }
    None
}

/// The first-serving registration does serve the case, and none before it
/// does.
pub proof fn lemma_first_serving(registrations: Seq<Seq<(Seq<char>, Seq<char>)>>, tags: Seq<(Seq<char>, Seq<char>)>)
    ensures
        first_serving(registrations, tags) matches Some(i) ==> {
            &&& 0 <= i < registrations.len()
            &&& serves(registrations[i], tags)
            &&& forall|j: int| 0 <= j < i ==> !serves(#[trigger] registrations[j], tags)
        },
        first_serving(registrations, tags) is None ==> forall|j: int| 0 <= j < registrations.len() ==> !serves(#[trigger] registrations[j], tags),
    decreases registrations.len(),
{
    if registrations.len() > 0 {
        let rest = registrations.drop_first();
        lemma_first_serving(rest, tags);
        if !serves(registrations[0], tags) {
            assert forall|j: int| 1 <= j < registrations.len() implies #[trigger] registrations[j] == rest[j - 1] by {}
        }
    }
}

/// Whether a list of pairs is in `(String, String)` order.
pub open spec fn pairs_sorted(s: Seq<(Seq<char>, Seq<char>)>) -> bool {
    forall|i: int, j: int| 0 <= i < j < s.len() ==> pair_le(#[trigger] s[i], #[trigger] s[j])
}

proof fn lemma_pairs_view_insert(s: Seq<(String, String)>, pos: int, p: (String, String))
    requires
        0 <= pos <= s.len(),
    ensures
        pairs_view(s.insert(pos, p)) == pairs_view(s).insert(pos, (p.0@, p.1@)),
{
    assert(pairs_view(s.insert(pos, p)) =~= pairs_view(s).insert(pos, (p.0@, p.1@)));
}

/// The pairs in `(String, String)` order: a permutation of `pairs` that is
/// sorted, as `slice::sort` leaves it.
pub fn sorted_pairs(pairs: &Vec<(String, String)>) -> (sorted: Vec<(String, String)>)
    ensures
        pairs_view(sorted@).to_multiset() == pairs_view(pairs@).to_multiset(),
        pairs_sorted(pairs_view(sorted@)),
{
    proof {
        lemma_pair_le_properties();
    }
    let mut sorted: Vec<(String, String)> = Vec::new();
    let mut i: usize = 0;
    assert(pairs_view(sorted@) =~= pairs_view(pairs@.subrange(0, 0)));
    while i < pairs.len()
        invariant
            i <= pairs@.len(),
            pairs_view(sorted@).to_multiset() == pairs_view(pairs@.subrange(0, i as int)).to_multiset(),
            pairs_sorted(pairs_view(sorted@)),
        decreases pairs@.len() - i,
    {
        let p = (pairs[i].0.clone(), pairs[i].1.clone());
        let ghost pv = (p.0@, p.1@);
        let ghost before = pairs_view(sorted@);
        let mut pos: usize = 0;
        while pos < sorted.len() && pair_le_exec(&sorted[pos], &p)
            invariant
                pos <= sorted@.len(),
                before == pairs_view(sorted@),
                pv == (p.0@, p.1@),
                forall|k: int| 0 <= k < pos ==> pair_le(#[trigger] before[k], pv),
            decreases sorted@.len() - pos,
        {
            assert(before[pos as int] == (sorted@[pos as int].0@, sorted@[pos as int].1@));
            pos += 1;
        }
        proof {
            lemma_pair_le_properties();
            if pos < before.len() {
                assert(before[pos as int] == (sorted@[pos as int].0@, sorted@[pos as int].1@));
                assert(!pair_le(before[pos as int], pv));
                assert(pair_le(pv, before[pos as int]));
                assert forall|k: int| pos <= k < before.len() implies pair_le(pv, #[trigger] before[k]) by {
                    if k > pos {
                        assert(pair_le(before[pos as int], before[k]));
                    }
                }
            }
            lemma_pairs_view_insert(sorted@, pos as int, p);
            vstd::seq_lib::to_multiset_insert(before, pos as int, pv);
            assert(pairs_view(pairs@.subrange(0, i + 1)) =~= pairs_view(pairs@.subrange(0, i as int)).push(pv));
            vstd::seq_lib::to_multiset_build(pairs_view(pairs@.subrange(0, i as int)), pv);
        }
        sorted.insert(pos, p);
        proof {
            lemma_pair_le_properties();
            let after = pairs_view(sorted@);
            assert(after == before.insert(pos as int, pv));
            assert forall|a: int, b: int| 0 <= a < b < after.len() implies pair_le(#[trigger] after[a], #[trigger] after[b]) by {
                if b < pos {
                } else if a < pos && b == pos {
                } else if a < pos {
                    assert(pair_le(before[a], before[b - 1]));
                } else if a == pos {
                } else {
                    assert(pair_le(before[a - 1], before[b - 1]));
                }
            }
        }
        i += 1;
    }
    assert(pairs@.subrange(0, i as int) =~= pairs@);
    sorted
}

/// Listing in `(String, String)` order does not depend on the order in which
/// a registration declares its pairs: two registrations declaring the same
/// pairs list identically.
pub proof fn lemma_sorted_listing_canonical(a: Seq<(Seq<char>, Seq<char>)>, b: Seq<(Seq<char>, Seq<char>)>)
    requires
        pairs_sorted(a),
        pairs_sorted(b),
        a.to_multiset() == b.to_multiset(),
    ensures
        a == b,
{
    lemma_pair_le_total_ordering();
    let leq = |x: (Seq<char>, Seq<char>), y: (Seq<char>, Seq<char>)| pair_le(x, y);
    assert(sorted_by(a, leq));
    assert(sorted_by(b, leq));
    vstd::seq_lib::lemma_sorted_unique(a, b, leq);
}


/// How a driver lists a registration's compile-time pairs.
#[derive(Clone, Copy, Debug, PartialEq, Eq, Structural)]
pub enum Listing {
    /// In the order the registration declares them.
    AsDeclared,
    /// In `(String, String)` order, whatever the declaration order.
    Sorted,
    /// Not at all: the driver dispatches every case at run time.
    Empty,
}

/// Whether `entry` is how `style` lists a registration declaring `declared`.
pub open spec fn listed(style: Listing, declared: Seq<(Seq<char>, Seq<char>)>, entry: Seq<(Seq<char>, Seq<char>)>) -> bool {
    match style {
        Listing::AsDeclared => entry == declared,
        Listing::Sorted => entry.to_multiset() == declared.to_multiset() && pairs_sorted(entry),
        Listing::Empty => entry.len() == 0,
    }
}

fn cloned_pairs(pairs: &Vec<(String, String)>) -> (copy: Vec<(String, String)>)
    ensures
        pairs_view(copy@) == pairs_view(pairs@),
{
    let mut copy: Vec<(String, String)> = Vec::new();
    let mut i: usize = 0;
    while i < pairs.len()
        invariant
            i <= pairs@.len(),
            pairs_view(copy@) =~= pairs_view(pairs@.subrange(0, i as int)),
        decreases pairs@.len() - i,
    {
        copy.push((pairs[i].0.clone(), pairs[i].1.clone()));
        assert(pairs_view(pairs@.subrange(0, i + 1)) =~= pairs_view(pairs@.subrange(0, i as int)).push((pairs@[i as int].0@, pairs@[i as int].1@)));
        i += 1;
    }
    assert(pairs@.subrange(0, i as int) =~= pairs@);
    copy
}

/// The entries a driver prints for `--list`, one per registration.
pub fn listing(style: Listing, registrations: &Vec<Vec<(String, String)>>) -> (entries: Vec<Vec<(String, String)>>)
    ensures
        entries@.len() == registrations@.len(),
        forall|i: int| 0 <= i < entries@.len() ==> listed(style, pairs_view(registrations@[i]@), #[trigger] pairs_view(entries@[i]@)),
{
    let mut entries: Vec<Vec<(String, String)>> = Vec::new();
    let mut i: usize = 0;
    while i < registrations.len()
        invariant
            i <= registrations@.len(),
            entries@.len() == i,
            forall|j: int| 0 <= j < i ==> listed(style, pairs_view(registrations@[j]@), #[trigger] pairs_view(entries@[j]@)),
        decreases registrations@.len() - i,
    {
        let entry = match style {
            Listing::AsDeclared => cloned_pairs(&registrations[i]),
            Listing::Sorted => sorted_pairs(&registrations[i]),
            Listing::Empty => Vec::new(),
        };
        proof {
            if style == Listing::Empty {
                assert(pairs_view(entry@) =~= Seq::empty());
            }
        }
        entries.push(entry);
        i += 1;
    }
    entries
}

} // verus!
