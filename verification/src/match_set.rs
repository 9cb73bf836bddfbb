//! A set of matches kept in order, in which every event occurs once.

use crate::matches::{lemma_match_order, Match, MatchView};
use crate::vecs::reversed;
use vstd::prelude::*;

verus! {

/// Every element precedes all that follow it.
pub open spec fn strictly_ordered(s: Seq<MatchView>) -> bool {
    forall|i: int, j: int| 0 <= i < j < s.len() ==> (#[trigger] s[i]).precedes(#[trigger] s[j])
}

/// Some element of `s` is the same event as `m`.
pub open spec fn holds(s: Seq<MatchView>, m: MatchView) -> bool {
    exists|i: int| 0 <= i < s.len() && (#[trigger] s[i]).same_event(m)
}

/// The number of elements of `s` that precede `m`.
pub open spec fn position(s: Seq<MatchView>, m: MatchView) -> int
    decreases s.len(),
{
    if s.len() == 0 {
        0
    } else {
        position(s.drop_last(), m) + if s.last().precedes(m) {
            1int
        } else {
            0int
        }
    }
}

/// `s` with `m` put in its place, unless `s` already holds the same event:
/// then `s` as it is.
pub open spec fn ordered_insert(s: Seq<MatchView>, m: MatchView) -> Seq<MatchView> {
    if holds(s, m) {
        s
    } else {
        s.insert(position(s, m), m)
    }
}

/// `s` after the elements of `items` have been inserted one by one, first
/// to last.
pub open spec fn merged(s: Seq<MatchView>, items: Seq<MatchView>) -> Seq<MatchView>
    decreases items.len(),
{
    if items.len() == 0 {
        s
    } else {
        ordered_insert(merged(s, items.drop_last()), items.last())
    }
}

/// The views of a sequence of matches.
pub open spec fn match_views(items: Seq<Match>) -> Seq<MatchView> {
    items.map_values(|m: Match| m@)
}

/// In an ordered sequence, the place of `m` is the first index whose
/// element does not precede `m`.
pub proof fn lemma_position(s: Seq<MatchView>, m: MatchView, i: int)
    requires
        strictly_ordered(s),
        0 <= i <= s.len(),
        forall|j: int| 0 <= j < i ==> (#[trigger] s[j]).precedes(m),
        i < s.len() ==> !s[i].precedes(m),
    ensures
        position(s, m) == i,
        holds(s, m) <==> (i < s.len() && s[i].same_event(m)),
    decreases s.len(),
{
    if s.len() > 0 {
        let t = s.drop_last();
        if i == s.len() {
            lemma_position(t, m, i - 1);
        } else {
            if i < s.len() - 1 {
                lemma_match_order(s[i], s.last(), m);
            }
            lemma_position(t, m, i);
        }
    }
    if holds(s, m) {
        let j = choose|j: int| 0 <= j < s.len() && (#[trigger] s[j]).same_event(m);
        lemma_match_order(s[j], m, m);
        if j > i {
            lemma_match_order(s[i], s[j], m);
            lemma_match_order(s[j], m, s[i]);
        }
    }
}

/// Inserting into an ordered sequence leaves it ordered; it grows by one
/// exactly when the event is new.
pub proof fn lemma_insert_ordered(s: Seq<MatchView>, m: MatchView)
    requires
        strictly_ordered(s),
    ensures
        strictly_ordered(ordered_insert(s, m)),
        holds(ordered_insert(s, m), m),
        ordered_insert(s, m).len() == if holds(s, m) {
            s.len()
        } else {
            s.len() + 1
        },
{
    let i = first_not_before(s, m, 0);
    lemma_first_not_before(s, m, 0);
    lemma_position(s, m, i);
    if !holds(s, m) {
        let r = s.insert(i, m);
        assert forall|a: int, b: int| 0 <= a < b < r.len() implies (#[trigger] r[a]).precedes(
            #[trigger] r[b],
        ) by {
            if b == i {
                assert(r[a] == s[a]);
            } else if a == i {
                assert(r[b] == s[b - 1]);
                lemma_match_order(m, s[i], s[b - 1]);
            } else {
                let a0 = if a < i { a } else { a - 1 };
                let b0 = if b < i { b } else { b - 1 };
                assert(r[a] == s[a0] && r[b] == s[b0]);
            }
        }
        assert(r[i].same_event(m)) by {
            lemma_match_order(m, m, m);
        }
    }
}

/// The first index from `from` on whose element does not precede `m`.
pub open spec fn first_not_before(s: Seq<MatchView>, m: MatchView, from: int) -> int
    decreases s.len() - from,
{
    if 0 <= from < s.len() && s[from].precedes(m) {
        first_not_before(s, m, from + 1)
    } else {
        from
    }
}

proof fn lemma_first_not_before(s: Seq<MatchView>, m: MatchView, from: int)
    requires
        strictly_ordered(s),
        0 <= from <= s.len(),
        forall|j: int| 0 <= j < from ==> (#[trigger] s[j]).precedes(m),
    ensures
        from <= first_not_before(s, m, from) <= s.len(),
        forall|j: int| 0 <= j < first_not_before(s, m, from) ==> (#[trigger] s[j]).precedes(m),
        first_not_before(s, m, from) < s.len() ==> !s[first_not_before(s, m, from)].precedes(m),
    decreases s.len() - from,
{
    if from < s.len() && s[from].precedes(m) {
        lemma_first_not_before(s, m, from + 1);
    }
}

/// Inserting the same event a second time changes nothing, whatever the
/// names of its players.
pub proof fn lemma_insert_twice(s: Seq<MatchView>, a: MatchView, b: MatchView)
    requires
        strictly_ordered(s),
        a.same_event(b),
    ensures
        ordered_insert(ordered_insert(s, a), b) == ordered_insert(s, a),
{
    lemma_insert_ordered(s, a);
    let r = ordered_insert(s, a);
    let i = choose|i: int| 0 <= i < r.len() && (#[trigger] r[i]).same_event(a);
    lemma_match_order(r[i], a, b);
}

/// Merging into an ordered sequence leaves it ordered, and it then holds
/// every event that was merged.
pub proof fn lemma_merged_ordered(s: Seq<MatchView>, items: Seq<MatchView>)
    requires
        strictly_ordered(s),
    ensures
        strictly_ordered(merged(s, items)),
        forall|i: int| 0 <= i < items.len() ==> holds(merged(s, items), #[trigger] items[i]),
        forall|x: MatchView| holds(s, x) ==> holds(merged(s, items), x),
    decreases items.len(),
{
    if items.len() > 0 {
        let rest = items.drop_last();
        lemma_merged_ordered(s, rest);
        let before = merged(s, rest);
        lemma_insert_ordered(before, items.last());
        lemma_insert_keeps(before, items.last());
        assert forall|i: int| 0 <= i < items.len() implies holds(
            merged(s, items),
            #[trigger] items[i],
        ) by {
            if i < rest.len() {
                assert(rest[i] == items[i]);
            }
        }
    }
}

/// Merging the same events a second time changes nothing: a match that
/// is met again, on the same page or on a later one, is not added.
pub proof fn lemma_merging_again_changes_nothing(s: Seq<MatchView>, items: Seq<MatchView>)
    requires
        strictly_ordered(s),
    ensures
        merged(merged(s, items), items) == merged(s, items),
{
    lemma_merged_ordered(s, items);
    lemma_merge_of_held(merged(s, items), items);
}

/// Merging events that a sequence holds already changes nothing.
pub proof fn lemma_merge_of_held(s: Seq<MatchView>, held: Seq<MatchView>)
    requires
        forall|i: int| 0 <= i < held.len() ==> holds(s, #[trigger] held[i]),
    ensures
        merged(s, held) == s,
    decreases held.len(),
{
    if held.len() > 0 {
        let rest = held.drop_last();
        assert forall|i: int| 0 <= i < rest.len() implies holds(s, #[trigger] rest[i]) by {
            assert(rest[i] == held[i]);
        }
        lemma_merge_of_held(s, rest);
        assert(holds(s, held[held.len() - 1]));
    }
}

/// After an insertion a sequence holds nothing but what it held and what
/// was inserted.
pub proof fn lemma_insert_adds_only(s: Seq<MatchView>, m: MatchView)
    requires
        strictly_ordered(s),
    ensures
        forall|x: MatchView|
            holds(ordered_insert(s, m), x) ==> holds(s, x) || m.same_event(x),
{
    let i = first_not_before(s, m, 0);
    lemma_first_not_before(s, m, 0);
    lemma_position(s, m, i);
    assert forall|x: MatchView| holds(ordered_insert(s, m), x) implies holds(s, x) || m.same_event(
        x,
    ) by {
        if !holds(s, m) {
            let r = s.insert(i, m);
            let k = choose|k: int| 0 <= k < r.len() && (#[trigger] r[k]).same_event(x);
            if k != i {
                let k0 = if k < i { k } else { k - 1 };
                assert(r[k] == s[k0]);
            }
        }
    }
}

/// After a merge a sequence holds nothing but what it held and what was
/// merged into it.
pub proof fn lemma_merge_adds_only(s: Seq<MatchView>, items: Seq<MatchView>)
    requires
        strictly_ordered(s),
    ensures
        forall|x: MatchView| holds(merged(s, items), x) ==> holds(s, x) || holds(items, x),
    decreases items.len(),
{
    if items.len() > 0 {
        let rest = items.drop_last();
        lemma_merge_adds_only(s, rest);
        lemma_merged_ordered(s, rest);
        lemma_insert_adds_only(merged(s, rest), items.last());
        assert forall|x: MatchView| holds(merged(s, items), x) implies holds(s, x) || holds(
            items,
            x,
        ) by {
            if items.last().same_event(x) {
                assert(items[items.len() - 1].same_event(x));
            } else if !holds(s, x) {
                assert(holds(rest, x));
                let k = choose|k: int| 0 <= k < rest.len() && (#[trigger] rest[k]).same_event(x);
                assert(items[k] == rest[k]);
            }
        }
    }
}

/// No two elements are the same event.
pub open spec fn distinct_events(items: Seq<MatchView>) -> bool {
    forall|i: int, j: int|
        0 <= i < j < items.len() ==> !(#[trigger] items[i]).same_event(#[trigger] items[j])
}

/// A merge adds at most one element for every event merged, and exactly
/// one where the events differ from each other and from all that the
/// sequence held.
pub proof fn lemma_merged_len(s: Seq<MatchView>, items: Seq<MatchView>)
    requires
        strictly_ordered(s),
    ensures
        s.len() <= merged(s, items).len() <= s.len() + items.len(),
        distinct_events(items) && (forall|i: int|
            0 <= i < items.len() ==> !holds(s, #[trigger] items[i])) ==> merged(s, items).len()
            == s.len() + items.len(),
    decreases items.len(),
{
    if items.len() > 0 {
        let rest = items.drop_last();
        let last = items.last();
        lemma_merged_len(s, rest);
        lemma_merged_ordered(s, rest);
        lemma_insert_ordered(merged(s, rest), last);
        if distinct_events(items) && (forall|i: int|
            0 <= i < items.len() ==> !holds(s, #[trigger] items[i])) {
            assert forall|i: int, j: int| 0 <= i < j < rest.len() implies !(#[trigger] rest[i]).same_event(
                #[trigger] rest[j],
            ) by {
                assert(rest[i] == items[i] && rest[j] == items[j]);
            }
            assert forall|i: int| 0 <= i < rest.len() implies !holds(s, #[trigger] rest[i]) by {
                assert(rest[i] == items[i]);
            }
            lemma_merge_adds_only(s, rest);
            assert(!holds(s, items[items.len() - 1]));
            if holds(rest, last) {
                let k = choose|k: int| 0 <= k < rest.len() && (#[trigger] rest[k]).same_event(last);
                assert(items[k] == rest[k]);
                assert(!items[k].same_event(items[items.len() - 1]));
            }
            assert(!holds(merged(s, rest), last));
        }
    }
}

/// What a sequence holds it still holds after an insertion.
pub proof fn lemma_insert_keeps(s: Seq<MatchView>, m: MatchView)
    requires
        strictly_ordered(s),
    ensures
        forall|x: MatchView| holds(s, x) ==> holds(ordered_insert(s, m), x),
{
    let i = first_not_before(s, m, 0);
    lemma_first_not_before(s, m, 0);
    lemma_position(s, m, i);
    assert forall|x: MatchView| holds(s, x) implies holds(ordered_insert(s, m), x) by {
        if !holds(s, m) {
            let k = choose|k: int| 0 <= k < s.len() && (#[trigger] s[k]).same_event(x);
            let r = s.insert(i, m);
            let k2 = if k < i { k } else { k + 1 };
            assert(r[k2] == s[k]);
        }
    }
}

/// A set of matches in their order, with every event at most once.
#[derive(Debug)]
pub struct MatchSet {
    items: Vec<Match>,
}

impl View for MatchSet {
    type V = Seq<MatchView>;

    closed spec fn view(&self) -> Seq<MatchView> {
        match_views(self.items@)
    }
}

impl MatchSet {
    #[verifier::type_invariant]
    spec fn ordered(&self) -> bool {
        strictly_ordered(match_views(self.items@))
    }

    /// The empty set.
    pub fn new() -> (set: MatchSet)
        ensures
            set@ == Seq::<MatchView>::empty(),
    {
        let set = MatchSet { items: Vec::new() };
        assert(set@ =~= Seq::<MatchView>::empty());
        set
    }

    /// The number of matches in the set.
    pub fn len(&self) -> (n: usize)
        ensures
            n == self@.len(),
            strictly_ordered(self@),
    {
        proof {
            use_type_invariant(self);
        }
        self.items.len()
    }

    /// Whether the set holds no match.
    pub fn is_empty(&self) -> (r: bool)
        ensures
            r == (self@.len() == 0),
    {
        self.items.len() == 0
    }

    /// The matches in their order.
    pub fn as_slice(&self) -> (items: &[Match])
        ensures
            match_views(items@) == self@,
            strictly_ordered(self@),
    {
        proof {
            use_type_invariant(self);
        }
        self.items.as_slice()
    }

    /// The matches in their order.
    pub fn into_vec(self) -> (items: Vec<Match>)
        ensures
            match_views(items@) == self@,
            strictly_ordered(self@),
    {
        proof {
            use_type_invariant(&self);
        }
        self.items
    }

    /// The index of the first match that does not precede `m`, found by
    /// halving.
    fn search(&self, m: &Match) -> (i: usize)
        ensures
            i <= self@.len(),
            position(self@, m@) == i,
            holds(self@, m@) <==> (i < self@.len() && self@[i as int].same_event(m@)),
    {
        proof {
            use_type_invariant(self);
        }
        let ghost views = match_views(self.items@);
        let mut low: usize = 0;
        let mut high: usize = self.items.len();
        while low < high
            invariant
                low <= high <= self.items.len(),
                views == match_views(self.items@),
                strictly_ordered(views),
                forall|j: int| 0 <= j < low ==> (#[trigger] views[j]).precedes(m@),
                forall|j: int| high <= j < views.len() ==> !(#[trigger] views[j]).precedes(m@),
            decreases high - low,
        {
            let middle = low + (high - low) / 2;
            if self.items[middle].is_before(m) {
                assert forall|j: int| 0 <= j < middle + 1 implies (#[trigger] views[j]).precedes(
                    m@,
                ) by {
                    if j < middle {
                        lemma_match_order(views[j], views[middle as int], m@);
                    }
                }
                low = middle + 1;
            } else {
                assert forall|j: int| middle <= j < views.len() implies !(#[trigger] views[j]).precedes(
                    m@,
                ) by {
                    if j > middle {
                        lemma_match_order(views[middle as int], views[j], m@);
                    }
                }
                high = middle;
            }
        }
        proof {
            lemma_position(self@, m@, low as int);
        }
        low
    }

    /// Whether the set holds the same event as `m`.
    pub fn contains(&self, m: &Match) -> (r: bool)
        ensures
            r == holds(self@, m@),
    {
        let i = self.search(m);
        i < self.items.len() && self.items[i].is_same_event(m)
    }

    /// Puts `m` into the set unless the set holds the same event already;
    /// says whether the set has grown.
    pub fn insert(&mut self, m: Match) -> (grown: bool)
        ensures
            final(self)@ == ordered_insert(old(self)@, m@),
            grown == !holds(old(self)@, m@),
            strictly_ordered(final(self)@),
    {
        proof {
            use_type_invariant(&*self);
            lemma_insert_ordered(self@, m@);
        }
        let i = self.search(&m);
        if i < self.items.len() && self.items[i].is_same_event(&m) {
            false
        } else {
            let mut items: Vec<Match> = Vec::new();
            assert(match_views(items@) =~= Seq::<MatchView>::empty());
            std::mem::swap(&mut self.items, &mut items);
            let ghost before = items@;
            items.insert(i, m);
            assert(match_views(items@) =~= match_views(before).insert(i as int, m@));
            std::mem::swap(&mut self.items, &mut items);
            true
        }
    }

    /// Inserts the matches one by one, first to last.
    pub fn extend(&mut self, matches: Vec<Match>)
        ensures
            final(self)@ == merged(old(self)@, match_views(matches@)),
            strictly_ordered(final(self)@),
    {
        proof {
            use_type_invariant(&*self);
        }
        let ghost all = match_views(matches@);
        let ghost start = self@;
        let mut rest = reversed(matches);
        let ghost mut done: int = 0;
        assert(all.take(0) =~= Seq::<MatchView>::empty());
        while rest.len() > 0
            invariant
                0 <= done,
                done + rest@.len() == all.len(),
                forall|k: int| 0 <= k < rest@.len() ==> rest@[k]@ == all[all.len() - 1 - k],
                strictly_ordered(self@),
                self@ == merged(start, all.take(done)),
            decreases rest.len(),
        {
            let m = rest.pop().unwrap();
            assert(all.take(done + 1).drop_last() =~= all.take(done));
            assert(all.take(done + 1).last() == m@);
            self.insert(m);
            proof {
                done = done + 1;
            }
        }
        assert(all.take(done) =~= all);
    }
}

} // verus!
