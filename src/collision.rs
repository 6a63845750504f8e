//! Collision events reported by the engine, and which of them score.

use vstd::prelude::*;
use crate::text::{is_player_label, player_label};

verus! {

/// One collision event: the labels of the two entities involved, and
/// whether contact began (`true`) or ended (`false`).
pub struct CollisionEvent {
    pub begin: bool,
    pub first: String,
    pub second: String,
}

/// An event scores when contact begins and one member of the pair is the
/// player.
pub open spec fn is_scoring(e: CollisionEvent) -> bool {
    e.begin && (e.first@ == player_label() || e.second@ == player_label())
}

/// `l` as a list of labels to remove: empty when it is the player's.
pub open spec fn unless_player(l: Seq<char>) -> Seq<Seq<char>> {
    if l == player_label() {
        seq![]
    } else {
        seq![l]
    }
}

/// Labels whose sprites a single event removes: for a scoring event, each
/// member of the pair other than the player, in pair order.
pub open spec fn removed_by(e: CollisionEvent) -> Seq<Seq<char>> {
    if is_scoring(e) {
        unless_player(e.first@) + unless_player(e.second@)
    } else {
        seq![]
    }
}

/// Number of scoring events in `evs`.
pub open spec fn count_scoring(evs: Seq<CollisionEvent>) -> nat
    decreases evs.len(),
{
    if evs.len() == 0 {
        0
    } else {
        count_scoring(evs.drop_last()) + if is_scoring(evs.last()) {
            1nat
        } else {
            0nat
        }
    }
}

/// Labels removed while processing `evs` in order.
pub open spec fn removed_labels(evs: Seq<CollisionEvent>) -> Seq<Seq<char>>
    decreases evs.len(),
{
    if evs.len() == 0 {
        seq![]
    } else {
        removed_labels(evs.drop_last()) + removed_by(evs.last())
    }
}

/// The views of a list of strings.
pub open spec fn label_views(v: Seq<String>) -> Seq<Seq<char>> {
    v.map_values(|s: String| s@)
}

impl CollisionEvent {
    /// Whether this event scores a point.
    pub fn is_scoring(&self) -> (r: bool)
        ensures
            r == is_scoring(*self),
    {
        self.begin && (is_player_label(self.first.as_str()) || is_player_label(
            self.second.as_str(),
        ))
    }

    /// Appends to `out` the labels this event removes.
    pub fn push_removed(&self, out: &mut Vec<String>)
        ensures
            label_views(final(out)@) == label_views(old(out)@) + removed_by(*self),
    {
        let ghost start = label_views(out@);
        if self.is_scoring() {
            if !is_player_label(self.first.as_str()) {
                out.push(self.first.clone());
            }
            if !is_player_label(self.second.as_str()) {
                out.push(self.second.clone());
            }
        }
        assert(label_views(out@) =~= start + removed_by(*self));
    }
}

/// Number of scoring events in `evs`.
pub fn scoring_events(evs: &Vec<CollisionEvent>) -> (r: usize)
    ensures
        r == count_scoring(evs@),
{
    let mut n: usize = 0;
    let mut i: usize = 0;
    while i < evs.len()
        invariant
            i <= evs@.len(),
            n == count_scoring(evs@.take(i as int)),
            n <= i,
        decreases evs@.len() - i,
    {
        assert(evs@.take(i as int + 1).drop_last() =~= evs@.take(i as int));
        if evs[i].is_scoring() {
            n = n + 1;
        }
        i = i + 1;
    }
    assert(evs@.take(i as int) =~= evs@);
    n
}

} // verus!
