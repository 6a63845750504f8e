//! What holds over a whole run of frames.
//!
//! [`run`] is the state after a sequence of frames, each applied by
//! [`GameState::advance`](crate::game::GameState::advance), whose contract
//! says that one frame takes `m` to `after_frame(m, f)`.

use vstd::prelude::*;
use crate::collision::count_scoring;
use crate::game::{
    after_collisions, after_frame, frame_spawns, lemma_after_collisions, model_wf, mouse_spawns, timer_spawns, FrameInput, GameModel,
};
use crate::timer::SPAWN_PERIOD_NS;

verus! {

/// The state after the frames `fs`, taken in order.
pub open spec fn run(m: GameModel, fs: Seq<FrameInput>) -> GameModel
    decreases fs.len(),
{
    if fs.len() == 0 {
        m
    } else {
        after_frame(run(m, fs.drop_last()), fs.last())
    }
}

/// Scoring events over all the frames `fs`.
pub open spec fn total_scoring(fs: Seq<FrameInput>) -> nat
    decreases fs.len(),
{
    if fs.len() == 0 {
        0
    } else {
        total_scoring(fs.drop_last()) + count_scoring(fs.last().collisions@)
    }
}

pub open spec fn larger(a: nat, b: nat) -> nat {
    if a >= b {
        a
    } else {
        b
    }
}

/// The largest score observed from `m` on, through the frames `fs`. Within
/// a frame the score only grows until the reset, so a frame's largest score
/// is the one reached after its collisions.
pub open spec fn peak_score(m: GameModel, fs: Seq<FrameInput>) -> nat
    decreases fs.len(),
{
    if fs.len() == 0 {
        m.score
    } else {
        let before = run(m, fs.drop_last());
        larger(
            peak_score(m, fs.drop_last()),
            after_collisions(before, fs.last().collisions@).score,
        )
    }
}

/// The ids of the targets created through the frames `fs`, in order of
/// creation: each frame adds the ids of its `spawns`.
pub open spec fn spawn_ids(m: GameModel, fs: Seq<FrameInput>) -> Seq<nat>
    decreases fs.len(),
{
    if fs.len() == 0 {
        seq![]
    } else {
        let before = run(m, fs.drop_last());
        spawn_ids(m, fs.drop_last()) + Seq::new(
            frame_spawns(before, fs.last()),
            |i: int| (before.next_target_id + i) as nat,
        )
    }
}

/// Targets created by the spawn timer through the frames `fs`.
pub open spec fn timer_spawn_count(m: GameModel, fs: Seq<FrameInput>) -> nat
    decreases fs.len(),
{
    if fs.len() == 0 {
        0
    } else {
        timer_spawn_count(m, fs.drop_last()) + if timer_spawns(run(m, fs.drop_last()), fs.last()) {
            1nat
        } else {
            0nat
        }
    }
}

/// Frames among `fs` whose mouse click spawns a target.
pub open spec fn mouse_spawn_count(fs: Seq<FrameInput>) -> nat
    decreases fs.len(),
{
    if fs.len() == 0 {
        0
    } else {
        mouse_spawn_count(fs.drop_last()) + if mouse_spawns(fs.last()) {
            1nat
        } else {
            0nat
        }
    }
}

/// Time that passes over the frames `fs`, in nanoseconds.
pub open spec fn total_time(fs: Seq<FrameInput>) -> nat
    decreases fs.len(),
{
    if fs.len() == 0 {
        0
    } else {
        total_time(fs.drop_last()) + fs.last().delta_ns as nat
    }
}

/// One frame: the score is zero after a reset and otherwise grows by the
/// frame's scoring events; the high score becomes the larger of the old
/// high score and the score reached after the collisions; the target
/// counter grows by the frame's spawns.
pub proof fn lemma_one_frame(m: GameModel, f: FrameInput)
    ensures
        after_frame(m, f).score == if f.reset_pressed {
            0
        } else {
            m.score + count_scoring(f.collisions@)
        },
        after_frame(m, f).high_score == after_collisions(m, f.collisions@).high_score,
        after_frame(m, f).high_score >= m.high_score,
        after_frame(m, f).next_target_id == m.next_target_id + frame_spawns(m, f),
        model_wf(m) ==> model_wf(after_frame(m, f)),
        model_wf(m) ==> after_frame(m, f).high_score == larger(
            m.high_score,
            m.score + count_scoring(f.collisions@),
        ),
{
    lemma_after_collisions(m, f.collisions@);
}

/// Running `a` and then `b` is running `a + b`.
pub proof fn lemma_run_append(m: GameModel, a: Seq<FrameInput>, b: Seq<FrameInput>)
    ensures
        run(m, a + b) == run(run(m, a), b),
    decreases b.len(),
{
    if b.len() == 0 {
        assert(a + b =~= a);
    } else {
        assert((a + b).drop_last() =~= a + b.drop_last());
        lemma_run_append(m, a, b.drop_last());
    }
}

/// With no reset among the frames, the score grows by exactly the number
/// of scoring events.
pub proof fn lemma_score_without_reset(m: GameModel, fs: Seq<FrameInput>)
    requires
        forall|i: int| 0 <= i < fs.len() ==> !(#[trigger] fs[i]).reset_pressed,
    ensures
        run(m, fs).score == m.score + total_scoring(fs),
    decreases fs.len(),
{
    if fs.len() > 0 {
        lemma_score_without_reset(m, fs.drop_last());
        lemma_one_frame(run(m, fs.drop_last()), fs.last());
    }
}

/// The score equals the number of scoring events since the last reset:
/// when frame `k` is the last one with a reset, the final score counts the
/// scoring events of the frames after it.
pub proof fn lemma_score_since_reset(m: GameModel, fs: Seq<FrameInput>, k: int)
    requires
        0 <= k < fs.len(),
        fs[k].reset_pressed,
        forall|i: int| k < i < fs.len() ==> !(#[trigger] fs[i]).reset_pressed,
    ensures
        run(m, fs).score == total_scoring(fs.subrange(k + 1, fs.len() as int)),
{
    let a = fs.take(k + 1);
    let b = fs.subrange(k + 1, fs.len() as int);
    assert(a + b =~= fs);
    lemma_run_append(m, a, b);
    assert(a.drop_last() =~= fs.take(k));
    lemma_one_frame(run(m, fs.take(k)), fs[k]);
    assert forall|i: int| 0 <= i < b.len() implies !(#[trigger] b[i]).reset_pressed by {
        assert(b[i] == fs[k + 1 + i]);
    }
    lemma_score_without_reset(run(m, a), b);
}

/// From a well-formed state, the high score after any run of frames is the
/// larger of the starting high score and the largest score observed.
pub proof fn lemma_high_score_is_peak(m: GameModel, fs: Seq<FrameInput>)
    requires
        model_wf(m),
    ensures
        run(m, fs).high_score == larger(m.high_score, peak_score(m, fs)),
        model_wf(run(m, fs)),
    decreases fs.len(),
{
    if fs.len() > 0 {
        let before = run(m, fs.drop_last());
        lemma_high_score_is_peak(m, fs.drop_last());
        lemma_one_frame(before, fs.last());
        lemma_after_collisions(before, fs.last().collisions@);
    }
}

/// The high score never decreases: it is at least as large after more
/// frames.
pub proof fn lemma_high_score_monotone(m: GameModel, fs: Seq<FrameInput>, i: int, j: int)
    requires
        0 <= i <= j <= fs.len(),
    ensures
        run(m, fs.take(i)).high_score <= run(m, fs.take(j)).high_score,
    decreases j - i,
{
    if i < j {
        assert(fs.take(j).drop_last() =~= fs.take(j - 1));
        lemma_high_score_monotone(m, fs, i, j - 1);
        lemma_one_frame(run(m, fs.take(j - 1)), fs[j - 1]);
    }
}

/// Target ids are handed out consecutively from the counter, so every new
/// target's id is larger than those of all targets created before it, and
/// the counter ends one past the last id.
pub proof fn lemma_spawn_ids_increase(m: GameModel, fs: Seq<FrameInput>)
    ensures
        run(m, fs).next_target_id == m.next_target_id + spawn_ids(m, fs).len(),
        forall|i: int|
            0 <= i < spawn_ids(m, fs).len() ==> #[trigger] spawn_ids(m, fs)[i] == m.next_target_id
                + i,
        forall|i: int, j: int|
            0 <= i < j < spawn_ids(m, fs).len() ==> spawn_ids(m, fs)[i] < spawn_ids(m, fs)[j],
    decreases fs.len(),
{
    if fs.len() > 0 {
        let before = run(m, fs.drop_last());
        lemma_spawn_ids_increase(m, fs.drop_last());
        lemma_one_frame(before, fs.last());
        let ids = spawn_ids(m, fs);
        let prev = spawn_ids(m, fs.drop_last());
        assert forall|i: int| 0 <= i < ids.len() implies #[trigger] ids[i] == m.next_target_id
            + i by {
            if i >= prev.len() {
                assert(ids[i] == before.next_target_id + (i - prev.len()));
            } else {
                assert(ids[i] == prev[i]);
            }
        }
    }
}

/// The target counter grows by one for each click spawn and one for each
/// timer spawn; on a run without clicks it counts the timer spawns alone.
pub proof fn lemma_counter_counts_spawns(m: GameModel, fs: Seq<FrameInput>)
    ensures
        run(m, fs).next_target_id == m.next_target_id + mouse_spawn_count(fs) + timer_spawn_count(
            m,
            fs,
        ),
        (forall|i: int| 0 <= i < fs.len() ==> !mouse_spawns(#[trigger] fs[i]))
            ==> run(m, fs).next_target_id == m.next_target_id + timer_spawn_count(m, fs),
    decreases fs.len(),
{
    if fs.len() > 0 {
        let dl = fs.drop_last();
        lemma_counter_counts_spawns(m, dl);
        lemma_one_frame(run(m, dl), fs.last());
        lemma_no_clicks_count(fs);
    }
}

/// A run whose frames have no click spawn counts no click spawns.
pub proof fn lemma_no_clicks_count(fs: Seq<FrameInput>)
    ensures
        (forall|i: int| 0 <= i < fs.len() ==> !mouse_spawns(#[trigger] fs[i]))
            ==> mouse_spawn_count(fs) == 0,
    decreases fs.len(),
{
    if fs.len() > 0 {
        let dl = fs.drop_last();
        lemma_no_clicks_count(dl);
        if forall|i: int| 0 <= i < fs.len() ==> !mouse_spawns(#[trigger] fs[i]) {
            assert forall|i: int| 0 <= i < dl.len() implies !mouse_spawns(#[trigger] dl[i]) by {
                assert(dl[i] == fs[i]);
            }
            assert(!mouse_spawns(fs[fs.len() - 1]));
        }
    }
}

/// Steady cadence of the spawn timer: when no frame lasts longer than one
/// period, the number of timer spawns over a run is the total time divided
/// by the period, rounded down, counting the time already on the timer.
/// From a fresh timer that is `floor(T / 2 s)` after `T` nanoseconds.
pub proof fn lemma_timer_cadence(m: GameModel, fs: Seq<FrameInput>)
    requires
        m.timer_elapsed < SPAWN_PERIOD_NS,
        forall|i: int| 0 <= i < fs.len() ==> (#[trigger] fs[i]).delta_ns <= SPAWN_PERIOD_NS,
    ensures
        timer_spawn_count(m, fs) == (m.timer_elapsed + total_time(fs)) / (SPAWN_PERIOD_NS as nat),
        run(m, fs).timer_elapsed == (m.timer_elapsed + total_time(fs)) % (SPAWN_PERIOD_NS as nat),
    decreases fs.len(),
{
    if fs.len() > 0 {
        let dl = fs.drop_last();
        let f = fs.last();
        assert forall|i: int| 0 <= i < dl.len() implies (#[trigger] dl[i]).delta_ns
            <= SPAWN_PERIOD_NS by {
            assert(dl[i] == fs[i]);
        }
        lemma_timer_cadence(m, dl);
        let before = run(m, dl);
        lemma_after_collisions(before, f.collisions@);
        let p = SPAWN_PERIOD_NS as int;
        let x = (m.timer_elapsed + total_time(dl)) as int;
        let q = x / p;
        let r = x % p;
        let d = f.delta_ns as int;
        vstd::arithmetic::div_mod::lemma_fundamental_div_mod(x, p);
        assert(before.timer_elapsed == r);
        if r + d >= p {
            assert(x + d == (q + 1) * p + (r + d - p)) by (nonlinear_arith)
                requires
                    x == p * q + r,
            ;
            vstd::arithmetic::div_mod::lemma_fundamental_div_mod_converse(x + d, p, q + 1, r + d - p);
            vstd::arithmetic::div_mod::lemma_fundamental_div_mod_converse(r + d, p, 1, r + d - p);
        } else {
            assert(x + d == q * p + (r + d)) by (nonlinear_arith)
                requires
                    x == p * q + r,
            ;
            vstd::arithmetic::div_mod::lemma_fundamental_div_mod_converse(x + d, p, q, r + d);
            vstd::arithmetic::div_mod::lemma_fundamental_div_mod_converse(r + d, p, 0, r + d);
        }
    }
}

} // verus!
