//! The game's persistent state and the per-frame update.

use vstd::prelude::*;
use crate::collision::{
    count_scoring, is_scoring, label_views, removed_by, removed_labels, CollisionEvent,
};
use crate::text::{high_score_text, high_score_text_of, score_text, score_text_of, target_label, target_label_of};
use crate::timer::{elapsed_after, tick_fires, SpawnTimer, SPAWN_PERIOD_NS};

verus! {

/// Abstract view of [`GameState`].
pub struct GameModel {
    pub high_score: nat,
    pub score: nat,
    pub next_target_id: nat,
    pub timer_elapsed: nat,
}

/// The persistent game record: scores, the id of the next target, and the
/// spawn timer.
pub struct GameState {
    pub high_score: u32,
    pub score: u32,
    pub next_target_id: u64,
    pub spawn_timer: SpawnTimer,
}

impl View for GameState {
    type V = GameModel;

    open spec fn view(&self) -> GameModel {
        GameModel {
            high_score: self.high_score as nat,
            score: self.score as nat,
            next_target_id: self.next_target_id as nat,
            timer_elapsed: self.spawn_timer.elapsed_ns as nat,
        }
    }
}

/// The high score is at least the score, and the timer is inside its period.
pub open spec fn model_wf(m: GameModel) -> bool {
    m.score <= m.high_score && m.timer_elapsed < SPAWN_PERIOD_NS
}

/// One point scored.
pub open spec fn scored(m: GameModel) -> GameModel {
    let s = m.score + 1;
    GameModel { score: s, high_score: if s > m.high_score { s } else { m.high_score }, ..m }
}

/// The state after one collision event.
pub open spec fn after_event(m: GameModel, e: CollisionEvent) -> GameModel {
    if is_scoring(e) {
        scored(m)
    } else {
        m
    }
}

/// The state after the collision events `evs`, taken in order.
pub open spec fn after_collisions(m: GameModel, evs: Seq<CollisionEvent>) -> GameModel
    decreases evs.len(),
{
    if evs.len() == 0 {
        m
    } else {
        after_event(after_collisions(m, evs.drop_last()), evs.last())
    }
}

/// One target id handed out.
pub open spec fn spawned(m: GameModel) -> GameModel {
    GameModel { next_target_id: m.next_target_id + 1, ..m }
}

/// The score set back to zero.
pub open spec fn reset(m: GameModel) -> GameModel {
    GameModel { score: 0, ..m }
}

/// What the host observed during one frame.
pub struct FrameInput {
    /// The quit key was pressed this frame.
    pub quit_pressed: bool,
    /// The reset key was pressed this frame.
    pub reset_pressed: bool,
    /// Directional keys held down.
    pub up: bool,
    pub down: bool,
    pub left: bool,
    pub right: bool,
    /// The primary mouse button was pressed this frame.
    pub mouse_clicked: bool,
    /// The cursor position is known.
    pub cursor_available: bool,
    /// Time since the previous frame, in nanoseconds.
    pub delta_ns: u64,
    /// Collision events queued since the previous frame, in order.
    pub collisions: Vec<CollisionEvent>,
}

/// Where a new target goes.
#[derive(PartialEq, Eq, Structural, Clone, Copy, Debug)]
pub enum SpawnPlace {
    /// At the mouse cursor.
    AtCursor,
    /// At a uniformly random point of the play area.
    Random,
}

/// A target to create.
pub struct Spawn {
    pub id: u64,
    pub label: String,
    pub place: SpawnPlace,
}

/// What the host must do at the end of a frame.
pub struct FrameActions {
    /// Stop the game after this frame.
    pub exit: bool,
    /// Sprites to remove, by label, in order.
    pub removals: Vec<String>,
    /// Number of times to play the collision sound.
    pub sound_effects: usize,
    /// New text of the score label, if it changed.
    pub score_text: Option<String>,
    /// New text of the high-score label, if it changed.
    pub high_score_text: Option<String>,
    /// Direction of the player's move on each axis, -1, 0 or 1; the host
    /// scales it by speed and frame time.
    pub step_x: i8,
    pub step_y: i8,
    /// Targets to create, in order.
    pub spawns: Vec<Spawn>,
}

/// The mouse click spawns a target this frame.
pub open spec fn mouse_spawns(f: FrameInput) -> bool {
    f.mouse_clicked && f.cursor_available
}

/// The state after the mouse spawn of a frame, before the timer.
pub open spec fn after_mouse(m: GameModel, f: FrameInput) -> GameModel {
    let m1 = after_collisions(m, f.collisions@);
    if mouse_spawns(f) {
        spawned(m1)
    } else {
        m1
    }
}

/// The spawn timer completes a period during the frame.
pub open spec fn timer_spawns(m: GameModel, f: FrameInput) -> bool {
    tick_fires(m.timer_elapsed, f.delta_ns as nat)
}

/// Number of targets a frame creates.
pub open spec fn frame_spawns(m: GameModel, f: FrameInput) -> nat {
    (if mouse_spawns(f) { 1nat } else { 0nat }) + (if timer_spawns(m, f) { 1nat } else { 0nat })
}

/// The state after one frame: collisions, mouse spawn, timer spawn, reset.
pub open spec fn after_frame(m: GameModel, f: FrameInput) -> GameModel {
    let m2 = after_mouse(m, f);
    let m3 = GameModel { timer_elapsed: elapsed_after(m2.timer_elapsed, f.delta_ns as nat), ..m2 };
    let m4 = if timer_spawns(m, f) { spawned(m3) } else { m3 };
    if f.reset_pressed {
        reset(m4)
    } else {
        m4
    }
}

/// Direction of a move along one axis from its two keys.
pub open spec fn axis(neg: bool, pos: bool) -> int {
    (if pos { 1int } else { 0int }) - (if neg { 1int } else { 0int })
}

/// Direction of a move along one axis from its two keys.
pub fn axis_step(neg: bool, pos: bool) -> (r: i8)
    ensures
        r == axis(neg, pos),
{
    let mut r: i8 = 0;
    if pos {
        r = r + 1;
    }
    if neg {
        r = r - 1;
    }
    r
}

impl Default for GameState {
    /// A fresh game, as [`GameState::new`].
    fn default() -> (r: GameState)
        ensures
            r@ == (GameModel { high_score: 0, score: 0, next_target_id: 0, timer_elapsed: 0 }),
            r.wf(),
    {
        GameState::new()
    }
}

impl GameState {
    pub open spec fn wf(&self) -> bool {
        model_wf(self@)
    }

    /// Whether the state is well formed: the high score is at least the
    /// score, and the timer is inside its period.
    pub fn is_well_formed(&self) -> (r: bool)
        ensures
            r == self.wf(),
    {
        self.score <= self.high_score && self.spawn_timer.elapsed_ns < SPAWN_PERIOD_NS
    }

    /// A fresh game: no score, no targets, timer at zero.
    pub fn new() -> (r: GameState)
        ensures
            r@ == (GameModel { high_score: 0, score: 0, next_target_id: 0, timer_elapsed: 0 }),
            r.wf(),
    {
        GameState { high_score: 0, score: 0, next_target_id: 0, spawn_timer: SpawnTimer::new() }
    }

    /// Applies one collision event: a scoring event adds a point, raises
    /// the high score when passed, and appends the labels to remove.
    pub fn resolve_collision(
        &mut self,
        event: &CollisionEvent,
        removals: &mut Vec<String>,
    ) -> (r: bool)
        requires
            old(self).wf(),
            is_scoring(*event) ==> old(self).score < u32::MAX,
        ensures
            r == is_scoring(*event),
            final(self)@ == after_event(old(self)@, *event),
            final(self).wf(),
            label_views(final(removals)@) == label_views(old(removals)@) + removed_by(*event),
    {
        event.push_removed(removals);
        if event.is_scoring() {
            self.score = self.score + 1;
            if self.score > self.high_score {
                self.high_score = self.score;
            }
            true
        } else {
            false
        }
    }

    /// Hands out the next target id and the target's label.
    pub fn spawn_target(&mut self, place: SpawnPlace) -> (r: Spawn)
        requires
            old(self).next_target_id < u64::MAX,
        ensures
            final(self)@ == spawned(old(self)@),
            r.id == old(self).next_target_id,
            r.label@ == target_label_of(r.id as nat),
            r.place == place,
    {
        let id = self.next_target_id;
        self.next_target_id = id + 1;
        Spawn { id, label: target_label(id), place }
    }

    /// Sets the score back to zero and returns the new score text; the
    /// high score and the target counter stay as they are.
    pub fn reset_score(&mut self) -> (r: String)
        requires
            old(self).wf(),
        ensures
            final(self).score == 0,
            final(self).high_score == old(self).high_score,
            final(self).next_target_id == old(self).next_target_id,
            final(self).spawn_timer == old(self).spawn_timer,
            final(self)@ == reset(old(self)@),
            final(self).wf(),
            r@ == score_text_of(0),
    {
        self.score = 0;
        score_text(0)
    }

    /// Runs one frame: resolves collisions in queue order, then the mouse
    /// spawn, then the timer spawn, then the reset.
    pub fn advance(&mut self, input: &FrameInput) -> (r: FrameActions)
        requires
            old(self).wf(),
            old(self).score + count_scoring(input.collisions@) <= u32::MAX,
            old(self).next_target_id + frame_spawns(old(self)@, *input) <= u64::MAX,
        ensures
            final(self)@ == after_frame(old(self)@, *input),
            final(self).wf(),
            r.exit == input.quit_pressed,
            label_views(r.removals@) == removed_labels(input.collisions@),
            r.sound_effects == input.collisions@.len(),
            r.step_x == axis(input.left, input.right),
            r.step_y == axis(input.down, input.up),
            ({
                let m1 = after_collisions(old(self)@, input.collisions@);
                &&& input.reset_pressed ==> r.score_text is Some && r.score_text->0@ == score_text_of(0)
                &&& !input.reset_pressed && count_scoring(input.collisions@) > 0 ==> r.score_text is Some
                    && r.score_text->0@ == score_text_of(m1.score)
                &&& !input.reset_pressed && count_scoring(input.collisions@) == 0 ==> r.score_text is None
                &&& m1.high_score > old(self).high_score ==> r.high_score_text is Some
                    && r.high_score_text->0@ == high_score_text_of(m1.high_score)
                &&& m1.high_score == old(self).high_score ==> r.high_score_text is None
            }),
            r.spawns@.len() == frame_spawns(old(self)@, *input),
            forall|i: int|
                0 <= i < r.spawns@.len() ==> {
                    &&& r.spawns@[i].id == old(self).next_target_id + i
                    &&& r.spawns@[i].label@ == target_label_of(r.spawns@[i].id as nat)
                    &&& r.spawns@[i].place == if i == 0 && mouse_spawns(*input) {
                        SpawnPlace::AtCursor
                    } else {
                        SpawnPlace::Random
                    }
                },
    {
        let ghost m0 = self@;
        let ghost evs = input.collisions@;
        let old_high = self.high_score;
        let mut removals: Vec<String> = Vec::new();
        let mut scored_any = false;
        let mut i: usize = 0;
        while i < input.collisions.len()
            invariant
                i <= evs.len(),
                evs == input.collisions@,
                model_wf(m0),
                m0.score + count_scoring(evs) <= u32::MAX,
                self.wf(),
                self@ == after_collisions(m0, evs.take(i as int)),
                self.high_score >= old_high,
                self@.score == m0.score + count_scoring(evs.take(i as int)),
                scored_any == (count_scoring(evs.take(i as int)) > 0),
                label_views(removals@) == removed_labels(evs.take(i as int)),
                old_high == m0.high_score,
                self.next_target_id == m0.next_target_id,
                self.spawn_timer.elapsed_ns == m0.timer_elapsed,
            decreases evs.len() - i,
        {
            proof {
                assert(evs.take(i as int + 1).drop_last() =~= evs.take(i as int));
                lemma_count_scoring_prefix(evs, i as int + 1);
            }
            let s = self.resolve_collision(&input.collisions[i], &mut removals);
            if s {
                scored_any = true;
            }
            i = i + 1;
        }
        proof {
            assert(evs.take(i as int) =~= evs);
            lemma_after_collisions(m0, evs);
        }
        let mut score_label: Option<String> = if scored_any {
            Some(score_text(self.score))
        } else {
            None
        };
        let high_score_label: Option<String> = if self.high_score > old_high {
            Some(high_score_text(self.high_score))
        } else {
            None
        };
        let step_x = axis_step(input.left, input.right);
        let step_y = axis_step(input.down, input.up);
        let mut spawns: Vec<Spawn> = Vec::new();
        if input.mouse_clicked && input.cursor_available {
            spawns.push(self.spawn_target(SpawnPlace::AtCursor));
        }
        if self.spawn_timer.tick(input.delta_ns) {
            spawns.push(self.spawn_target(SpawnPlace::Random));
        }
        if input.reset_pressed {
            score_label = Some(self.reset_score());
        }
        FrameActions {
            exit: input.quit_pressed,
            removals,
            sound_effects: input.collisions.len(),
            score_text: score_label,
            high_score_text: high_score_label,
            step_x,
            step_y,
            spawns,
        }
    }
}

/// Collisions change only the scores: the score grows by the number of
/// scoring events, and from a well-formed state the high score becomes the
/// larger of the old high score and the new score.
pub proof fn lemma_after_collisions(m: GameModel, evs: Seq<CollisionEvent>)
    ensures
        after_collisions(m, evs).score == m.score + count_scoring(evs),
        after_collisions(m, evs).next_target_id == m.next_target_id,
        after_collisions(m, evs).timer_elapsed == m.timer_elapsed,
        after_collisions(m, evs).high_score >= m.high_score,
        model_wf(m) ==> model_wf(after_collisions(m, evs)),
        model_wf(m) ==> after_collisions(m, evs).high_score == if m.high_score
            >= after_collisions(m, evs).score {
            m.high_score
        } else {
            after_collisions(m, evs).score
        },
    decreases evs.len(),
{
    if evs.len() > 0 {
        lemma_after_collisions(m, evs.drop_last());
    }
}

/// A prefix of `evs` holds no more scoring events than `evs` does, nor more
/// than its own length.
pub proof fn lemma_count_scoring_prefix(evs: Seq<CollisionEvent>, k: int)
    requires
        0 <= k <= evs.len(),
    ensures
        count_scoring(evs.take(k)) <= count_scoring(evs),
        count_scoring(evs.take(k)) <= k,
    decreases evs.len(),
{
    if evs.len() > 0 {
        if k < evs.len() {
            assert(evs.drop_last().take(k) =~= evs.take(k));
            lemma_count_scoring_prefix(evs.drop_last(), k);
        } else {
            assert(evs.take(k) =~= evs);
            assert(evs.drop_last().take(k - 1) =~= evs.drop_last());
            lemma_count_scoring_prefix(evs.drop_last(), k - 1);
        }
    }
}

} // verus!
