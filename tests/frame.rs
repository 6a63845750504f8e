use ferris_game::collision::{scoring_events, CollisionEvent};
use ferris_game::game::{FrameInput, GameState, SpawnPlace};

fn event(begin: bool, a: &str, b: &str) -> CollisionEvent {
    CollisionEvent { begin, first: a.to_string(), second: b.to_string() }
}

fn idle(delta_ns: u64) -> FrameInput {
    FrameInput {
        quit_pressed: false,
        reset_pressed: false,
        up: false,
        down: false,
        left: false,
        right: false,
        mouse_clicked: false,
        cursor_available: false,
        delta_ns,
        collisions: Vec::new(),
    }
}

#[test]
fn three_hits_then_reset() {
    let mut g = GameState::new();
    let mut f = idle(0);
    f.collisions = vec![
        event(true, "player", "ferris0"),
        event(true, "ferris1", "player"),
        event(true, "player", "ferris2"),
    ];
    let a = g.advance(&f);
    assert_eq!(g.score, 3);
    assert_eq!(g.high_score, 3);
    assert_eq!(a.score_text.as_deref(), Some("Score: 3"));
    assert_eq!(a.high_score_text.as_deref(), Some("High Score: 3"));
    assert_eq!(a.removals, vec!["ferris0", "ferris1", "ferris2"]);
    assert_eq!(a.sound_effects, 3);

    let mut r = idle(0);
    r.reset_pressed = true;
    let a = g.advance(&r);
    assert_eq!(g.score, 0);
    assert_eq!(g.high_score, 3);
    assert_eq!(a.score_text.as_deref(), Some("Score: 0"));
    assert_eq!(a.high_score_text, None);
}

#[test]
fn click_spawns_one_target_at_cursor() {
    let mut g = GameState::new();
    g.next_target_id = 5;
    let mut f = idle(0);
    f.mouse_clicked = true;
    f.cursor_available = true;
    let a = g.advance(&f);
    assert_eq!(a.spawns.len(), 1);
    assert_eq!(a.spawns[0].id, 5);
    assert_eq!(a.spawns[0].label, "ferris5");
    assert_eq!(a.spawns[0].place, SpawnPlace::AtCursor);
    assert_eq!(g.next_target_id, 6);
}

#[test]
fn click_without_cursor_spawns_nothing() {
    let mut g = GameState::new();
    let mut f = idle(0);
    f.mouse_clicked = true;
    let a = g.advance(&f);
    assert!(a.spawns.is_empty());
    assert_eq!(g.next_target_id, 0);
}

#[test]
fn score_counts_begin_events_with_the_player() {
    let mut g = GameState::new();
    let mut f = idle(0);
    f.collisions = vec![
        event(true, "player", "ferris0"),
        event(false, "player", "ferris1"),
        event(true, "ferris2", "ferris3"),
        event(true, "player", "player2"),
        event(true, "ferris4", "player"),
    ];
    assert_eq!(scoring_events(&f.collisions), 3);
    let a = g.advance(&f);
    assert_eq!(g.score, 3);
    assert_eq!(g.high_score, 3);
    assert_eq!(a.removals, vec!["ferris0", "player2", "ferris4"]);
    // the sound plays once per drained event, scoring or not
    assert_eq!(a.sound_effects, 5);
}

#[test]
fn player_prefix_alone_does_not_score() {
    let mut g = GameState::new();
    let mut f = idle(0);
    f.collisions = vec![event(true, "player_shadow", "ferris9")];
    let a = g.advance(&f);
    assert_eq!(g.score, 0);
    assert!(a.removals.is_empty());
    assert_eq!(a.score_text, None);
    assert_eq!(a.sound_effects, 1);
}

#[test]
fn player_with_prefixed_label_scores() {
    let mut g = GameState::new();
    let mut f = idle(0);
    f.collisions = vec![event(true, "player", "player2")];
    let a = g.advance(&f);
    assert_eq!(g.score, 1);
    assert_eq!(g.high_score, 1);
    assert_eq!(a.removals, vec!["player2"]);
    assert_eq!(a.high_score_text.as_deref(), Some("High Score: 1"));
}

#[test]
fn non_player_pair_with_reset_keeps_high_score() {
    let mut g = GameState::new();
    let mut f = idle(0);
    f.collisions = vec![event(true, "ferris0", "player2")];
    f.reset_pressed = true;
    let a = g.advance(&f);
    assert_eq!(g.score, 0);
    assert_eq!(g.high_score, 0);
    assert_eq!(a.high_score_text, None);
    assert!(a.removals.is_empty());
}

#[test]
fn no_events_leave_texts_alone() {
    let mut g = GameState::new();
    let a = g.advance(&idle(1_000));
    assert_eq!(a.score_text, None);
    assert_eq!(a.high_score_text, None);
    assert!(a.removals.is_empty());
    assert_eq!(a.sound_effects, 0);
    assert!(!a.exit);
}

#[test]
fn high_score_only_rises() {
    let mut g = GameState::new();
    let mut hit = idle(0);
    hit.collisions = vec![event(true, "player", "ferris0"), event(true, "player", "ferris1")];
    g.advance(&hit);
    let mut r = idle(0);
    r.reset_pressed = true;
    g.advance(&r);
    let mut one = idle(0);
    one.collisions = vec![event(true, "player", "ferris2")];
    let a = g.advance(&one);
    assert_eq!(g.score, 1);
    assert_eq!(g.high_score, 2);
    assert_eq!(a.score_text.as_deref(), Some("Score: 1"));
    assert_eq!(a.high_score_text, None);
    let a = g.advance(&hit);
    assert_eq!(g.score, 3);
    assert_eq!(g.high_score, 3);
    assert_eq!(a.high_score_text.as_deref(), Some("High Score: 3"));
}

#[test]
fn reset_keeps_high_score_and_counter() {
    let mut g = GameState::new();
    g.score = 7;
    g.high_score = 9;
    g.next_target_id = 4;
    let t = g.reset_score();
    assert_eq!(t, "Score: 0");
    assert_eq!(g.score, 0);
    assert_eq!(g.high_score, 9);
    assert_eq!(g.next_target_id, 4);
}

#[test]
fn reset_wipes_same_frame_hits() {
    let mut g = GameState::new();
    let mut f = idle(0);
    f.collisions = vec![event(true, "player", "ferris0")];
    f.reset_pressed = true;
    let a = g.advance(&f);
    assert_eq!(g.score, 0);
    assert_eq!(g.high_score, 1);
    assert_eq!(a.score_text.as_deref(), Some("Score: 0"));
    assert_eq!(a.high_score_text.as_deref(), Some("High Score: 1"));
}

#[test]
fn spawn_ids_strictly_increase() {
    let mut g = GameState::new();
    let mut ids: Vec<u64> = Vec::new();
    for k in 0..10u64 {
        let mut f = idle(700_000_000);
        f.mouse_clicked = k % 3 == 0;
        f.cursor_available = true;
        f.reset_pressed = k == 4;
        let before = g.next_target_id;
        let a = g.advance(&f);
        assert_eq!(g.next_target_id, before + a.spawns.len() as u64);
        for s in a.spawns {
            assert_eq!(s.label, format!("ferris{}", s.id));
            ids.push(s.id);
        }
    }
    assert!(!ids.is_empty());
    for w in ids.windows(2) {
        assert!(w[0] < w[1]);
    }
}

#[test]
fn click_and_timer_in_one_frame() {
    let mut g = GameState::new();
    let mut f = idle(2_000_000_000);
    f.mouse_clicked = true;
    f.cursor_available = true;
    let a = g.advance(&f);
    assert_eq!(a.spawns.len(), 2);
    assert_eq!(a.spawns[0].id, 0);
    assert_eq!(a.spawns[0].place, SpawnPlace::AtCursor);
    assert_eq!(a.spawns[1].id, 1);
    assert_eq!(a.spawns[1].place, SpawnPlace::Random);
    assert_eq!(a.spawns[1].label, "ferris1");
}

#[test]
fn timer_spawns_follow_elapsed_time() {
    // 60 frames per second for ten seconds
    let mut g = GameState::new();
    let delta: u64 = 16_666_667;
    let mut timer_spawns: u64 = 0;
    let mut total: u64 = 0;
    for _ in 0..600 {
        let a = g.advance(&idle(delta));
        total += delta;
        timer_spawns += a.spawns.iter().filter(|s| s.place == SpawnPlace::Random).count() as u64;
    }
    assert_eq!(timer_spawns, total / 2_000_000_000);
    assert_eq!(timer_spawns, 5);
    assert_eq!(g.spawn_timer.elapsed_ns, total % 2_000_000_000);
}

#[test]
fn movement_steps() {
    let mut g = GameState::new();
    let mut f = idle(0);
    f.up = true;
    f.right = true;
    let a = g.advance(&f);
    assert_eq!((a.step_x, a.step_y), (1, 1));
    f.down = true;
    f.left = true;
    f.right = false;
    let a = g.advance(&f);
    assert_eq!((a.step_x, a.step_y), (-1, 0));
    f.up = false;
    let a = g.advance(&f);
    assert_eq!((a.step_x, a.step_y), (-1, -1));
}

#[test]
fn quit_key_asks_to_exit() {
    let mut g = GameState::default();
    let mut f = idle(0);
    f.quit_pressed = true;
    assert!(g.advance(&f).exit);
}
