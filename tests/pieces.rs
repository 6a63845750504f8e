use ferris_game::collision::CollisionEvent;
use ferris_game::text::{high_score_text, is_player_label, score_text, starts_with, target_label};
use ferris_game::timer::{SpawnTimer, SPAWN_PERIOD_NS};

#[test]
fn label_texts() {
    assert_eq!(score_text(0), "Score: 0");
    assert_eq!(score_text(4_294_967_295), "Score: 4294967295");
    assert_eq!(high_score_text(120), "High Score: 120");
    assert_eq!(target_label(0), "ferris0");
    assert_eq!(target_label(31), "ferris31");
}

#[test]
fn prefix_tests() {
    assert!(starts_with("player", "player"));
    assert!(starts_with("player2", "player"));
    assert!(!starts_with("play", "player"));
    assert!(!starts_with("ferris0", "player"));
    assert!(starts_with("anything", ""));
    assert!(is_player_label("player"));
    assert!(!is_player_label("player1"));
    assert!(!is_player_label("playe"));
}

#[test]
fn scoring_needs_the_player() {
    let e = |b: bool, x: &str, y: &str| CollisionEvent { begin: b, first: x.to_string(), second: y.to_string() };
    assert!(e(true, "player", "ferris3").is_scoring());
    assert!(e(true, "ferris3", "player").is_scoring());
    assert!(!e(false, "player", "ferris3").is_scoring());
    assert!(e(true, "player", "player1").is_scoring());
    assert!(e(true, "player", "player").is_scoring());
    assert!(!e(true, "player1", "ferris3").is_scoring());
    assert!(!e(true, "ferris1", "ferris3").is_scoring());
}

#[test]
fn removed_labels_skip_the_player() {
    let ev = CollisionEvent { begin: true, first: "ferris3".to_string(), second: "player".to_string() };
    let mut out = vec!["earlier".to_string()];
    ev.push_removed(&mut out);
    assert_eq!(out, vec!["earlier", "ferris3"]);
    let miss = CollisionEvent { begin: false, first: "ferris3".to_string(), second: "player".to_string() };
    miss.push_removed(&mut out);
    assert_eq!(out.len(), 2);
}

#[test]
fn timer_carries_remainder() {
    let mut t = SpawnTimer::new();
    assert!(!t.tick(1_500_000_000));
    assert_eq!(t.elapsed_ns, 1_500_000_000);
    assert!(t.tick(1_000_000_000));
    assert_eq!(t.elapsed_ns, 500_000_000);
    assert!(!t.tick(1_499_999_999));
    assert!(t.tick(1));
    assert_eq!(t.elapsed_ns, 0);
}

#[test]
fn long_tick_fires_once() {
    let mut t = SpawnTimer::new();
    assert!(t.tick(5 * SPAWN_PERIOD_NS + 7));
    assert_eq!(t.elapsed_ns, 7);
    assert!(t.tick(u64::MAX));
    assert_eq!(t.elapsed_ns, (7 + u64::MAX % SPAWN_PERIOD_NS) % SPAWN_PERIOD_NS);
}

#[test]
fn well_formed_states() {
    let mut g = ferris_game::game::GameState::new();
    assert!(g.is_well_formed());
    g.score = 3;
    assert!(!g.is_well_formed());
    g.high_score = 3;
    assert!(g.is_well_formed());
    g.spawn_timer.elapsed_ns = SPAWN_PERIOD_NS;
    assert!(!g.is_well_formed());
}
