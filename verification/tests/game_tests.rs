use terminal_typer::game::{Game, GameStatus};
use terminal_typer::keys::Key;

#[test]
fn a_new_game_waits() {
    let g = Game::new();
    assert!(matches!(g.get_status(), GameStatus::Waiting));
    assert_eq!(g.record.len(), 0);
    assert_eq!(g.elapsed_time(123), 0);
}

#[test]
fn enter_starts_a_round_and_escape_quits_in_any_phase() {
    let mut g = Game::new();
    assert!(g.handle_input(Key::Esc, 0));
    assert!(matches!(g.get_status(), GameStatus::Waiting));

    let quit = g.handle_input(Key::Enter, 1000);
    assert!(!quit);
    assert!(matches!(g.get_status(), GameStatus::Ongoing(_)));

    // escape pre-empts everything, in this phase too, and changes nothing
    assert!(g.handle_input(Key::Esc, 2000));
    assert!(matches!(g.get_status(), GameStatus::Ongoing(_)));
    assert_eq!(g.record.len(), 0);
}

#[test]
fn other_keys_leave_waiting_and_complete_alone() {
    let mut g = Game::new();
    assert!(!g.handle_input(Key::Char('z'), 10));
    assert!(!g.handle_input(Key::Backspace, 20));
    assert!(!g.handle_input(Key::Other, 30));
    assert!(matches!(g.get_status(), GameStatus::Waiting));
}

#[test]
fn elapsed_time_follows_the_running_round() {
    let mut g = Game::new();
    g.handle_input(Key::Enter, 1000);
    assert_eq!(g.elapsed_time(1000), 0);
    assert_eq!(g.elapsed_time(3500), 2500);
}

fn finish_current_round(g: &mut Game, mut now: u64) -> u64 {
    let n = match g.get_status() {
        GameStatus::Ongoing(round) => round.text.len(),
        _ => panic!("no round is running"),
    };
    assert!(n > 0, "the generated phrase is never empty");
    for _ in 0..n {
        now += 100;
        g.handle_input(Key::Char('x'), now);
    }
    now
}

#[test]
fn completing_a_round_appends_exactly_one_record() {
    let mut g = Game::new();
    g.handle_input(Key::Enter, 1000);
    let now = finish_current_round(&mut g, 1000);
    assert!(matches!(g.get_status(), GameStatus::Complete));
    assert_eq!(g.record.len(), 1);
    assert!(g.record[0].is_complete());
    assert!(g.record[0].text.is_completed());
    assert_eq!(g.elapsed_time(now + 500), 0);

    // escape still quits from the leaderboard, and changes nothing
    assert!(g.handle_input(Key::Esc, now + 600));
    assert!(matches!(g.get_status(), GameStatus::Complete));
    assert_eq!(g.record.len(), 1);

    // enter starts a fresh round; the record keeps its one entry
    g.handle_input(Key::Enter, now + 1000);
    match g.get_status() {
        GameStatus::Ongoing(round) => {
            assert_eq!(round.text.curr_index, 0);
            assert!(!round.is_complete());
        }
        _ => panic!("enter must start a round from the leaderboard"),
    }
    assert_eq!(g.record.len(), 1);
}

#[test]
fn two_completed_rounds_are_recorded_in_order() {
    let mut g = Game::new();
    g.handle_input(Key::Enter, 0);
    let first_len = match g.get_status() {
        GameStatus::Ongoing(round) => round.text.len(),
        _ => panic!("no round is running"),
    };
    let now = finish_current_round(&mut g, 0);
    g.handle_input(Key::Enter, now + 10);
    let second_len = match g.get_status() {
        GameStatus::Ongoing(round) => round.text.len(),
        _ => panic!("no round is running"),
    };
    finish_current_round(&mut g, now + 10);
    assert!(matches!(g.get_status(), GameStatus::Complete));
    assert_eq!(g.record.len(), 2);
    assert_eq!(g.record[0].text.len(), first_len);
    assert_eq!(g.record[1].text.len(), second_len);
    // the second phrase asks for ten words, the first for five
    assert!(second_len > first_len);
}

#[test]
fn keys_reach_the_running_round() {
    let mut g = Game::new();
    g.handle_input(Key::Enter, 0);
    g.handle_input(Key::Char('x'), 10);
    g.handle_input(Key::Char('y'), 20);
    g.handle_input(Key::Backspace, 30);
    match g.get_status() {
        GameStatus::Ongoing(round) => {
            assert_eq!(round.text.curr_index, 1);
            assert_eq!(round.text.get_usr_given_char(0), Some('x'));
            assert_eq!(round.text.get_usr_given_char(1), None);
        }
        _ => panic!("the round must still be running"),
    }
    assert_eq!(g.record.len(), 0);
}
