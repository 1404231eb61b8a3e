use terminal_typer::keys::Key;
use terminal_typer::round::Round;

#[test]
fn new_round_starts_fresh() {
    let r = Round::new("ab".to_string(), 1000);
    assert_eq!(r.text.curr_index, 0);
    assert!(!r.is_complete());
    assert_eq!(r.start_time, 1000);
    assert_eq!(r.end_time, None);
}

#[test]
fn elapsed_runs_live_then_freezes_at_completion() {
    let mut r = Round::new("ab".to_string(), 1000);
    assert_eq!(r.elapsed_millis(1500), 500);
    assert_eq!(r.elapsed_millis(4000), 3000);
    r.handle_input(Key::Char('a'), 2000);
    assert!(!r.is_complete());
    r.handle_input(Key::Char('b'), 3000);
    assert!(r.is_complete());
    assert_eq!(r.end_time, Some(3000));
    // frozen: later clock readings no longer matter
    assert_eq!(r.elapsed_millis(99_000), 2000);
}

#[test]
fn end_time_latches_against_further_keys() {
    let mut r = Round::new("ab".to_string(), 0);
    r.handle_input(Key::Char('a'), 10);
    r.handle_input(Key::Char('b'), 20);
    assert_eq!(r.end_time, Some(20));
    // a character at the end is ignored and the latch is kept
    r.handle_input(Key::Char('q'), 30);
    assert_eq!(r.end_time, Some(20));
    assert_eq!(r.text.curr_index, 2);
    // backspace still steps back, but the latch is kept
    r.handle_input(Key::Backspace, 40);
    assert_eq!(r.end_time, Some(20));
    assert_eq!(r.text.curr_index, 1);
    // retyping completes again without overwriting the latch
    r.handle_input(Key::Char('b'), 50);
    assert_eq!(r.end_time, Some(20));
}

#[test]
fn empty_phrase_round_completes_on_first_key() {
    let mut r = Round::new(String::new(), 100);
    assert!(r.text.is_completed());
    assert!(!r.is_complete());
    r.handle_input(Key::Char('a'), 150);
    assert!(r.is_complete());
    assert_eq!(r.text.curr_index, 0);
    assert_eq!(r.elapsed_millis(9_999), 50);
    assert_eq!(r.calculate_wpm(9_999), 0);
}

#[test]
fn other_keys_leave_the_round_alone() {
    let mut r = Round::new("ab".to_string(), 0);
    r.handle_input(Key::Enter, 10);
    r.handle_input(Key::Other, 20);
    assert_eq!(r.text.curr_index, 0);
    assert!(!r.is_complete());
}

#[test]
fn wpm_is_words_over_elapsed_minutes() {
    let mut r = Round::new("ab cd".to_string(), 0);
    for c in ['a', 'b', ' ', 'c', 'd'] {
        r.handle_input(Key::Char(c), 30_000);
    }
    assert!(r.is_complete());
    // 1 stride word in half a minute: 2 words per minute
    assert_eq!(r.calculate_wpm(99_000), 2);
}

#[test]
fn wpm_rounds_to_the_nearest_whole_number() {
    let mut r = Round::new("ab cd".to_string(), 0);
    for c in ['a', 'b', ' ', 'c', 'd'] {
        r.handle_input(Key::Char(c), 24_000);
    }
    // 1 word in 24 s is 2.5 wpm, rounded up to 3
    assert_eq!(r.calculate_wpm(0), 3);
}

#[test]
fn wpm_is_zero_when_no_time_has_passed() {
    let mut r = Round::new("ab".to_string(), 500);
    r.handle_input(Key::Char('a'), 500);
    r.handle_input(Key::Char('b'), 500);
    assert!(r.is_complete());
    assert_eq!(r.calculate_wpm(500), 0);
}

#[test]
fn wpm_of_a_running_round_uses_the_clock() {
    let mut r = Round::new("abcdef".to_string(), 0);
    for c in ['a', 'b', 'c', 'd', 'e'] {
        r.handle_input(Key::Char(c), 10_000);
    }
    assert!(!r.is_complete());
    // 1 stride word in 20 s reads as 3 wpm
    assert_eq!(r.calculate_wpm(20_000), 3);
}
