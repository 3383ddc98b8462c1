use mouse_unlock::click::{label_text, parse_pattern, Click, BTN_LEFT, BTN_MIDDLE, BTN_RIGHT, EV_KEY};
use mouse_unlock::matcher::{same_clicks, Matcher};
use mouse_unlock::screen::Color;
use Click::{Left, Middle, Right};

const MS: u128 = 1_000_000;

#[test]
fn button_codes_are_those_of_the_input_devices() {
    assert_eq!(BTN_LEFT, evdev::Key::BTN_LEFT.code());
    assert_eq!(BTN_RIGHT, evdev::Key::BTN_RIGHT.code());
    assert_eq!(BTN_MIDDLE, evdev::Key::BTN_MIDDLE.code());
    assert_eq!(EV_KEY, evdev::EventType::KEY.0);
}

#[test]
fn keys_map_to_clicks() {
    assert_eq!(Click::from_key(evdev::Key::BTN_LEFT.code()), Some(Left));
    assert_eq!(Click::from_key(evdev::Key::BTN_RIGHT.code()), Some(Right));
    assert_eq!(Click::from_key(evdev::Key::BTN_MIDDLE.code()), Some(Middle));
    assert_eq!(Click::from_key(evdev::Key::BTN_SIDE.code()), None);
    assert_eq!(Click::from_key(evdev::Key::KEY_A.code()), None);
}

#[test]
fn only_presses_of_buttons_are_clicks() {
    assert_eq!(Click::from_event(EV_KEY, BTN_LEFT, 1), Some(Left));
    assert_eq!(Click::from_event(EV_KEY, BTN_LEFT, 0), None);
    assert_eq!(Click::from_event(EV_KEY, BTN_LEFT, 2), None);
    assert_eq!(Click::from_event(evdev::EventType::RELATIVE.0, BTN_LEFT, 1), None);
    for (t, code) in [(EV_KEY, BTN_RIGHT), (2, BTN_RIGHT), (EV_KEY, 30), (0, 0)] {
        let ev = evdev::InputEvent::new(evdev::EventType(t), code, 1);
        let want = match ev.kind() {
            evdev::InputEventKind::Key(k) => Click::from_key(k.code()),
            _ => None,
        };
        assert_eq!(Click::from_event(ev.event_type().0, ev.code(), ev.value()), want);
    }
}

#[test]
fn labels_and_colors() {
    assert_eq!((Left.label(), Right.label(), Middle.label()), ('L', 'R', 'M'));
    assert_eq!(Left.color(), Color::Green);
    assert_eq!(Right.color(), Color::Cyan);
    assert_eq!(Middle.color(), Color::Yellow);
}

#[test]
fn patterns_are_read_with_or_without_separators() {
    assert_eq!(parse_pattern("LLRRL"), vec![Left, Left, Right, Right, Left]);
    assert_eq!(parse_pattern("L,R,M"), vec![Left, Right, Middle]);
    assert_eq!(parse_pattern(" l - r ; m "), vec![Left, Right, Middle]);
    assert_eq!(parse_pattern("xyz 123 é"), vec![]);
    assert_eq!(parse_pattern(""), vec![]);
}

#[test]
fn a_pattern_reads_back_from_its_letters() {
    let p = vec![Middle, Left, Right, Right];
    assert_eq!(label_text(&p), "MLRR");
    assert_eq!(parse_pattern(&label_text(&p)), p);
    assert_eq!(label_text(&vec![]), "");
}

#[test]
fn rows_of_clicks_compare() {
    assert!(same_clicks(&vec![Left, Right], &vec![Left, Right]));
    assert!(!same_clicks(&vec![Left, Right], &vec![Left, Left]));
    assert!(!same_clicks(&vec![Left], &vec![Left, Right]));
    assert!(same_clicks(&vec![], &vec![]));
}

fn run(pattern: &str, timeout_ms: u64, clicks: &[(Click, u128)]) -> Vec<bool> {
    let mut m = Matcher::new(parse_pattern(pattern), timeout_ms, 0);
    clicks.iter().map(|(c, t)| m.click(*c, *t).matched).collect()
}

#[test]
fn the_pattern_in_time_unlocks_on_its_last_click() {
    let clicks: Vec<(Click, u128)> = parse_pattern("LLRRL")
        .into_iter()
        .enumerate()
        .map(|(i, c)| (c, 10 * MS * (i as u128 + 1)))
        .collect();
    assert_eq!(run("LLRRL", 2000, &clicks), vec![false, false, false, false, true]);
}

#[test]
fn clicks_before_the_pattern_do_not_matter() {
    let clicks: Vec<(Click, u128)> =
        parse_pattern("MRLLLRRL").into_iter().map(|c| (c, 5)).collect();
    assert_eq!(
        run("LLRRL", 2000, &clicks),
        vec![false, false, false, false, false, false, false, true]
    );
}

#[test]
fn a_pause_of_exactly_the_timeout_is_in_time() {
    assert_eq!(run("LR", 2000, &[(Left, 1), (Right, 1 + 2000 * MS)]), vec![false, true]);
    assert_eq!(run("LR", 2000, &[(Left, 1), (Right, 2 + 2000 * MS)]), vec![false, false]);
    assert_eq!(run("LR", 0, &[(Left, 7), (Right, 7)]), vec![false, true]);
    assert_eq!(run("LR", 0, &[(Left, 7), (Right, 8)]), vec![false, false]);
}

#[test]
fn a_long_first_pause_does_no_harm() {
    assert_eq!(run("L", 10, &[(Left, 1_000_000 * MS)]), vec![true]);
}

#[test]
fn a_clock_that_steps_back_counts_as_no_pause() {
    assert_eq!(run("LR", 10, &[(Left, 100 * MS), (Right, 5)]), vec![false, true]);
}

#[test]
fn a_match_uses_its_clicks_up() {
    let l = |t| (Left, t);
    assert_eq!(run("LL", 2000, &[l(1), l(2), l(3), l(4)]), vec![false, true, false, true]);
}

#[test]
fn a_pause_starts_the_window_over() {
    let mut m = Matcher::new(parse_pattern("LLR"), 100, 0);
    assert_eq!(m.click(Left, MS).window, vec![Left]);
    assert_eq!(m.click(Left, 2 * MS).window, vec![Left, Left]);
    let seen = m.click(Right, 500 * MS);
    assert_eq!(seen.window, vec![Right]);
    assert!(!seen.matched);
    assert_eq!(m.window(), vec![Right]);
}

#[test]
fn the_window_keeps_the_latest_clicks() {
    let mut m = Matcher::new(parse_pattern("RRR"), 100, 0);
    for c in [Left, Middle, Right, Left] {
        m.click(c, 1);
    }
    assert_eq!(m.window(), vec![Middle, Right, Left]);
    let mut m = Matcher::new(parse_pattern("LM"), 100, 0);
    m.click(Left, 1);
    assert!(m.click(Middle, 2).matched);
    assert_eq!(m.window(), vec![]);
}
