use chlue::cursor::{KeyPress, Outcome, Select};
use chlue::selector::{closing, labels_of, Selector};

const UP_ZERO: &str = "\x1B[0A";
const CLEAR: &str = "\x1B[2K";
const BOLD: &str = "\x1B[1m";
const RESET: &str = "\x1B[m";
const HIDE: &str = "\x1B[?25l";
const SHOW: &str = "\x1B[?25h";
const GREEN: &str = "\x1B[38;5;2m";

fn rooms() -> Vec<String> {
    vec!["Kitchen".to_string(), "Lounge".to_string(), "Office".to_string()]
}

#[test]
fn closing_shows_the_cursor_on_a_fresh_line() {
    assert_eq!(closing(), "\n\r\x1B[?25h");
    assert_eq!(closing(), format!("\n\r{}", termion::cursor::Show));
    assert_eq!(closing(), format!("\n\r{}", SHOW));
}

#[test]
fn opening_of_a_vertical_list_reserves_a_line_for_each_item() {
    let selector = Selector::new(rooms(), Select::Vertical);
    assert_eq!(
        selector.opening("Choose room"),
        "\x1B[?25l\x1B[38;5;2m[?] \x1B[mChoose room\n\n\n\n"
    );
    assert_eq!(
        selector.opening("Choose room"),
        format!("{}{}[?] {}Choose room\n\n\n\n", HIDE, GREEN, RESET)
    );
}

#[test]
fn opening_of_a_horizontal_list_reserves_no_line() {
    let selector = Selector::new(vec!["on".to_string(), "off".to_string()], Select::Horizontal);
    assert_eq!(
        selector.opening("Set the scene"),
        "\x1B[?25l\x1B[38;5;2m[?] \x1B[mSet the scene\n"
    );
}

#[test]
fn opening_matches_what_termion_prints() {
    let selector = Selector::new(vec!["a".to_string()], Select::Vertical);
    let expected = format!(
        "{}{}[?] {}{}\n\n",
        termion::cursor::Hide,
        termion::color::Fg(termion::color::Green),
        termion::style::Reset,
        "Pick"
    );
    assert_eq!(selector.opening("Pick"), expected);
}

#[test]
fn opening_with_an_empty_prompt() {
    let selector = Selector::new(vec!["a".to_string()], Select::Horizontal);
    assert_eq!(selector.opening(""), "\x1B[?25l\x1B[38;5;2m[?] \x1B[m\n");
}

#[test]
fn vertical_frame_rewrites_every_line() {
    let selector = Selector::new(rooms(), Select::Vertical);
    assert_eq!(
        selector.frame(),
        "\x1B[3A\n\r\x1B[2K\x1B[1m  > Kitchen\x1B[m\n\r\x1B[2K    Lounge\n\r\x1B[2K    Office"
    );
}

#[test]
fn vertical_frame_highlights_the_item_under_the_cursor() {
    let mut selector = Selector::new(rooms(), Select::Vertical);
    selector.react(KeyPress::Down);
    selector.react(KeyPress::Down);
    assert_eq!(selector.cursor(), 2);
    assert_eq!(
        selector.frame(),
        "\x1B[3A\n\r\x1B[2K    Kitchen\n\r\x1B[2K    Lounge\n\r\x1B[2K\x1B[1m  > Office\x1B[m"
    );
}

#[test]
fn horizontal_frame_stays_on_one_line() {
    let mut selector = Selector::new(vec!["on".to_string(), "off".to_string()], Select::Horizontal);
    assert_eq!(selector.frame(), "\x1B[0A\n\r\x1B[2K\x1B[1m  > on\x1B[m    off");
    selector.react(KeyPress::Right);
    assert_eq!(selector.frame(), "\x1B[0A\n\r\x1B[2K    on\x1B[1m  > off\x1B[m");
    assert_eq!(
        selector.frame(),
        format!("{}\n\r{}    on{}  > off{}", UP_ZERO, CLEAR, BOLD, RESET)
    );
}

#[test]
fn frame_matches_what_termion_prints() {
    let selector = Selector::new(vec!["a".to_string(), "b".to_string()], Select::Vertical);
    let expected = format!(
        "{up}\n\r{clear}{bold}  > a{reset}\n\r{clear}    b",
        up = termion::cursor::Up(2),
        clear = termion::clear::CurrentLine,
        bold = termion::style::Bold,
        reset = termion::style::Reset
    );
    assert_eq!(selector.frame(), expected);
}

fn numbered(count: usize) -> Vec<String> {
    let mut labels = Vec::new();
    for _ in 0..count {
        labels.push(String::new());
    }
    labels
}

fn plain_frame(rows_up: &str, count: usize) -> String {
    let mut expected = String::from(rows_up);
    for index in 0..count {
        expected.push_str("\n\r\x1B[2K");
        if index == 0 {
            expected.push_str("\x1B[1m  > \x1B[m");
        } else {
            expected.push_str("    ");
        }
    }
    expected
}

#[test]
fn vertical_frame_counts_its_lines_in_decimal() {
    for count in [1usize, 2, 9, 10, 11, 99, 100, 101, 255, 256, 1000, 9999, 10000] {
        let selector = Selector::new(numbered(count), Select::Vertical);
        let up = format!("{}", termion::cursor::Up(count as u16));
        assert_eq!(up, format!("\x1B[{}A", count));
        assert_eq!(selector.frame(), plain_frame(&up, count));
    }
}

#[test]
fn vertical_frame_of_the_largest_single_count() {
    let selector = Selector::new(numbered(65535), Select::Vertical);
    assert_eq!(selector.frame(), plain_frame("\x1B[65535A", 65535));
}

#[test]
fn vertical_frame_splits_a_count_beyond_one_command() {
    let selector = Selector::new(numbered(65536), Select::Vertical);
    assert_eq!(selector.frame(), plain_frame("\x1B[65535A\x1B[1A", 65536));
    let selector = Selector::new(numbered(131070), Select::Vertical);
    assert_eq!(selector.frame(), plain_frame("\x1B[65535A\x1B[65535A", 131070));
    let selector = Selector::new(numbered(131075), Select::Vertical);
    assert_eq!(selector.frame(), plain_frame("\x1B[65535A\x1B[65535A\x1B[5A", 131075));
}

#[test]
fn react_redraws_while_nothing_is_decided() {
    let mut selector = Selector::new(rooms(), Select::Vertical);
    let (outcome, text) = selector.react(KeyPress::Down);
    assert_eq!(outcome, Outcome::Pending);
    assert_eq!(
        text,
        "\x1B[3A\n\r\x1B[2K    Kitchen\n\r\x1B[2K\x1B[1m  > Lounge\x1B[m\n\r\x1B[2K    Office"
    );
    assert_eq!(text, selector.frame());
    let (outcome, text) = selector.react(KeyPress::Other);
    assert_eq!(outcome, Outcome::Pending);
    assert_eq!(text, selector.frame());
    assert_eq!(selector.cursor(), 1);
}

#[test]
fn react_closes_on_confirm() {
    let items = ["Kitchen", "Lounge", "Office"];
    let mut selector = Selector::new(rooms(), Select::Vertical);
    selector.react(KeyPress::Down);
    selector.react(KeyPress::Down);
    let (outcome, text) = selector.react(KeyPress::Char('\n'));
    assert_eq!(outcome, Outcome::Chosen(2));
    assert_eq!(items[2], "Office");
    assert_eq!(text, "\n\r\x1B[?25h");
}

#[test]
fn react_closes_on_cancel() {
    let mut selector = Selector::new(rooms(), Select::Vertical);
    selector.react(KeyPress::Down);
    let (outcome, text) = selector.react(KeyPress::Ctrl('c'));
    assert_eq!(outcome, Outcome::Aborted);
    assert_eq!(text, closing());
    assert_eq!(selector.cursor(), 1);
}

#[test]
fn a_run_hides_the_cursor_first_and_shows_it_last() {
    let mut selector = Selector::new(rooms(), Select::Vertical);
    let mut written = selector.opening("Choose room");
    written.push_str(&selector.frame());
    for key in [KeyPress::Down, KeyPress::Up, KeyPress::Down, KeyPress::Char('\n')] {
        let (_, text) = selector.react(key);
        written.push_str(&text);
    }
    assert!(written.starts_with(HIDE));
    assert!(written.ends_with(SHOW));
    assert_eq!(written.matches(HIDE).count(), 1);
    assert_eq!(written.matches(SHOW).count(), 1);
}

#[test]
fn labels_come_from_the_projection() {
    let items = [(1u32, "one"), (2, "two"), (3, "three")];
    let labels = labels_of(&items, |item| format!("{}: {}", item.0, item.1));
    assert_eq!(labels, vec!["1: one".to_string(), "2: two".to_string(), "3: three".to_string()]);
    let none: [u8; 0] = [];
    assert!(labels_of(&none, |item| item.to_string()).is_empty());
}

#[test]
fn labels_feed_the_frame() {
    let choices = vec!["on", "off"];
    let selector = Selector::new(labels_of(&choices, |choice| choice.to_string()), Select::Horizontal);
    assert_eq!(selector.frame(), "\x1B[0A\n\r\x1B[2K\x1B[1m  > on\x1B[m    off");
}
