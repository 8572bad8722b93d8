use cat::formatter::{format_buffer, FormatterState};
use cat::options::{Flags, Options};

fn plain() -> Options {
    Options {
        number_nonblank: false,
        number: false,
        show_ends: false,
        squeeze_blank: false,
        show_tabs: false,
        show_non_printing: false,
    }
}

fn format(line: &[u8], options: &Options, state: &mut FormatterState) -> Vec<u8> {
    let mut line = line.to_vec();
    format_buffer(&mut line, options, state);
    line
}

#[test]
fn new_state_starts_at_line_one() {
    let state = FormatterState::new();
    assert_eq!(state.line_number, 1);
    assert_eq!(state.consecutive_blank_count, 0);
}

#[test]
fn no_option_leaves_line_and_state() {
    let mut state = FormatterState { line_number: 7, consecutive_blank_count: 3 };
    let every_byte: Vec<u8> = (0u8..=255).collect();
    assert_eq!(format(&every_byte, &plain(), &mut state), every_byte);
    assert_eq!(format(b"\n", &plain(), &mut state), b"\n".to_vec());
    assert_eq!(format(b"", &plain(), &mut state), Vec::<u8>::new());
    assert_eq!(state, FormatterState { line_number: 7, consecutive_blank_count: 3 });
}

#[test]
fn number_puts_number_and_space_in_front() {
    let options = Options { number: true, ..plain() };
    let mut state = FormatterState::new();
    assert_eq!(format(b"first\n", &options, &mut state), b"1 first\n".to_vec());
    assert_eq!(format(b"\n", &options, &mut state), b"2 \n".to_vec());
    assert_eq!(format(b"third", &options, &mut state), b"3 third".to_vec());
    assert_eq!(state.line_number, 4);
}

#[test]
fn number_is_decimal_with_several_digits() {
    let options = Options { number: true, ..plain() };
    let mut state = FormatterState { line_number: 99, consecutive_blank_count: 0 };
    assert_eq!(format(b"x\n", &options, &mut state), b"99 x\n".to_vec());
    assert_eq!(format(b"y\n", &options, &mut state), b"100 y\n".to_vec());
    assert_eq!(state.line_number, 101);
}

#[test]
fn number_nonblank_skips_blank_lines() {
    let options = Options { number_nonblank: true, ..plain() };
    let mut state = FormatterState::new();
    assert_eq!(format(b"a\n", &options, &mut state), b"1 a\n".to_vec());
    assert_eq!(format(b"\n", &options, &mut state), b"\n".to_vec());
    assert_eq!(state.line_number, 2);
    assert_eq!(format(b"b\n", &options, &mut state), b"2 b\n".to_vec());
    assert_eq!(state.line_number, 3);
}

#[test]
fn squeeze_keeps_the_first_blank_line_only() {
    let options = Options { squeeze_blank: true, ..plain() };
    let mut state = FormatterState::new();
    assert_eq!(format(b"\n", &options, &mut state), b"\n".to_vec());
    assert_eq!(state.consecutive_blank_count, 1);
    assert_eq!(format(b"\n", &options, &mut state), Vec::<u8>::new());
    assert_eq!(state.consecutive_blank_count, 2);
    assert_eq!(format(b"\n", &options, &mut state), Vec::<u8>::new());
    assert_eq!(state.consecutive_blank_count, 3);
    assert_eq!(format(b"a\n", &options, &mut state), b"a\n".to_vec());
    assert_eq!(state.consecutive_blank_count, 0);
    assert_eq!(format(b"\n", &options, &mut state), b"\n".to_vec());
    assert_eq!(state.consecutive_blank_count, 1);
}

#[test]
fn discarded_line_takes_no_number() {
    let options = Options { squeeze_blank: true, number: true, ..plain() };
    let mut state = FormatterState::new();
    assert_eq!(format(b"\n", &options, &mut state), b"1 \n".to_vec());
    assert_eq!(format(b"\n", &options, &mut state), Vec::<u8>::new());
    assert_eq!(state.line_number, 2);
    assert_eq!(format(b"a\n", &options, &mut state), b"2 a\n".to_vec());
}

#[test]
fn blank_count_is_kept_only_while_squeezing() {
    let options = Options { number: true, ..plain() };
    let mut state = FormatterState { line_number: 1, consecutive_blank_count: 5 };
    format(b"\n", &options, &mut state);
    assert_eq!(state.consecutive_blank_count, 5);
    format(b"a\n", &options, &mut state);
    assert_eq!(state.consecutive_blank_count, 5);
}

#[test]
fn only_a_lone_line_feed_is_blank() {
    let options = Options { squeeze_blank: true, ..plain() };
    let mut state = FormatterState { line_number: 1, consecutive_blank_count: 1 };
    assert_eq!(format(b" \n", &options, &mut state), b" \n".to_vec());
    assert_eq!(state.consecutive_blank_count, 0);
    let mut state = FormatterState { line_number: 1, consecutive_blank_count: 1 };
    assert_eq!(format(b"", &options, &mut state), Vec::<u8>::new());
    assert_eq!(state.consecutive_blank_count, 0);
    let mut state = FormatterState { line_number: 1, consecutive_blank_count: 1 };
    assert_eq!(format(b"\n\n", &options, &mut state), b"\n\n".to_vec());
    assert_eq!(state.consecutive_blank_count, 0);
}

#[test]
fn show_ends_marks_terminated_lines() {
    let options = Options { show_ends: true, ..plain() };
    let mut state = FormatterState::new();
    assert_eq!(format(b"abc\n", &options, &mut state), b"abc$\n".to_vec());
    assert_eq!(format(b"\n", &options, &mut state), b"$\n".to_vec());
    assert_eq!(state, FormatterState::new());
}

#[test]
fn show_ends_is_silent_without_terminator() {
    let options = Options { show_ends: true, ..plain() };
    let mut state = FormatterState::new();
    assert_eq!(format(b"abc", &options, &mut state), b"abc".to_vec());
}

#[test]
fn show_tabs_shows_a_tab_as_caret_i() {
    let options = Options { show_tabs: true, ..plain() };
    let mut state = FormatterState::new();
    assert_eq!(format(b"\t", &options, &mut state), b"^I".to_vec());
    assert_eq!(format(b"a\tb\n", &options, &mut state), b"a^Ib\n".to_vec());
}

#[test]
fn show_non_printing_leaves_a_tab() {
    let options = Options { show_non_printing: true, ..plain() };
    let mut state = FormatterState::new();
    assert_eq!(format(b"\t", &options, &mut state), b"\t".to_vec());
    assert_eq!(format(&[0, 0x7F, 0xFF, 0x81], &options, &mut state), b"^@^?M-^?M-^A".to_vec());
}

#[test]
fn show_non_printing_renders_each_kind_of_byte() {
    let options = Options { show_non_printing: true, ..plain() };
    let mut state = FormatterState::new();
    assert_eq!(format(&[0x00], &options, &mut state), b"^@".to_vec());
    assert_eq!(format(&[0x7F], &options, &mut state), b"^?".to_vec());
    assert_eq!(format(&[0xFF], &options, &mut state), b"M-^?".to_vec());
    assert_eq!(format(&[0x81], &options, &mut state), b"M-^A".to_vec());
}

#[test]
fn transformations_apply_in_order() {
    let options = Options {
        number: true,
        show_ends: true,
        show_tabs: true,
        show_non_printing: true,
        ..plain()
    };
    let mut state = FormatterState::new();
    assert_eq!(
        format(&[b'a', b'\t', 0x01, 0x89, b'$', b'\n'], &options, &mut state),
        b"1 a^I^AM-^I$$\n".to_vec()
    );
}

#[test]
fn number_is_not_escaped() {
    let options = Options { number: true, show_non_printing: true, show_tabs: true, ..plain() };
    let mut state = FormatterState { line_number: 120, consecutive_blank_count: 0 };
    assert_eq!(format(b"\t\n", &options, &mut state), b"120 ^I\n".to_vec());
}

#[test]
fn both_numbering_modes_resolve_like_nonblank_alone() {
    let base = Flags {
        show_all: false,
        number_nonblank: true,
        e: false,
        show_ends: false,
        number: false,
        squeeze_blank: false,
        t: false,
        show_tabs: false,
        u: false,
        show_non_printing: false,
    };
    let only = Options::resolve(&base);
    let both = Options::resolve(&Flags { number: true, ..base });
    let mut state_only = FormatterState::new();
    let mut state_both = FormatterState::new();
    for line in [&b"a\n"[..], b"\n", b"\n", b"b\n", b"c"] {
        assert_eq!(
            format(line, &only, &mut state_only),
            format(line, &both, &mut state_both)
        );
    }
    assert_eq!(state_only, state_both);
    assert_eq!(state_both.line_number, 4);
}

#[test]
fn largest_line_number_still_fits_in_front() {
    let options = Options { number: true, ..plain() };
    let mut state = FormatterState { line_number: u64::MAX - 1, consecutive_blank_count: 0 };
    assert_eq!(format(b"x\n", &options, &mut state), b"18446744073709551614 x\n".to_vec());
    assert_eq!(state.line_number, u64::MAX);
}

#[test]
fn room_is_asked_only_of_counters_that_move() {
    let full = FormatterState { line_number: u64::MAX, consecutive_blank_count: u64::MAX };
    assert!(full.has_room_for(&plain(), b"a\n"));
    assert!(full.has_room_for(&Options { show_ends: true, show_tabs: true, ..plain() }, b"\n"));
    assert!(!full.has_room_for(&Options { number: true, ..plain() }, b"a\n"));
    assert!(!full.has_room_for(&Options { number: true, ..plain() }, b"\n"));
    assert!(!full.has_room_for(&Options { number_nonblank: true, ..plain() }, b"a\n"));
    assert!(full.has_room_for(&Options { number_nonblank: true, ..plain() }, b"\n"));
    assert!(full.has_room_for(&Options { squeeze_blank: true, ..plain() }, b"a\n"));
    assert!(!full.has_room_for(&Options { squeeze_blank: true, ..plain() }, b"\n"));
}

#[test]
fn discarded_line_asks_no_room_for_its_number() {
    let options = Options { squeeze_blank: true, number: true, ..plain() };
    let state = FormatterState { line_number: u64::MAX, consecutive_blank_count: 1 };
    assert!(state.has_room_for(&options, b"\n"));
    assert!(!state.has_room_for(&options, b"a\n"));
    let state = FormatterState { line_number: u64::MAX, consecutive_blank_count: 0 };
    assert!(!state.has_room_for(&options, b"\n"));
    let state = FormatterState { line_number: u64::MAX - 1, consecutive_blank_count: 0 };
    assert!(state.has_room_for(&options, b"\n"));
    assert!(FormatterState::new().has_room_for(&options, b"\n"));
}
