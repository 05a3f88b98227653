use redo::{color_of_level, At, Color, Format};

fn plain() -> Format {
    Format { colored: false, current: true, detailed: true, position: true, saved: true }
}

#[test]
fn default_format_switches_everything_on() {
    let f = Format::default();
    assert!(f.colored && f.current && f.detailed && f.position && f.saved);
}

#[test]
fn mark_and_edge_append_plain_glyphs() {
    let f = plain();
    let mut out = String::new();
    f.mark(&mut out, 0);
    f.edge(&mut out, 1);
    assert_eq!(out, "*|");
}

#[test]
fn split_appends_the_branch_glyphs() {
    let f = plain();
    let mut out = String::new();
    f.split(&mut out, 3);
    assert_eq!(out, "|/");
}

#[test]
fn colored_mark_still_shows_the_glyph() {
    let f = Format { colored: true, ..plain() };
    let mut out = String::new();
    f.mark(&mut out, 2);
    assert!(out.contains('*'));
}

#[test]
fn position_renders_cursor_or_branch_and_cursor() {
    let f = plain();
    let mut out = String::new();
    f.position(&mut out, At { branch: 1, cursor: 23 }, false);
    assert_eq!(out, " [23]");
    let mut out2 = String::new();
    f.position(&mut out2, At { branch: 17, cursor: 204 }, true);
    assert_eq!(out2, " [17:204]");
}

#[test]
fn position_is_silent_when_switched_off() {
    let f = Format { position: false, ..plain() };
    let mut out = String::new();
    f.position(&mut out, At { branch: 0, cursor: 5 }, true);
    assert_eq!(out, "");
}

#[test]
fn zero_renders_as_a_single_digit() {
    let f = plain();
    let mut out = String::new();
    f.position(&mut out, At { branch: 0, cursor: 0 }, true);
    assert_eq!(out, " [0:0]");
}

#[test]
fn current_tag_appears_only_at_the_current_position() {
    let f = plain();
    let here = At { branch: 2, cursor: 3 };
    let elsewhere = At { branch: 2, cursor: 4 };
    let mut out = String::new();
    f.current(&mut out, here, here);
    assert_eq!(out, " (current)");
    let mut out2 = String::new();
    f.current(&mut out2, elsewhere, here);
    assert_eq!(out2, "");
}

#[test]
fn saved_tag_appears_only_at_the_saved_position() {
    let f = plain();
    let here = At { branch: 0, cursor: 2 };
    let mut out = String::new();
    f.saved(&mut out, here, Some(here));
    assert_eq!(out, " (saved)");
    let mut out2 = String::new();
    f.saved(&mut out2, here, Some(At { branch: 0, cursor: 3 }));
    assert_eq!(out2, "");
    let mut out3 = String::new();
    f.saved(&mut out3, here, None);
    assert_eq!(out3, "");
}

#[test]
fn timestamp_is_bracketed() {
    let f = plain();
    let mut out = String::new();
    f.timestamp(&mut out, 200000);
    assert!(out.starts_with(" ["));
    assert!(out.ends_with(']'));
    assert!(out.contains("1970"));
}

#[test]
fn detailed_message_trims_each_line_behind_edges() {
    let f = plain();
    let mut out = String::new();
    f.message(&mut out, "  hello \n\tworld", 0);
    assert_eq!(out, "| hello\n| world\n");
}

#[test]
fn detailed_message_indents_by_level() {
    let f = plain();
    let mut out = String::new();
    f.message(&mut out, "x", 1);
    assert_eq!(out, "| | x\n");
}

#[test]
fn brief_message_shows_the_first_nonempty_line() {
    let f = Format { detailed: false, ..plain() };
    let mut out = String::new();
    f.message(&mut out, "\n   \n  first \nsecond", 0);
    assert_eq!(out, "first");
}

#[test]
fn brief_message_of_blank_text_is_empty() {
    let f = Format { detailed: false, ..plain() };
    let mut out = String::new();
    f.message(&mut out, "  \n\t\n", 4);
    assert_eq!(out, "");
}

#[test]
fn message_appends_after_existing_text() {
    let f = plain();
    let mut out = String::from(">");
    f.message(&mut out, "a", 0);
    assert_eq!(out, ">| a\n");
}

#[test]
fn level_colors_repeat_in_cycles_of_six() {
    assert_eq!(color_of_level(0), Color::Cyan);
    assert_eq!(color_of_level(1), Color::Red);
    assert_eq!(color_of_level(5), Color::Blue);
    assert_eq!(color_of_level(7), Color::Red);
}

#[test]
fn message_trims_unicode_whitespace() {
    let f = plain();
    let mut out = String::new();
    f.message(&mut out, "\u{00A0}x\u{2003}\n\u{3000}\u{202F}", 0);
    assert_eq!(out, "| x\n| \n");
}
