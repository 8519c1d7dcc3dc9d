use apple_notes_rs_lib::text::{escape_for_filesystem, first_line};
use regex::Regex;

fn escaped_by_pattern(subject: &str) -> String {
    let pattern = Regex::new(r#"[.<>:\\"/\|?*]"#).unwrap();
    let underscored = subject.replace("/", "_").replace(" ", "_");
    pattern.replace_all(&underscored, "").into_owned()
}

fn first_of_lines(text: &str) -> String {
    text.lines().next().unwrap_or("").to_string()
}

#[test]
fn first_line_of_empty_text_is_empty() {
    assert_eq!(first_line(""), "");
}

#[test]
fn first_line_of_single_line_is_the_text() {
    assert_eq!(first_line("Shopping list"), "Shopping list");
}

#[test]
fn first_line_stops_at_line_feed() {
    assert_eq!(first_line("Shopping list\nmilk\neggs"), "Shopping list");
}

#[test]
fn first_line_drops_carriage_return_of_break() {
    assert_eq!(first_line("Shopping list\r\nmilk"), "Shopping list");
}

#[test]
fn first_line_keeps_bare_carriage_return() {
    assert_eq!(first_line("Shopping list\r"), "Shopping list\r");
    assert_eq!(first_line("Shopping\rlist\nmilk"), "Shopping\rlist");
}

#[test]
fn first_line_of_text_that_begins_with_break_is_empty() {
    assert_eq!(first_line("\nmilk"), "");
    assert_eq!(first_line("\r\nmilk"), "");
}

#[test]
fn first_line_keeps_only_last_carriage_return_out() {
    assert_eq!(first_line("a\r\r\nb"), "a\r");
}

#[test]
fn first_line_agrees_with_lines() {
    let samples = [
        "",
        "one",
        "one\ntwo",
        "one\r\ntwo",
        "one\r",
        "\r",
        "\n",
        "\r\n",
        "one\r\r\ntwo",
        "on\re\ntwo",
        "üñí\ncode",
        "tab\tand space \n",
    ];
    for sample in samples.iter() {
        assert_eq!(first_line(sample), first_of_lines(sample));
    }
}

#[test]
fn escape_replaces_separators_by_underscores() {
    assert_eq!(escape_for_filesystem("my note/part two"), "my_note_part_two");
}

#[test]
fn escape_strips_each_forbidden_character() {
    assert_eq!(escape_for_filesystem("a.b<c>d:e\"f\\g|h?i*j"), "abcdefghij");
}

#[test]
fn escape_keeps_other_characters() {
    assert_eq!(escape_for_filesystem("Größe_(1)-[x]+y=z"), "Größe_(1)-[x]+y=z");
}

#[test]
fn escape_of_empty_subject_is_empty() {
    assert_eq!(escape_for_filesystem(""), "");
}

#[test]
fn escape_of_only_forbidden_characters_is_empty() {
    assert_eq!(escape_for_filesystem(".<>:\"\\|?*"), "");
}

#[test]
fn escape_is_idempotent_on_samples() {
    let samples = ["my note/part two", "a.b<c>d", "plain", "", " / ", "x?*y z"];
    for sample in samples.iter() {
        let once = escape_for_filesystem(sample);
        assert_eq!(escape_for_filesystem(&once), once);
    }
}

#[test]
fn escape_output_holds_no_unsafe_character() {
    let escaped = escape_for_filesystem("What? A note: \"1/2\" <draft> *new* | old \\ v1.2");
    for c in escaped.chars() {
        assert!(!". <>:\"\\/|?*".contains(c));
    }
    assert_eq!(escaped, "What_A_note_1_2_draft_new__old__v12");
}

#[test]
fn escape_agrees_with_pattern_replacement() {
    let samples = [
        "",
        "plain",
        "my note/part two",
        "a.b<c>d:e\"f\\g|h?i*j",
        "Größe (1) / ünïcode?",
        "////",
        "    ",
        "..\\..\\etc",
        "tab\tstays\nand newline too",
    ];
    for sample in samples.iter() {
        assert_eq!(escape_for_filesystem(sample), escaped_by_pattern(sample));
    }
}
