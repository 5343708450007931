use netdiff::diff::{
    diff_text, number_field_text, render_group, render_line, render_report, ChangeTag, LineChange,
};
use netdiff::diff_text_to_terminal_inline;

fn line(tag: ChangeTag, old: Option<usize>, new: Option<usize>, spans: &[(bool, &str)]) -> LineChange {
    LineChange {
        tag,
        old_index: old,
        new_index: new,
        spans: spans.iter().map(|(e, s)| (*e, s.to_string())).collect(),
        missing_newline: false,
    }
}

#[test]
fn number_fields() {
    assert_eq!(number_field_text(None), "    ");
    assert_eq!(number_field_text(Some(0)), "1   ");
    assert_eq!(number_field_text(Some(11)), "12  ");
    assert_eq!(number_field_text(Some(998)), "999 ");
    assert_eq!(number_field_text(Some(999)), "1000");
    assert_eq!(number_field_text(Some(12344)), "12345");
    assert_eq!(number_field_text(Some(usize::MAX)), (usize::MAX as u128 + 1).to_string());
}

#[test]
fn unchanged_line() {
    let c = line(ChangeTag::Equal, Some(11), Some(12), &[(false, "same\n")]);
    assert_eq!(render_line(&c, false), "12  13  | same\n");
}

#[test]
fn removed_and_added_lines() {
    let c = line(ChangeTag::Delete, Some(0), None, &[(false, "a "), (true, "b"), (false, "\n")]);
    assert_eq!(render_line(&c, false), "1       |-a b\n");
    let c = line(ChangeTag::Insert, None, Some(4), &[(true, "x"), (false, "\n")]);
    assert_eq!(render_line(&c, false), "    5   |+x\n");
}

#[test]
fn line_without_line_break_gets_one() {
    let mut c = line(ChangeTag::Insert, None, Some(0), &[(false, "end")]);
    c.missing_newline = true;
    assert_eq!(render_line(&c, false), "    1   |+end\n");
}

#[test]
fn colored_lines_carry_escape_sequences() {
    let c = line(ChangeTag::Delete, Some(0), None, &[(false, "a "), (true, "b"), (false, "\n")]);
    assert_eq!(
        render_line(&c, true),
        "\u{1b}[2m1   \u{1b}[0m\u{1b}[2m    \u{1b}[0m|\u{1b}[31m\u{1b}[1m-\u{1b}[0m\
         \u{1b}[31ma \u{1b}[0m\u{1b}[31m\u{1b}[40m\u{1b}[4mb\u{1b}[0m\u{1b}[31m\n\u{1b}[0m"
    );
    let c = line(ChangeTag::Insert, None, Some(0), &[(true, "b")]);
    assert_eq!(
        render_line(&c, true),
        "\u{1b}[2m    \u{1b}[0m\u{1b}[2m1   \u{1b}[0m|\u{1b}[32m\u{1b}[1m+\u{1b}[0m\
         \u{1b}[32m\u{1b}[40m\u{1b}[4mb\u{1b}[0m"
    );
    let c = line(ChangeTag::Equal, Some(0), Some(0), &[(false, "b")]);
    assert_eq!(
        render_line(&c, true),
        "\u{1b}[2m1   \u{1b}[0m\u{1b}[2m1   \u{1b}[0m|\u{1b}[1m\u{1b}[2m \u{1b}[0m\u{1b}[2mb\u{1b}[0m"
    );
}

#[test]
fn groups_are_separated_by_a_rule() {
    let first = vec![line(ChangeTag::Delete, Some(0), None, &[(false, "a\n")])];
    let second = vec![
        line(ChangeTag::Equal, Some(9), Some(8), &[(false, "b\n")]),
        line(ChangeTag::Insert, None, Some(9), &[(false, "c\n")]),
    ];
    assert_eq!(render_group(&second, false), "10  9   | b\n    10  |+c\n");
    assert_eq!(render_report(&vec![], false), "");
    assert_eq!(render_report(&vec![first.clone()], false), "1       |-a\n");
    let rule = "-".repeat(80);
    assert_eq!(
        render_report(&vec![first.clone(), second.clone(), first], false),
        format!("1       |-a\n{rule}10  9   | b\n    10  |+c\n{rule}1       |-a\n")
    );
}

#[test]
fn equal_texts_have_an_empty_report() {
    for text in ["", "a", "a\nb\nc\n", "{\n  \"id\": 1\n}"] {
        assert_eq!(diff_text(text, text, false), "");
        assert_eq!(diff_text(text, text, true), "");
        assert_eq!(diff_text_to_terminal_inline(text, text), "");
    }
}

#[test]
fn changed_line_is_shown_with_its_neighbours() {
    assert_eq!(
        diff_text("a\nb\nc\n", "a\nx\nc\n", false),
        "1   1   | a\n2       |-b\n    2   |+x\n3   3   | c\n"
    );
}

#[test]
fn changed_word_is_marked_when_colored() {
    let report = diff_text("one two three\n", "one 2 three\n", true);
    assert!(report.contains("\u{1b}[31m\u{1b}[40m\u{1b}[4mtwo\u{1b}[0m"));
    assert!(report.contains("\u{1b}[32m\u{1b}[40m\u{1b}[4m2\u{1b}[0m"));
    assert_eq!(
        diff_text("one two three\n", "one 2 three\n", false),
        "1       |-one two three\n    1   |+one 2 three\n"
    );
}

#[test]
fn only_three_lines_around_a_change_are_shown() {
    let old = "1\n2\n3\n4\n5\n6\n7\n8\n9\n";
    let new = "1\n2\n3\n4\nfive\n6\n7\n8\n9\n";
    assert_eq!(
        diff_text(old, new, false),
        "2   2   | 2\n3   3   | 3\n4   4   | 4\n5       |-5\n    5   |+five\n6   6   | 6\n7   7   | 7\n8   8   | 8\n"
    );
}

#[test]
fn distant_changes_are_in_regions_of_their_own() {
    let old: String = (1..=20).map(|i| format!("{i}\n")).collect();
    let new = old.replace("2\n3\n", "2\nthree\n").replace("18\n", "eighteen\n");
    let report = diff_text(&old, &new, false);
    let rule = "-".repeat(80);
    assert_eq!(report.matches(&rule).count(), 1);
    let parts: Vec<&str> = report.split(&rule).collect();
    assert_eq!(
        parts[0],
        "1   1   | 1\n2   2   | 2\n3       |-3\n    3   |+three\n4   4   | 4\n5   5   | 5\n6   6   | 6\n"
    );
    assert_eq!(
        parts[1],
        "15  15  | 15\n16  16  | 16\n17  17  | 17\n18      |-18\n    18  |+eighteen\n19  19  | 19\n20  20  | 20\n"
    );
}

#[test]
fn added_last_line_without_line_break() {
    assert_eq!(diff_text("a\n", "a\nb", false), "1   1   | a\n    2   |+b\n");
}

#[test]
fn swapped_texts_swap_signs_and_numbers() {
    let old = "a\nb\nc\nd\n";
    let new = "a\nc\nd\ne\n";
    assert_eq!(
        diff_text(old, new, false),
        "1   1   | a\n2       |-b\n3   2   | c\n4   3   | d\n    4   |+e\n"
    );
    assert_eq!(
        diff_text(new, old, false),
        "1   1   | a\n    2   |+b\n2   3   | c\n3   4   | d\n4       |-e\n"
    );
}

#[test]
fn report_for_the_terminal_is_one_of_the_two_reports() {
    let (a, b) = ("a\nb\n", "a\nc\n");
    let report = diff_text_to_terminal_inline(a, b);
    assert!(report == diff_text(a, b, false) || report == diff_text(a, b, true));
    assert_ne!(diff_text(a, b, false), diff_text(a, b, true));
}
