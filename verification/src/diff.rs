//! The report of a comparison: the lines of two texts side by side, with what was removed,
//! what was added, and the changed parts of a line set off.

use crate::text::{decimal, decimal_digits, string_of};
use vstd::prelude::*;
use vstd::string::StringExecFns;

verus! {

/// What happened to a line.
#[derive(Clone, Copy, Debug, PartialEq, Eq, Structural)]
pub enum ChangeTag {
    /// It stands in both texts.
    Equal,
    /// It stands in the old text only.
    Delete,
    /// It stands in the new text only.
    Insert,
}

/// One line of a comparison.
#[derive(Clone, Debug, PartialEq, Eq)]
pub struct LineChange {
    pub tag: ChangeTag,
    /// The index of the line in the old text, counted from zero, where it stands there.
    pub old_index: Option<usize>,
    /// The index of the line in the new text, counted from zero, where it stands there.
    pub new_index: Option<usize>,
    /// The line in parts, each with the mark of a part that differs from the other text.
    pub spans: Vec<(bool, String)>,
    /// Whether the line lacks the line break at its end.
    pub missing_newline: bool,
}

/// The mathematical content of a [`LineChange`].
pub struct LineChangeView {
    pub tag: ChangeTag,
    pub old_index: Option<usize>,
    pub new_index: Option<usize>,
    pub spans: Seq<(bool, Seq<char>)>,
    pub missing_newline: bool,
}

/// Spans as mathematical values.
pub open spec fn spans_view(spans: Seq<(bool, String)>) -> Seq<(bool, Seq<char>)> {
    spans.map_values(|s: (bool, String)| (s.0, s.1@))
}

impl View for LineChange {
    type V = LineChangeView;

    open spec fn view(&self) -> LineChangeView {
        LineChangeView {
            tag: self.tag,
            old_index: self.old_index,
            new_index: self.new_index,
            spans: spans_view(self.spans@),
            missing_newline: self.missing_newline,
        }
    }
}

/// The lines of a change region as mathematical values.
pub open spec fn group_view(group: Seq<LineChange>) -> Seq<LineChangeView> {
    group.map_values(|c: LineChange| c@)
}

/// Change regions as mathematical values.
pub open spec fn groups_view(groups: Seq<Vec<LineChange>>) -> Seq<Seq<LineChangeView>> {
    groups.map_values(|g: Vec<LineChange>| group_view(g@))
}

/// The change regions that the `similar` crate finds between the lines of two texts, each
/// with up to `radius` unchanged lines around it, and in each region the lines with their
/// differing parts marked.
pub uninterp spec fn spec_line_changes(old: Seq<char>, new: Seq<char>, radius: usize) -> Seq<
    Seq<LineChangeView>,
>;

/// `text` as the `console` crate writes it with the escape sequences of the style that
/// `style` names (its attributes with dots between them).
pub uninterp spec fn spec_styled(text: Seq<char>, style: Seq<char>) -> Seq<char>;

/// `text` in a style: with the escape sequences of the style where `colored` is set, and as
/// it is where it is not.
pub open spec fn styled_text(text: Seq<char>, style: Seq<char>, colored: bool) -> Seq<char> {
    if colored {
        spec_styled(text, style)
    } else {
        text
    }
}

/// `TextDiff::from_lines`, `TextDiff::grouped_ops` and, for each operation of each group,
/// `TextDiff::iter_inline_changes_deadline` without a deadline; each change is handed out
/// field by field. The result is named [`spec_line_changes`]; of it only this is claimed:
/// between equal texts there is no change region.
#[verifier::external_body]
fn line_changes(old: &str, new: &str, radius: usize) -> (r: Vec<Vec<LineChange>>)
    requires
        radius <= 0xffff,
    ensures
        groups_view(r@) == spec_line_changes(old@, new@, radius),
        old@ == new@ ==> r@.len() == 0,
{
    let diff = similar::TextDiff::from_lines(old, new);
    let changes = |op| diff.iter_inline_changes_deadline(op, None).map(|c| LineChange {
        tag: match c.tag() {
            similar::ChangeTag::Equal => ChangeTag::Equal,
            similar::ChangeTag::Delete => ChangeTag::Delete,
            similar::ChangeTag::Insert => ChangeTag::Insert,
        },
        old_index: c.old_index(),
        new_index: c.new_index(),
        spans: c.iter_strings_lossy().map(|(e, s)| (e, s.into_owned())).collect(),
        missing_newline: c.missing_newline(),
    });
    diff.grouped_ops(radius).iter().map(|g| g.iter().flat_map(changes).collect()).collect()
}

/// `Style::from_dotted_str`, `Style::force_styling` and `Style::apply_to`, written to a
/// string. With styling forced on the result is named [`spec_styled`]; with styling forced
/// off the text is handed back as it is.
#[verifier::external_body]
fn styled(text: &str, style: &str, colored: bool) -> (r: String)
    ensures
        colored ==> r@ == spec_styled(text@, style@),
        !colored ==> r@ == text@,
{
    console::Style::from_dotted_str(style).force_styling(colored).apply_to(text).to_string()
}

/// `console::colors_enabled` says whether the standard output takes colors; that depends on
/// the terminal and the environment, so nothing is claimed of it.
pub assume_specification[ console::colors_enabled ]() -> bool;

/// The sign in front of a line: `-` for a removed line, `+` for an added one, a space for one
/// that stayed.
pub open spec fn sign_of(tag: ChangeTag) -> Seq<char> {
    match tag {
        ChangeTag::Delete => "-"@,
        ChangeTag::Insert => "+"@,
        ChangeTag::Equal => " "@,
    }
}

/// The style of a line: red for a removed line, green for an added one, dim for one that
/// stayed.
pub open spec fn line_style(tag: ChangeTag) -> Seq<char> {
    match tag {
        ChangeTag::Delete => "red"@,
        ChangeTag::Insert => "green"@,
        ChangeTag::Equal => "dim"@,
    }
}

/// The style of the sign: that of its line, and bold.
pub open spec fn sign_style(tag: ChangeTag) -> Seq<char> {
    match tag {
        ChangeTag::Delete => "red.bold"@,
        ChangeTag::Insert => "green.bold"@,
        ChangeTag::Equal => "dim.bold"@,
    }
}

/// The style of a part that differs: that of its line, underlined on black.
pub open spec fn emphasis_style(tag: ChangeTag) -> Seq<char> {
    match tag {
        ChangeTag::Delete => "red.underlined.on_black"@,
        ChangeTag::Insert => "green.underlined.on_black"@,
        ChangeTag::Equal => "dim.underlined.on_black"@,
    }
}

/// `n` spaces.
pub open spec fn spaces(n: nat) -> Seq<char> {
    Seq::new(n, |i: int| ' ')
}

/// The field for a line number: the index plus one in decimal, filled up with spaces to four
/// characters; four spaces where the line does not stand in the text.
pub open spec fn number_field(index: Option<usize>) -> Seq<char> {
    match index {
        Some(i) => {
            let digits = decimal((i + 1) as nat);
            if digits.len() < 4 {
                digits + spaces((4 - digits.len()) as nat)
            } else {
                digits
            }
        },
        None => spaces(4),
    }
}

/// The parts of a line, one after the other, each in the style of its line, and in that of
/// a differing part where it is marked.
pub open spec fn rendered_spans(spans: Seq<(bool, Seq<char>)>, tag: ChangeTag, colored: bool) -> Seq<
    char,
>
    decreases spans.len(),
{
    if spans.len() == 0 {
        Seq::empty()
    } else {
        rendered_spans(spans.drop_last(), tag, colored) + styled_text(
            spans.last().1,
            if spans.last().0 {
                emphasis_style(tag)
            } else {
                line_style(tag)
            },
            colored,
        )
    }
}

/// One line of the report: the two number fields, dim; a bar; the sign; the parts of the
/// line; and a line break where the line lacks one.
pub open spec fn rendered_line(change: LineChangeView, colored: bool) -> Seq<char> {
    styled_text(number_field(change.old_index), "dim"@, colored) + styled_text(
        number_field(change.new_index),
        "dim"@,
        colored,
    ) + "|"@ + styled_text(sign_of(change.tag), sign_style(change.tag), colored) + rendered_spans(
        change.spans,
        change.tag,
        colored,
    ) + if change.missing_newline {
        "\n"@
    } else {
        Seq::empty()
    }
}

/// The lines of one change region.
pub open spec fn rendered_group(group: Seq<LineChangeView>, colored: bool) -> Seq<char>
    decreases group.len(),
{
    if group.len() == 0 {
        Seq::empty()
    } else {
        rendered_group(group.drop_last(), colored) + rendered_line(group.last(), colored)
    }
}

/// The rule between two change regions: eighty dashes.
pub open spec fn rule() -> Seq<char> {
    Seq::new(80, |i: int| '-')
}

/// The report: the change regions in their order, with a rule before each but the first.
pub open spec fn rendered_report(groups: Seq<Seq<LineChangeView>>, colored: bool) -> Seq<char>
    decreases groups.len(),
{
    if groups.len() == 0 {
        Seq::empty()
    } else {
        rendered_report(groups.drop_last(), colored) + if groups.len() > 1 {
            rule()
        } else {
            Seq::empty()
        } + rendered_group(groups.last(), colored)
    }
}

/// Writes `n` times the character `c`.
fn repeated(c: char, n: usize) -> (s: String)
    ensures
        s@ == Seq::new(n as nat, |i: int| c),
{
    let mut s = String::new();
    let mut i: usize = 0;
    while i < n
        invariant
            i <= n,
            s@ == Seq::new(i as nat, |j: int| c),
        decreases n - i,
    {
        s.push(c);
        i += 1;
        assert(s@ =~= Seq::new(i as nat, |j: int| c));
    }
    s
}

/// Writes the field for a line number.
pub fn number_field_text(index: Option<usize>) -> (s: String)
    ensures
        s@ == number_field(index),
{
    match index {
        Some(i) => {
            let digits = decimal_digits(i as u128 + 1);
            let mut s = string_of(&digits, 0, digits.len());
            assert(digits@.subrange(0, digits.len() as int) =~= digits@);
            if digits.len() < 4 {
                let fill = repeated(' ', 4 - digits.len());
                s.append(fill.as_str());
            }
            s
        },
        None => repeated(' ', 4),
    }
}

/// The names of the three styles of a line: of the line itself, of its sign, and of its
/// differing parts.
fn styles_of(tag: ChangeTag) -> (r: (&'static str, &'static str, &'static str, &'static str))
    ensures
        r.0@ == sign_of(tag),
        r.1@ == line_style(tag),
        r.2@ == sign_style(tag),
        r.3@ == emphasis_style(tag),
{
    match tag {
        ChangeTag::Delete => ("-", "red", "red.bold", "red.underlined.on_black"),
        ChangeTag::Insert => ("+", "green", "green.bold", "green.underlined.on_black"),
        ChangeTag::Equal => (" ", "dim", "dim.bold", "dim.underlined.on_black"),
    }
}

/// Writes one line of the report.
pub fn render_line(change: &LineChange, colored: bool) -> (s: String)
    ensures
        s@ == rendered_line(change@, colored),
{
    let (sign, plain, bold, emphasis) = styles_of(change.tag);
    let old_field = number_field_text(change.old_index);
    let new_field = number_field_text(change.new_index);
    let mut s = styled(old_field.as_str(), "dim", colored);
    s.append(styled(new_field.as_str(), "dim", colored).as_str());
    s.append("|");
    s.append(styled(sign, bold, colored).as_str());
    let ghost head = s@;
    let ghost spans = spans_view(change.spans@);
    let mut i: usize = 0;
    while i < change.spans.len()
        invariant
            i <= change.spans.len(),
            spans == spans_view(change.spans@),
            plain@ == line_style(change.tag),
            emphasis@ == emphasis_style(change.tag),
            s@ == head + rendered_spans(spans.take(i as int), change.tag, colored),
        decreases change.spans.len() - i,
    {
        proof {
            assert(spans.take(i + 1).drop_last() =~= spans.take(i as int));
            assert(spans.take(i + 1).last() == spans[i as int]);
        }
        let span = &change.spans[i];
        let style = if span.0 {
            emphasis
        } else {
            plain
        };
        s.append(styled(span.1.as_str(), style, colored).as_str());
        assert(s@ =~= head + rendered_spans(spans.take(i + 1), change.tag, colored));
        i += 1;
    }
    assert(spans.take(change.spans.len() as int) =~= spans);
    if change.missing_newline {
        s.append("\n");
    }
    assert(s@ =~= rendered_line(change@, colored));
    s
}

/// Writes the lines of one change region.
pub fn render_group(group: &Vec<LineChange>, colored: bool) -> (s: String)
    ensures
        s@ == rendered_group(group_view(group@), colored),
{
    let ghost all = group_view(group@);
    let mut s = String::new();
    let mut i: usize = 0;
    while i < group.len()
        invariant
            i <= group.len(),
            all == group_view(group@),
            s@ == rendered_group(all.take(i as int), colored),
        decreases group.len() - i,
    {
        proof {
            assert(all.take(i + 1).drop_last() =~= all.take(i as int));
            assert(all.take(i + 1).last() == group@[i as int]@);
        }
        s.append(render_line(&group[i], colored).as_str());
        i += 1;
    }
    assert(all.take(group.len() as int) =~= all);
    s
}

/// Writes the report of the change regions `groups`, with colors or without.
pub fn render_report(groups: &Vec<Vec<LineChange>>, colored: bool) -> (s: String)
    ensures
        s@ == rendered_report(groups_view(groups@), colored),
{
    let ghost all = groups_view(groups@);
    let mut s = String::new();
    let mut i: usize = 0;
    while i < groups.len()
        invariant
            i <= groups.len(),
            all == groups_view(groups@),
            s@ == rendered_report(all.take(i as int), colored),
        decreases groups.len() - i,
    {
        proof {
            assert(all.take(i + 1).drop_last() =~= all.take(i as int));
            assert(all.take(i + 1).last() == group_view(groups@[i as int]@));
        }
        if i > 0 {
            s.append(repeated('-', 80).as_str());
        }
        s.append(render_group(&groups[i], colored).as_str());
        assert(s@ =~= rendered_report(all.take(i + 1), colored));
        i += 1;
    }
    assert(all.take(groups.len() as int) =~= all);
    s
}

/// The number of unchanged lines that are shown around a change region.
pub const CONTEXT_LINES: usize = 3;

/// Compares two texts line by line and writes the report, with colors or without.
pub fn diff_text(text1: &str, text2: &str, colored: bool) -> (s: String)
    ensures
        s@ == rendered_report(spec_line_changes(text1@, text2@, CONTEXT_LINES), colored),
        text1@ == text2@ ==> s@.len() == 0,
{
    let groups = line_changes(text1, text2, CONTEXT_LINES);
    render_report(&groups, colored)
}

/// Compares two texts line by line and writes the report for the terminal: with colors
/// where the standard output takes them.
pub fn diff_text_to_terminal_inline(text1: &str, text2: &str) -> (s: String)
    ensures
        exists|colored: bool|
            s@ == #[trigger] rendered_report(
                spec_line_changes(text1@, text2@, CONTEXT_LINES),
                colored,
            ),
        text1@ == text2@ ==> s@.len() == 0,
{
    let colored = console::colors_enabled();
    diff_text(text1, text2, colored)
}

/// The line of the other direction: what was removed is added and what was added is removed,
/// and the two line numbers change places.
pub open spec fn mirrored(change: LineChangeView) -> LineChangeView {
    LineChangeView {
        tag: match change.tag {
            ChangeTag::Delete => ChangeTag::Insert,
            ChangeTag::Insert => ChangeTag::Delete,
            ChangeTag::Equal => ChangeTag::Equal,
        },
        old_index: change.new_index,
        new_index: change.old_index,
        spans: change.spans,
        missing_newline: change.missing_newline,
    }
}

/// The parts of a line one after the other.
pub open spec fn joined(spans: Seq<(bool, Seq<char>)>) -> Seq<char>
    decreases spans.len(),
{
    if spans.len() == 0 {
        Seq::empty()
    } else {
        joined(spans.drop_last()) + spans.last().1
    }
}

/// Without colors the parts of a line are written as they are, whatever happened to the
/// line.
pub proof fn lemma_plain_spans(spans: Seq<(bool, Seq<char>)>, tag: ChangeTag)
    ensures
        rendered_spans(spans, tag, false) == joined(spans),
    decreases spans.len(),
{
    if spans.len() > 0 {
        lemma_plain_spans(spans.drop_last(), tag);
    }
}

/// Without colors a line of the report is the two number fields, a bar, the sign, the line
/// itself, and a line break where the line lacks one.
pub proof fn lemma_plain_line(change: LineChangeView)
    ensures
        rendered_line(change, false) == number_field(change.old_index) + number_field(
            change.new_index,
        ) + "|"@ + sign_of(change.tag) + joined(change.spans) + if change.missing_newline {
            "\n"@
        } else {
            Seq::empty()
        },
{
    lemma_plain_spans(change.spans, change.tag);
}

/// A line of the other direction is written as the line itself, but that the two number
/// fields change places and `-` and `+` change places.
pub proof fn lemma_mirrored_line(change: LineChangeView)
    ensures
        rendered_line(mirrored(change), false) == number_field(change.new_index) + number_field(
            change.old_index,
        ) + "|"@ + sign_of(mirrored(change).tag) + joined(change.spans) + if change.missing_newline {
            "\n"@
        } else {
            Seq::empty()
        },
        sign_of(mirrored(change).tag) == match change.tag {
            ChangeTag::Delete => "+"@,
            ChangeTag::Insert => "-"@,
            ChangeTag::Equal => " "@,
        },
{
    lemma_plain_line(mirrored(change));
}

} // verus!
