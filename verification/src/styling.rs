//! Styled text: the pieces a terminal report is made of, and how they are
//! painted with ANSI escape sequences.

use colored::Colorize;
use vstd::prelude::*;
use vstd::string::StringExecFns;

verus! {

/// How a piece of report text is emphasised on a terminal.
#[derive(Clone, Copy, Debug, PartialEq, Eq, Structural)]
pub enum Style {
    Plain,
    Bold,
    BlueBold,
    RedBold,
    YellowBold,
}

/// A piece of text with its style, as mathematical data.
pub struct SegmentView {
    pub text: Seq<char>,
    pub style: Style,
}

/// A piece of report text with its style.
#[derive(Debug, PartialEq, Eq)]
pub struct Segment {
    pub text: String,
    pub style: Style,
}

impl View for Segment {
    type V = SegmentView;

    open spec fn view(&self) -> SegmentView {
        SegmentView { text: self.text@, style: self.style }
    }
}

/// The views of a run of segments.
pub open spec fn segment_views(segments: Seq<Segment>) -> Seq<SegmentView> {
    segments.map_values(|segment: Segment| segment@)
}

/// The escape sequence that ends all styling.
pub open spec fn reset_code() -> Seq<char> {
    seq!['\x1b', '[', '0', 'm']
}

/// The escape sequence that switches a style on; empty for plain text.
pub open spec fn style_code(style: Style) -> Seq<char> {
    match style {
        Style::Plain => Seq::empty(),
        Style::Bold => "\x1b[1m"@,
        Style::BlueBold => "\x1b[1;34m"@,
        Style::RedBold => "\x1b[1;31m"@,
        Style::YellowBold => "\x1b[1;33m"@,
    }
}

/// The text with `code` repeated after every reset sequence inside it, so
/// that a reset in the middle does not end the style early.
pub open spec fn restyled(text: Seq<char>, code: Seq<char>) -> Seq<char>
    decreases text.len(),
{
    if text.len() == 0 {
        text
    } else if reset_code().is_prefix_of(text) {
        reset_code() + code + restyled(text.skip(4), code)
    } else {
        seq![text[0]] + restyled(text.skip(1), code)
    }
}

/// The text between the escape sequences that switch a style on and off.
pub open spec fn styled(text: Seq<char>, style: Style) -> Seq<char> {
    style_code(style) + restyled(text, style_code(style)) + reset_code()
}

/// What one segment contributes to the painted text. A plain segment always
/// contributes its text unchanged.
pub open spec fn piece(segment: SegmentView, colored: bool) -> Seq<char> {
    if colored && segment.style != Style::Plain {
        styled(segment.text, segment.style)
    } else {
        segment.text
    }
}

/// The painted text of a run of segments, given for each segment whether
/// colours were switched on when it was painted.
pub open spec fn typeset(segments: Seq<SegmentView>, colored: Seq<bool>) -> Seq<char>
    decreases segments.len(),
{
    if segments.len() == 0 {
        Seq::empty()
    } else {
        typeset(segments.drop_last(), colored.drop_last()) + piece(
            segments.last(),
            colored.last(),
        )
    }
}

/// `out` is a painting of the segments: every segment is there in order,
/// each one either unchanged or inside its escape sequences.
pub open spec fn is_painting(segments: Seq<SegmentView>, out: Seq<char>) -> bool {
    exists|colored: Seq<bool>|
        colored.len() == segments.len() && out == #[trigger] typeset(segments, colored)
}

/// `colored::Colorize::bold`, written out through `Display`. The crate
/// decides from the environment, the terminal and its override switch
/// whether to emit escape sequences: the result is the text itself, or the
/// text in bold.
#[verifier::external_body]
fn colored_bold(text: &str) -> (out: String)
    ensures
        out@ == text@ || out@ == styled(text@, Style::Bold),
{
    text.bold().to_string()
}

/// `colored::Colorize::blue` and `bold`, written out through `Display`: the
/// text itself, or the text in bold blue.
#[verifier::external_body]
fn colored_blue_bold(text: &str) -> (out: String)
    ensures
        out@ == text@ || out@ == styled(text@, Style::BlueBold),
{
    text.blue().bold().to_string()
}

/// `colored::Colorize::red` and `bold`, written out through `Display`: the
/// text itself, or the text in bold red.
#[verifier::external_body]
fn colored_red_bold(text: &str) -> (out: String)
    ensures
        out@ == text@ || out@ == styled(text@, Style::RedBold),
{
    text.red().bold().to_string()
}

/// `colored::Colorize::yellow` and `bold`, written out through `Display`:
/// the text itself, or the text in bold yellow.
#[verifier::external_body]
fn colored_yellow_bold(text: &str) -> (out: String)
    ensures
        out@ == text@ || out@ == styled(text@, Style::YellowBold),
{
    text.yellow().bold().to_string()
}

/// Paints one piece of text in a style: plain text is handed back as it is;
/// any other text as it is or between the escape sequences of its style,
/// as the colour switch stands.
pub fn paint(text: &str, style: Style) -> (out: String)
    ensures
        out@ == text@ || (style != Style::Plain && out@ == styled(text@, style)),
{
    match style {
        Style::Plain => text.to_owned(),
        Style::Bold => colored_bold(text),
        Style::BlueBold => colored_blue_bold(text),
        Style::RedBold => colored_red_bold(text),
        Style::YellowBold => colored_yellow_bold(text),
    }
}

/// Paints a run of segments into one text.
pub fn paint_all(segments: &Vec<Segment>) -> (out: String)
    ensures
        is_painting(segment_views(segments@), out@),
{
    let mut out = String::new();
    let ghost mut colored: Seq<bool> = Seq::empty();
    let mut i: usize = 0;
    while i < segments.len()
        invariant
            i <= segments.len(),
            colored.len() == i,
            out@ == typeset(segment_views(segments@).take(i as int), colored),
        decreases segments.len() - i,
    {
        let segment = &segments[i];
        let painted = paint(segment.text.as_str(), segment.style);
        proof {
            let views = segment_views(segments@);
            let flag = painted@ != segment.text@;
            assert(painted@ == piece(views[i as int], flag));
            assert(views.take(i as int + 1).drop_last() =~= views.take(i as int));
            assert(colored.push(flag).drop_last() =~= colored);
            colored = colored.push(flag);
        }
        out.append(painted.as_str());
        i = i + 1;
    }
    proof {
        assert(segment_views(segments@).take(i as int) =~= segment_views(segments@));
    }
    out
}

} // verus!
