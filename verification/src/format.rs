//! Rendering of history listings as text: marks, tree edges, positions,
//! the current and saved tags, timestamps and multi-line messages, plain
//! or colored.

use vstd::prelude::*;
use vstd::seq_lib::*;
use vstd::string::{StrSliceExecFns, StringExecFns};

use crate::At;

verus! {

/// A terminal color used when a listing is rendered colored.
#[derive(Copy, Clone, Debug, Hash, Eq, PartialEq, Structural)]
pub enum Color {
    /// Cyan.
    Cyan,
    /// Red.
    Red,
    /// Magenta.
    Magenta,
    /// Yellow.
    Yellow,
    /// Green.
    Green,
    /// Blue.
    Blue,
    /// Bright green.
    BrightGreen,
}

/// The color of a tree level: the six plain colors, repeating.
pub open spec fn spec_color_of_level(level: int) -> Color {
    let i = level % 6;
    if i == 0 {
        Color::Cyan
    } else if i == 1 {
        Color::Red
    } else if i == 2 {
        Color::Magenta
    } else if i == 3 {
        Color::Yellow
    } else if i == 4 {
        Color::Green
    } else {
        Color::Blue
    }
}

/// Returns the color of a tree level: the six plain colors, repeating.
pub fn color_of_level(level: usize) -> (r: Color)
    ensures
        r == spec_color_of_level(level as int),
{
    match level % 6 {
        0 => Color::Cyan,
        1 => Color::Red,
        2 => Color::Magenta,
        3 => Color::Yellow,
        4 => Color::Green,
        _ => Color::Blue,
    }
}

/// Relies on colored's `Colorize::color` and the rendering of the colored
/// string: the text is wrapped in the terminal codes of the given color.
/// The rendering depends on the environment, which may disable coloring
/// altogether, so nothing is promised of the result.
#[verifier::external_body]
fn paint(s: &str, color: &Color) -> String {
    let c = match color {
        Color::Cyan => colored::Color::Cyan,
        Color::Red => colored::Color::Red,
        Color::Magenta => colored::Color::Magenta,
        Color::Yellow => colored::Color::Yellow,
        Color::Green => colored::Color::Green,
        Color::Blue => colored::Color::Blue,
        Color::BrightGreen => colored::Color::BrightGreen,
    };
    colored::Colorize::color(s, c).to_string()
}

/// The first second of year zero, plus a day of slack for the local
/// offset: the RFC 2822 rendering carries only the years 0 to 9999.
pub const RFC2822_MIN_SECONDS: i64 = -62167219200 + 86400;

/// The last second of year 9999, minus a day of slack for the local
/// offset.
pub const RFC2822_MAX_SECONDS: i64 = 253402300799 - 86400;

/// Relies on chrono: the seconds since the Unix epoch are converted to the
/// machine's local time zone and rendered in RFC 2822 form. The local time
/// zone decides the text, so nothing is promised of it. chrono's renderer
/// panics on years outside 0 to 9999, so the bounds keep the local year,
/// whatever the zone's offset, inside that range.
#[verifier::external_body]
fn rfc2822_local(seconds: i64) -> String
    requires
        RFC2822_MIN_SECONDS <= seconds <= RFC2822_MAX_SECONDS,
{
    match chrono::DateTime::<chrono::Utc>::from_timestamp(seconds, 0) {
        Some(t) => t.with_timezone(&chrono::Local).to_rfc2822(),
        None => String::new(),
    }
}

/// Relies on String::push: it appends exactly the one character.
#[verifier::external_body]
fn push_char(out: &mut String, c: char)
    ensures
        final(out)@ == old(out)@.push(c),
{
    out.push(c);
}

/// The decimal digit characters.
pub open spec fn digit_char(d: int) -> char {
    if d == 0 {
        '0'
    } else if d == 1 {
        '1'
    } else if d == 2 {
        '2'
    } else if d == 3 {
        '3'
    } else if d == 4 {
        '4'
    } else if d == 5 {
        '5'
    } else if d == 6 {
        '6'
    } else if d == 7 {
        '7'
    } else if d == 8 {
        '8'
    } else {
        '9'
    }
}

/// The decimal rendering of a non-negative number, most significant digit
/// first, without leading zeroes (zero itself is `"0"`).
pub open spec fn dec_rep(n: int) -> Seq<char>
    decreases n,
{
    if n < 0 {
        Seq::empty()
    } else if n < 10 {
        seq![digit_char(n)]
    } else {
        dec_rep(n / 10).push(digit_char(n % 10))
    }
}

/// Appends the decimal rendering of the number.
fn push_decimal(out: &mut String, n: usize)
    ensures
        final(out)@ == old(out)@ + dec_rep(n as int),
    decreases n,
{
    if n >= 10 {
        push_decimal(out, n / 10);
    }
    let d = n % 10;
    let c: char = match d {
        0 => '0',
        1 => '1',
        2 => '2',
        3 => '3',
        4 => '4',
        5 => '5',
        6 => '6',
        7 => '7',
        8 => '8',
        _ => '9',
    };
    push_char(out, c);
    proof {
        assert(c == digit_char(n as int % 10));
        assert(out@ =~= old(out)@ + dec_rep(n as int));
    }
}

/// Whether the character is a blank that trimming removes: a character
/// with the Unicode White_Space property.
pub open spec fn is_blank(c: char) -> bool {
    ||| c == ' ' || c == '\t' || c == '\n' || c == '\r'
    ||| c == '\u{000B}' || c == '\u{000C}' || c == '\u{0085}' || c == '\u{00A0}'
    ||| c == '\u{1680}' || c == '\u{2000}' || c == '\u{2001}' || c == '\u{2002}'
    ||| c == '\u{2003}' || c == '\u{2004}' || c == '\u{2005}' || c == '\u{2006}'
    ||| c == '\u{2007}' || c == '\u{2008}' || c == '\u{2009}' || c == '\u{200A}'
    ||| c == '\u{2028}' || c == '\u{2029}' || c == '\u{202F}' || c == '\u{205F}'
    ||| c == '\u{3000}'
}

/// Returns whether trimming removes the character.
fn is_blank_char(c: char) -> (r: bool)
    ensures
        r == is_blank(c),
{
    c == ' ' || c == '\t' || c == '\n' || c == '\r' || c == '\u{000B}' || c == '\u{000C}'
        || c == '\u{0085}' || c == '\u{00A0}' || c == '\u{1680}' || c == '\u{2000}'
        || c == '\u{2001}' || c == '\u{2002}' || c == '\u{2003}' || c == '\u{2004}'
        || c == '\u{2005}' || c == '\u{2006}' || c == '\u{2007}' || c == '\u{2008}'
        || c == '\u{2009}' || c == '\u{200A}' || c == '\u{2028}' || c == '\u{2029}'
        || c == '\u{202F}' || c == '\u{205F}' || c == '\u{3000}'
}

/// The sequence with its leading blanks removed.
pub open spec fn trim_front(s: Seq<char>) -> Seq<char>
    decreases s.len(),
{
    if s.len() > 0 && is_blank(s[0]) {
        trim_front(s.drop_first())
    } else {
        s
    }
}

/// The sequence with its trailing blanks removed.
pub open spec fn trim_back(s: Seq<char>) -> Seq<char>
    decreases s.len(),
{
    if s.len() > 0 && is_blank(s.last()) {
        trim_back(s.drop_last())
    } else {
        s
    }
}

/// The sequence with leading and trailing blanks removed.
pub open spec fn trimmed(s: Seq<char>) -> Seq<char> {
    trim_back(trim_front(s))
}

/// The position of the first newline in the sequence, or its length when
/// it holds none.
pub open spec fn first_newline(s: Seq<char>) -> nat
    decreases s.len(),
{
    if s.len() == 0 {
        0
    } else if s[0] == '\n' {
        0
    } else {
        1 + first_newline(s.drop_first())
    }
}

/// The lines of the sequence, split at newlines; a trailing newline ends
/// the last line without starting an empty one.
pub open spec fn split_lines(s: Seq<char>) -> Seq<Seq<char>>
    decreases s.len(),
{
    if s.len() == 0 {
        Seq::empty()
    } else {
        let i = first_newline(s);
        if i >= s.len() {
            seq![s]
        } else {
            seq![s.subrange(0, i as int)] + split_lines(
                s.subrange(i as int + 1, s.len() as int),
            )
        }
    }
}

/// The plain tree edges that open each detailed message line: one `"| "`
/// for each level from zero up.
pub open spec fn edges_text(n: int) -> Seq<char>
    decreases n,
{
    if n <= 0 {
        Seq::empty()
    } else {
        edges_text(n - 1) + seq!['|', ' ']
    }
}

/// The plain detailed rendering of the lines: each one trimmed, behind its
/// tree edges, closed by a newline.
pub open spec fn detailed_text(lines: Seq<Seq<char>>, level: int) -> Seq<char>
    decreases lines.len(),
{
    if lines.len() == 0 {
        Seq::empty()
    } else {
        edges_text(level + 1) + trimmed(lines[0]) + seq!['\n'] + detailed_text(
            lines.drop_first(),
            level,
        )
    }
}

/// The first line that is non-empty after trimming, trimmed; empty when
/// there is none.
pub open spec fn first_nonempty_text(lines: Seq<Seq<char>>) -> Seq<char>
    decreases lines.len(),
{
    if lines.len() == 0 {
        Seq::empty()
    } else if trimmed(lines[0]).len() > 0 {
        trimmed(lines[0])
    } else {
        first_nonempty_text(lines.drop_first())
    }
}

proof fn lemma_trim_front_at(s: Seq<char>, j: int)
    requires
        0 <= j <= s.len(),
        forall|i: int| 0 <= i < j ==> is_blank(s[i]),
        j < s.len() ==> !is_blank(s[j]),
    ensures
        trim_front(s) == s.subrange(j, s.len() as int),
    decreases j,
{
    if j == 0 {
        assert(trim_front(s) =~= s.subrange(0, s.len() as int));
    } else {
        assert(is_blank(s[0]));
        let t = s.drop_first();
        assert(forall|i: int| 0 <= i < j - 1 ==> is_blank(#[trigger] t[i]));
        lemma_trim_front_at(t, j - 1);
        assert(t.subrange(j - 1, t.len() as int) =~= s.subrange(j, s.len() as int));
    }
}

proof fn lemma_trim_back_at(s: Seq<char>, e: int)
    requires
        0 <= e <= s.len(),
        forall|i: int| e <= i < s.len() ==> is_blank(s[i]),
        e > 0 ==> !is_blank(s[e - 1]),
    ensures
        trim_back(s) == s.subrange(0, e),
    decreases s.len() - e,
{
    if e == s.len() {
        assert(trim_back(s) =~= s.subrange(0, e));
    } else {
        assert(is_blank(s.last()));
        let t = s.drop_last();
        assert(forall|i: int| e <= i < t.len() ==> is_blank(#[trigger] t[i]));
        lemma_trim_back_at(t, e);
        assert(t.subrange(0, e) =~= s.subrange(0, e));
    }
}

proof fn lemma_first_newline_at(s: Seq<char>, j: int)
    requires
        0 <= j <= s.len(),
        forall|i: int| 0 <= i < j ==> s[i] != '\n',
        j < s.len() ==> s[j] == '\n',
    ensures
        first_newline(s) == j,
    decreases j,
{
    if j == 0 {
    } else {
        let t = s.drop_first();
        assert(forall|i: int| 0 <= i < j - 1 ==> #[trigger] t[i] != '\n');
        lemma_first_newline_at(t, j - 1);
    }
}

/// Finds the bounds of the trimmed middle of `chars[start..end]`.
fn trim_bounds(chars: &Vec<char>, start: usize, end: usize) -> (r: (usize, usize))
    requires
        start <= end <= chars@.len(),
    ensures
        start <= r.0 <= r.1 <= end,
        chars@.subrange(r.0 as int, r.1 as int) == trimmed(
            chars@.subrange(start as int, end as int),
        ),
{
    let ghost line = chars@.subrange(start as int, end as int);
    let mut s = start;
    while s < end && is_blank_char(chars[s])
        invariant
            start <= s <= end <= chars@.len(),
            forall|i: int| start <= i < s ==> is_blank(chars@[i]),
        decreases end - s,
    {
        s = s + 1;
    }
    let mut e = end;
    while e > s && is_blank_char(chars[e - 1])
        invariant
            s <= e <= end <= chars@.len(),
            forall|i: int| e <= i < end ==> is_blank(chars@[i]),
        decreases e,
    {
        e = e - 1;
    }
    proof {
        lemma_trim_front_at(line, s - start);
        let mid = line.subrange(s - start, line.len() as int);
        assert(mid =~= chars@.subrange(s as int, end as int));
        lemma_trim_back_at(mid, e - s);
        assert(mid.subrange(0, e - s) =~= chars@.subrange(s as int, e as int));
    }
    (s, e)
}

/// Appends `chars[start..end]` with its leading and trailing blanks
/// removed.
fn push_trimmed(out: &mut String, chars: &Vec<char>, start: usize, end: usize)
    requires
        start <= end <= chars@.len(),
    ensures
        final(out)@ == old(out)@ + trimmed(chars@.subrange(start as int, end as int)),
{
    let (s, e) = trim_bounds(chars, start, end);
    let mut i = s;
    while i < e
        invariant
            s <= i <= e <= chars@.len(),
            out@ == old(out)@ + chars@.subrange(s as int, i as int),
        decreases e - i,
    {
        let c = chars[i];
        push_char(out, c);
        i = i + 1;
        proof {
            assert(out@ =~= old(out)@ + chars@.subrange(s as int, i as int));
        }
    }
    proof {
        if s == e {
            assert(out@ =~= old(out)@ + chars@.subrange(s as int, e as int));
        }
    }
}

/// Collects the characters of the slice.
fn chars_of(msg: &str) -> (r: Vec<char>)
    ensures
        r@ == msg@,
{
    let n = msg.unicode_len();
    let mut chars: Vec<char> = Vec::new();
    let mut idx: usize = 0;
    while idx < n
        invariant
            idx <= n,
            n == msg@.len(),
            chars@ == msg@.subrange(0, idx as int),
        decreases n - idx,
    {
        let c = msg.get_char(idx);
        chars.push(c);
        idx = idx + 1;
        proof {
            assert(chars@ =~= msg@.subrange(0, idx as int));
        }
    }
    proof {
        assert(chars@ =~= msg@);
    }
    chars
}

/// Which parts a history listing shows, and how.
#[derive(Copy, Clone, Debug, Hash, Eq, PartialEq, Structural)]
pub struct Format {
    /// Whether the listing is colored.
    pub colored: bool,
    /// Whether the current position is tagged.
    pub current: bool,
    /// Whether messages are rendered in full, line by line, instead of by
    /// their first non-empty line.
    pub detailed: bool,
    /// Whether positions are shown.
    pub position: bool,
    /// Whether the saved position is tagged.
    pub saved: bool,
}

impl Default for Format {
    /// Everything switched on.
    fn default() -> (r: Format)
        ensures
            r == (Format {
                colored: true,
                current: true,
                detailed: true,
                position: true,
                saved: true,
            }),
    {
        Format { colored: true, current: true, detailed: true, position: true, saved: true }
    }
}

impl Format {
    /// Appends the mark that tags the current position in a listing: a
    /// `*`, in the level's color when the listing is colored.
    pub fn mark(self, out: &mut String, level: usize)
        ensures
            old(out)@.is_prefix_of(final(out)@),
            !self.colored ==> final(out)@ == old(out)@ + seq!['*'],
    {
        if self.colored {
            let painted = paint("*", &color_of_level(level));
            out.append(painted.as_str());
        } else {
            push_char(out, '*');
        }
        proof {
            assert(old(out)@.is_prefix_of(out@)) by {
                assert(old(out)@ =~= out@.subrange(0, old(out)@.len() as int));
            }
            if !self.colored {
                assert(out@ =~= old(out)@ + seq!['*']);
            }
        }
    }

    /// Appends one tree edge: a `|`, in the level's color when the listing
    /// is colored.
    pub fn edge(self, out: &mut String, level: usize)
        ensures
            old(out)@.is_prefix_of(final(out)@),
            !self.colored ==> final(out)@ == old(out)@ + seq!['|'],
    {
        if self.colored {
            let painted = paint("|", &color_of_level(level));
            out.append(painted.as_str());
        } else {
            push_char(out, '|');
        }
        proof {
            assert(old(out)@.is_prefix_of(out@)) by {
                assert(old(out)@ =~= out@.subrange(0, old(out)@.len() as int));
            }
            if !self.colored {
                assert(out@ =~= old(out)@ + seq!['|']);
            }
        }
    }

    /// Appends the edge pair that opens a branch split: `|/`, each edge in
    /// its level's color when the listing is colored.
    pub fn split(self, out: &mut String, level: usize)
        requires
            level < usize::MAX,
        ensures
            old(out)@.is_prefix_of(final(out)@),
            !self.colored ==> final(out)@ == old(out)@ + seq!['|', '/'],
    {
        if self.colored {
            let left = paint("|", &color_of_level(level));
            out.append(left.as_str());
            let right = paint("/", &color_of_level(level + 1));
            out.append(right.as_str());
            proof {
                assert(old(out)@.is_prefix_of(out@)) by {
                    assert(old(out)@ =~= out@.subrange(0, old(out)@.len() as int));
                }
            }
        } else {
            push_char(out, '|');
            push_char(out, '/');
            proof {
                assert(out@ =~= old(out)@ + seq!['|', '/']);
                assert(old(out)@.is_prefix_of(out@)) by {
                    assert(old(out)@ =~= out@.subrange(0, old(out)@.len() as int));
                }
            }
        }
    }
}

/// The text of a position tag: the cursor, or branch and cursor, in
/// brackets behind a space.
pub open spec fn position_text(at: At, use_branch: bool) -> Seq<char> {
    if use_branch {
        seq![' ', '['] + dec_rep(at.branch as int) + seq![':'] + dec_rep(at.cursor as int)
            + seq![']']
    } else {
        seq![' ', '['] + dec_rep(at.cursor as int) + seq![']']
    }
}

impl Format {
    /// Appends the position tag for `at` when positions are shown: the
    /// bracketed part in yellow when the listing is colored.
    pub fn position(self, out: &mut String, at: At, use_branch: bool)
        ensures
            old(out)@.is_prefix_of(final(out)@),
            !self.position ==> final(out)@ == old(out)@,
            self.position && !self.colored ==> final(out)@ == old(out)@ + position_text(
                at,
                use_branch,
            ),
    {
        if self.position {
            let mut text = String::new();
            push_char(&mut text, '[');
            if use_branch {
                push_decimal(&mut text, at.branch);
                push_char(&mut text, ':');
            }
            push_decimal(&mut text, at.cursor);
            push_char(&mut text, ']');
            push_char(out, ' ');
            if self.colored {
                let painted = paint(text.as_str(), &Color::Yellow);
                out.append(painted.as_str());
            } else {
                out.append(text.as_str());
            }
            proof {
                if !self.colored {
                    assert(out@ =~= old(out)@ + position_text(at, use_branch));
                }
                assert(old(out)@.is_prefix_of(out@)) by {
                    assert(old(out)@ =~= out@.subrange(0, old(out)@.len() as int));
                }
            }
        }
    }

    /// Appends the tag for the current position when `at` is the current
    /// one and the tag is shown.
    pub fn current(self, out: &mut String, at: At, current: At)
        ensures
            old(out)@.is_prefix_of(final(out)@),
            !(self.current && at == current) ==> final(out)@ == old(out)@,
            (self.current && at == current && !self.colored) ==> final(out)@ == old(out)@
                + " (current)"@,
    {
        if self.current && at == current {
            if self.colored {
                push_char(out, ' ');
                let opening = paint("(", &Color::Yellow);
                out.append(opening.as_str());
                let word = paint("current", &Color::Cyan);
                out.append(word.as_str());
                let closing = paint(")", &Color::Yellow);
                out.append(closing.as_str());
            } else {
                out.append(" (current)");
            }
            proof {
                assert(old(out)@.is_prefix_of(out@)) by {
                    assert(old(out)@ =~= out@.subrange(0, old(out)@.len() as int));
                }
            }
        }
    }

    /// Appends the tag for the saved position when `at` is the saved one
    /// and the tag is shown.
    pub fn saved(self, out: &mut String, at: At, saved: Option<At>)
        ensures
            old(out)@.is_prefix_of(final(out)@),
            !(self.saved && saved == Some(at)) ==> final(out)@ == old(out)@,
            (self.saved && saved == Some(at) && !self.colored) ==> final(out)@ == old(out)@
                + " (saved)"@,
    {
        let tag = self.saved && match saved {
            Some(s) => s == at,
            None => false,
        };
        if tag {
            if self.colored {
                push_char(out, ' ');
                let opening = paint("(", &Color::Yellow);
                out.append(opening.as_str());
                let word = paint("saved", &Color::BrightGreen);
                out.append(word.as_str());
                let closing = paint(")", &Color::Yellow);
                out.append(closing.as_str());
            } else {
                out.append(" (saved)");
            }
            proof {
                assert(old(out)@.is_prefix_of(out@)) by {
                    assert(old(out)@ =~= out@.subrange(0, old(out)@.len() as int));
                }
            }
        }
    }

    /// Appends the timestamp tag: the instant in the machine's local time
    /// zone, bracketed behind a space, in yellow when the listing is
    /// colored. The bounds keep the rendering within the years RFC 2822
    /// can carry.
    pub fn timestamp(self, out: &mut String, seconds: i64)
        requires
            RFC2822_MIN_SECONDS <= seconds <= RFC2822_MAX_SECONDS,
        ensures
            old(out)@.is_prefix_of(final(out)@),
    {
        let text = rfc2822_local(seconds);
        push_char(out, ' ');
        if self.colored {
            let opening = paint("[", &Color::Yellow);
            out.append(opening.as_str());
            let body = paint(text.as_str(), &Color::Yellow);
            out.append(body.as_str());
            let closing = paint("]", &Color::Yellow);
            out.append(closing.as_str());
        } else {
            push_char(out, '[');
            out.append(text.as_str());
            push_char(out, ']');
        }
        proof {
            assert(old(out)@.is_prefix_of(out@)) by {
                assert(old(out)@ =~= out@.subrange(0, old(out)@.len() as int));
            }
        }
    }

    /// Appends the message of a command. When the format is detailed,
    /// every line appears trimmed behind its tree edges and is closed by a
    /// newline; otherwise only the first line that is non-empty after
    /// trimming appears, trimmed, without a newline.
    pub fn message(self, out: &mut String, msg: &str, level: usize)
        requires
            level < usize::MAX,
        ensures
            old(out)@.is_prefix_of(final(out)@),
            !self.detailed ==> final(out)@ == old(out)@ + first_nonempty_text(split_lines(msg@)),
            self.detailed && !self.colored ==> final(out)@ == old(out)@ + detailed_text(
                split_lines(msg@),
                level as int,
            ),
    {
        let chars = chars_of(msg);
        if self.detailed {
            self.message_detailed(out, &chars, level);
        } else {
            self.message_first_line(out, &chars);
        }
    }

    /// Appends every line of the message, trimmed, behind its tree edges.
    fn message_detailed(self, out: &mut String, chars: &Vec<char>, level: usize)
        requires
            level < usize::MAX,
        ensures
            old(out)@.is_prefix_of(final(out)@),
            !self.colored ==> final(out)@ == old(out)@ + detailed_text(
                split_lines(chars@),
                level as int,
            ),
    {
        let len = chars.len();
        let mut pos: usize = 0;
        let ghost full = detailed_text(split_lines(chars@), level as int);
        let ghost mut done: Seq<char> = Seq::empty();
        proof {
            assert(chars@.subrange(0, len as int) =~= chars@);
            assert(Seq::<char>::empty() + full =~= full);
        }
        while pos < len
            invariant
                pos <= len,
                len == chars@.len(),
                level < usize::MAX,
                old(out)@.is_prefix_of(out@),
                !self.colored ==> out@ == old(out)@ + done,
                !self.colored ==> done + detailed_text(
                    split_lines(chars@.subrange(pos as int, len as int)),
                    level as int,
                ) == full,
            decreases len - pos,
        {
            let ghost rest = chars@.subrange(pos as int, len as int);
            let mut j = pos;
            while j < len && chars[j] != '\n'
                invariant
                    pos <= j <= len,
                    len == chars@.len(),
                    forall|i: int| pos <= i < j ==> chars@[i] != '\n',
                decreases len - j,
            {
                j = j + 1;
            }
            let ghost before_line = out@;
            self.render_line(out, chars, pos, j, level);
            proof {
                lemma_prefix_trans(old(out)@, before_line, out@);
                let jj = (j - pos) as int;
                assert(forall|i: int| 0 <= i < jj ==> rest[i] != '\n');
                assert(jj < rest.len() ==> rest[jj] == '\n');
                lemma_first_newline_at(rest, jj);
                if !self.colored {
                    let line = rest.subrange(0, jj);
                    assert(line =~= chars@.subrange(pos as int, j as int));
                    let step = edges_text(level as int + 1) + trimmed(line) + seq!['\n'];
                    assert(out@ =~= old(out)@ + (done + step));
                    if jj < rest.len() {
                        let tail = rest.subrange(jj + 1, rest.len() as int);
                        assert(split_lines(rest) == seq![line] + split_lines(tail));
                        assert(split_lines(rest).drop_first() =~= split_lines(tail));
                        assert(split_lines(rest)[0] == line);
                        assert(detailed_text(split_lines(rest), level as int) == step
                            + detailed_text(split_lines(tail), level as int));
                        assert(tail =~= chars@.subrange(j + 1, len as int));
                        assert((done + step) + detailed_text(split_lines(tail), level as int)
                            =~= done + (step + detailed_text(split_lines(tail), level as int)));
                    } else {
                        assert(split_lines(rest) == seq![rest]);
                        assert(split_lines(rest)[0] == rest);
                        assert(line =~= rest);
                        assert(split_lines(rest).drop_first() =~= Seq::<Seq<char>>::empty());
                        assert(detailed_text(Seq::<Seq<char>>::empty(), level as int)
                            == Seq::<char>::empty());
                        assert(detailed_text(split_lines(rest), level as int) =~= step);
                        assert(chars@.subrange(len as int, len as int) =~= Seq::<char>::empty());
                        assert(split_lines(Seq::<char>::empty()) == Seq::<Seq<char>>::empty());
                        assert((done + step) + detailed_text(
                            split_lines(chars@.subrange(len as int, len as int)),
                            level as int,
                        ) =~= done + step);
                    }
                    done = done + step;
                }
            }
            if j < len {
                pos = j + 1;
            } else {
                pos = len;
            }
        }
        proof {
            if !self.colored {
                assert(chars@.subrange(len as int, len as int) =~= Seq::<char>::empty());
                assert(out@ =~= old(out)@ + full);
            }
        }
    }

    /// Appends one trimmed line behind its tree edges, closed by a newline.
    fn render_line(self, out: &mut String, chars: &Vec<char>, start: usize, end: usize,
        level: usize)
        requires
            start <= end <= chars@.len(),
            level < usize::MAX,
        ensures
            old(out)@.is_prefix_of(final(out)@),
            !self.colored ==> final(out)@ == old(out)@ + (edges_text(level as int + 1) + trimmed(
                chars@.subrange(start as int, end as int),
            ) + seq!['\n']),
    {
        let mut i: usize = 0;
        while i <= level
            invariant
                i <= level + 1,
                level < usize::MAX,
                old(out)@.is_prefix_of(out@),
                !self.colored ==> out@ == old(out)@ + edges_text(i as int),
            decreases level + 1 - i,
        {
            let ghost before = out@;
            self.edge(out, i);
            push_char(out, ' ');
            i = i + 1;
            proof {
                lemma_prefix_trans(old(out)@, before, out@);
                if !self.colored {
                    assert(out@ =~= old(out)@ + edges_text(i as int));
                }
            }
        }
        let ghost before_text = out@;
        push_trimmed(out, chars, start, end);
        push_char(out, '\n');
        proof {
            lemma_prefix_trans(old(out)@, before_text, out@);
            if !self.colored {
                assert(out@ =~= old(out)@ + (edges_text(level as int + 1) + trimmed(
                    chars@.subrange(start as int, end as int),
                ) + seq!['\n']));
            }
        }
    }

    /// Appends the first line that is non-empty after trimming, trimmed.
    fn message_first_line(self, out: &mut String, chars: &Vec<char>)
        ensures
            final(out)@ == old(out)@ + first_nonempty_text(split_lines(chars@)),
    {
        let len = chars.len();
        let mut pos: usize = 0;
        let ghost full = first_nonempty_text(split_lines(chars@));
        let mut found = false;
        proof {
            assert(chars@.subrange(0, len as int) =~= chars@);
        }
        while pos < len && !found
            invariant
                pos <= len,
                len == chars@.len(),
                !found ==> out@ == old(out)@ && first_nonempty_text(
                    split_lines(chars@.subrange(pos as int, len as int)),
                ) == full,
                found ==> out@ == old(out)@ + full,
            decreases len - pos,
        {
            let ghost rest = chars@.subrange(pos as int, len as int);
            let mut j = pos;
            while j < len && chars[j] != '\n'
                invariant
                    pos <= j <= len,
                    len == chars@.len(),
                    forall|i: int| pos <= i < j ==> chars@[i] != '\n',
                decreases len - j,
            {
                j = j + 1;
            }
            proof {
                let jj = (j - pos) as int;
                assert(forall|i: int| 0 <= i < jj ==> rest[i] != '\n');
                assert(jj < rest.len() ==> rest[jj] == '\n');
                lemma_first_newline_at(rest, jj);
                assert(rest.subrange(0, jj) =~= chars@.subrange(pos as int, j as int));
                if jj < rest.len() {
                    assert(split_lines(rest) == seq![rest.subrange(0, jj)] + split_lines(
                        rest.subrange(jj + 1, rest.len() as int),
                    ));
                    assert(split_lines(rest)[0] == rest.subrange(0, jj));
                    assert(split_lines(rest).drop_first() =~= split_lines(
                        rest.subrange(jj + 1, rest.len() as int),
                    ));
                    assert(rest.subrange(jj + 1, rest.len() as int) =~= chars@.subrange(
                        j + 1,
                        len as int,
                    ));
                } else {
                    assert(split_lines(rest) == seq![rest]);
                    assert(split_lines(rest)[0] == rest);
                    assert(rest =~= chars@.subrange(pos as int, j as int));
                    assert(split_lines(rest).drop_first() =~= Seq::<Seq<char>>::empty());
                }
            }
            let (s, e) = trim_bounds(chars, pos, j);
            if s < e {
                let mut i = s;
                while i < e
                    invariant
                        s <= i <= e <= chars@.len(),
                        out@ == old(out)@ + chars@.subrange(s as int, i as int),
                    decreases e - i,
                {
                    let c = chars[i];
                    push_char(out, c);
                    i = i + 1;
                    proof {
                        assert(out@ =~= old(out)@ + chars@.subrange(s as int, i as int));
                    }
                }
                found = true;
                proof {
                    assert(trimmed(chars@.subrange(pos as int, j as int)).len() > 0);
                    assert(full == trimmed(chars@.subrange(pos as int, j as int)));
                }
            } else {
                proof {
                    assert(trimmed(chars@.subrange(pos as int, j as int)) =~= chars@.subrange(
                        s as int,
                        e as int,
                    ));
                    assert(trimmed(chars@.subrange(pos as int, j as int)).len() == 0);
                    if (j - pos) < rest.len() {
                        assert(first_nonempty_text(split_lines(rest)) == first_nonempty_text(
                            split_lines(chars@.subrange(j + 1, len as int)),
                        ));
                    } else {
                        assert(rest == chars@.subrange(pos as int, j as int));
                        assert(trimmed(rest).len() == 0);
                        assert(first_nonempty_text(Seq::<Seq<char>>::empty())
                            == Seq::<char>::empty());
                        assert(first_nonempty_text(split_lines(rest)) == Seq::<char>::empty());
                        assert(chars@.subrange(len as int, len as int) =~= Seq::<char>::empty());
                        assert(split_lines(Seq::<char>::empty()) == Seq::<Seq<char>>::empty());
                    }
                }
            }
            if j < len {
                pos = j + 1;
            } else {
                pos = len;
            }
        }
        proof {
            if !found {
                assert(chars@.subrange(pos as int, len as int) =~= Seq::<char>::empty());
                assert(full == Seq::<char>::empty());
                assert(out@ =~= old(out)@ + full);
            }
        }
    }
}

/// A prefix of a prefix is a prefix.
proof fn lemma_prefix_trans(a: Seq<char>, b: Seq<char>, c: Seq<char>)
    requires
        a.is_prefix_of(b),
        b.is_prefix_of(c),
    ensures
        a.is_prefix_of(c),
{
    assert(a =~= c.subrange(0, a.len() as int));
}

} // verus!
