use crate::diagnostic::Range;
use crate::text::{line_texts, texts};
use vstd::prelude::*;

verus! {

/// `n` copies of the character `c`; empty where `n` is not positive.
pub open spec fn repeated(c: char, n: int) -> Seq<char> {
    Seq::new((if n < 0 { 0 } else { n }) as nat, |i: int| c)
}

/// `s` shown in red where colours are on, and as it is where they are off.
pub open spec fn red_text(s: Seq<char>, use_color: bool) -> Seq<char> {
    if use_color {
        "\x1b[0m\x1b[31m"@ + s + "\x1b[0m"@
    } else {
        s
    }
}

/// `s` shown in cyan where colours are on, and as it is where they are off.
pub open spec fn cyan_text(s: Seq<char>, use_color: bool) -> Seq<char> {
    if use_color {
        "\x1b[0m\x1b[36m"@ + s + "\x1b[0m"@
    } else {
        s
    }
}

/// The length of a line in bytes of its UTF-8 encoding.
pub open spec fn byte_len(line: Seq<char>) -> int {
    vstd::utf8::encode_utf8(line).len() as int
}

/// The range can be underlined on these lines: it is ordered, and where it
/// spans several lines its start column lies within the first of them.
pub open spec fn range_fits(range: Range, lines: Seq<Seq<char>>) -> bool {
    &&& range.is_ordered()
    &&& (!range.is_single_line() && range.start.line_index < lines.len()
        ==> range.start.column_index <= byte_len(lines[range.start.line_index as int]))
}

/// The marker line under line `i` of the source, whose text is `line`; `None`
/// where the line gets none.
pub open spec fn marker_for(range: Range, i: int, line: Seq<char>, use_color: bool) -> Option<
    Seq<char>,
> {
    if range.is_single_line() {
        Some(
            repeated(' ', range.start.column_index as int) + red_text(
                repeated('^', range.end.column_index - range.start.column_index),
                use_color,
            ),
        )
    } else if i == range.start.line_index {
        Some(
            repeated(' ', range.start.column_index as int) + red_text(
                repeated('^', byte_len(line) - range.start.column_index),
                use_color,
            ),
        )
    } else if i == range.end.line_index {
        Some(red_text(repeated('^', range.end.column_index as int), use_color))
    } else if byte_len(line) != 0 {
        Some(red_text(repeated('^', byte_len(line)), use_color))
    } else {
        None
    }
}

/// What line `i` of the source adds to the snippet: itself, then its marker.
pub open spec fn entry_for(lines: Seq<Seq<char>>, range: Range, use_color: bool, i: int) -> Seq<
    Seq<char>,
> {
    match marker_for(range, i, lines[i], use_color) {
        Some(m) => seq![lines[i], m],
        None => seq![lines[i]],
    }
}

/// The snippet for the source lines from the range's first line up to, and
/// without, line `hi`.
pub open spec fn snippet_until(lines: Seq<Seq<char>>, range: Range, use_color: bool, hi: int) -> Seq<
    Seq<char>,
>
    decreases hi,
{
    if hi <= range.start.line_index || hi <= 0 {
        Seq::empty()
    } else {
        snippet_until(lines, range, use_color, hi - 1) + entry_for(lines, range, use_color, hi - 1)
    }
}

/// The snippet of a range: each source line from its first to its last line
/// that exists, with the marker lines between them.
pub open spec fn snippet(lines: Seq<Seq<char>>, range: Range, use_color: bool) -> Seq<Seq<char>> {
    snippet_until(
        lines,
        range,
        use_color,
        if lines.len() <= range.end.line_index {
            lines.len() as int
        } else {
            range.end.line_index + 1
        },
    )
}

/// The lines with a line feed between each two of them.
pub open spec fn joined(ls: Seq<Seq<char>>) -> Seq<char>
    decreases ls.len(),
{
    if ls.len() == 0 {
        Seq::empty()
    } else if ls.len() == 1 {
        ls[0]
    } else {
        joined(ls.drop_last()) + "\n"@ + ls.last()
    }
}

/// The hint line with its line feed, or nothing.
pub open spec fn hint_text(hint: Option<Seq<char>>, use_color: bool) -> Seq<char> {
    match hint {
        Some(h) => "    "@ + cyan_text("hint:"@, use_color) + " "@ + h + "\n"@,
        None => Seq::empty(),
    }
}

/// The help line that points to the rule's documentation.
pub open spec fn help_text(code: Seq<char>, use_color: bool) -> Seq<char> {
    "    "@ + cyan_text("help:"@, use_color)
        + " for further information visit https://lint.deno.land/#"@ + code
}

/// The whole text of one rendered diagnostic.
pub open spec fn formatted(
    code: Seq<char>,
    message_line: Seq<char>,
    lines: Seq<Seq<char>>,
    range: Range,
    hint: Option<Seq<char>>,
    location: Seq<char>,
    use_color: bool,
) -> Seq<char> {
    message_line + "\n"@ + joined(snippet(lines, range, use_color)) + "\n    at "@ + location
        + "\n\n"@ + hint_text(hint, use_color) + help_text(code, use_color)
}

/// The view of an optional borrowed string.
pub open spec fn hint_view(hint: Option<&String>) -> Option<Seq<char>> {
    match hint {
        Some(h) => Some(h@),
        None => None,
    }
}

pub fn spaces(n: usize) -> (s: String)
    ensures
        s@ == repeated(' ', n as int),
{
    let mut s = String::new();
    let mut i: usize = 0;
    assert(s@ =~= repeated(' ', 0));
    while i < n
        invariant
            i <= n,
            s@ == repeated(' ', i as int),
        decreases n - i,
    {
        s.append(" ");
        proof {
            reveal_strlit(" ");
            assert(s@ =~= repeated(' ', i + 1));
        }
        i += 1;
    }
    s
}

pub fn carets(n: usize) -> (s: String)
    ensures
        s@ == repeated('^', n as int),
{
    let mut s = String::new();
    let mut i: usize = 0;
    assert(s@ =~= repeated('^', 0));
    while i < n
        invariant
            i <= n,
            s@ == repeated('^', i as int),
        decreases n - i,
    {
        s.append("^");
        proof {
            reveal_strlit("^");
            assert(s@ =~= repeated('^', i + 1));
        }
        i += 1;
    }
    s
}

pub fn red(s: &str, use_color: bool) -> (r: String)
    ensures
        r@ == red_text(s@, use_color),
{
    let mut r = String::new();
    if use_color {
        r.append("\x1b[0m\x1b[31m");
        r.append(s);
        r.append("\x1b[0m");
        assert(r@ =~= red_text(s@, use_color));
    } else {
        r.append(s);
        assert(r@ =~= s@);
    }
    r
}

pub fn cyan(s: &str, use_color: bool) -> (r: String)
    ensures
        r@ == cyan_text(s@, use_color),
{
    let mut r = String::new();
    if use_color {
        r.append("\x1b[0m\x1b[36m");
        r.append(s);
        r.append("\x1b[0m");
        assert(r@ =~= cyan_text(s@, use_color));
    } else {
        r.append(s);
        assert(r@ =~= s@);
    }
    r
}

/// Decides `range_fits`.
pub fn check_range_fits(range: Range, source_lines: &[&str]) -> (b: bool)
    ensures
        b == range_fits(range, line_texts(source_lines@)),
{
    if !range.check_ordered() {
        return false;
    }
    if range.start.line_index != range.end.line_index && range.start.line_index
        < source_lines.len() {
        let line: &str = source_lines[range.start.line_index];
        assert(line_texts(source_lines@)[range.start.line_index as int] == line@);
        range.start.column_index <= line.as_bytes().len()
    } else {
        true
    }
}

/// The marker line under source line `i`, if it gets one.
pub fn marker_line(range: Range, i: usize, line: &str, use_color: bool) -> (m: Option<String>)
    requires
        range.is_ordered(),
        !range.is_single_line() && i == range.start.line_index ==> range.start.column_index
            <= byte_len(line@),
    ensures
        m.is_some() == marker_for(range, i as int, line@, use_color).is_some(),
        m.is_some() ==> m.unwrap()@ == marker_for(range, i as int, line@, use_color).unwrap(),
{
    if range.start.line_index == range.end.line_index {
        let mut m = spaces(range.start.column_index);
        let c = carets(range.end.column_index - range.start.column_index);
        let r = red(c.as_str(), use_color);
        m.append(r.as_str());
        Some(m)
    } else {
        let line_len: usize = line.as_bytes().len();
        if range.start.line_index == i {
            let mut m = spaces(range.start.column_index);
            let c = carets(line_len - range.start.column_index);
            let r = red(c.as_str(), use_color);
            m.append(r.as_str());
            Some(m)
        } else if range.end.line_index == i {
            let c = carets(range.end.column_index);
            Some(red(c.as_str(), use_color))
        } else if line_len != 0 {
            let c = carets(line_len);
            Some(red(c.as_str(), use_color))
        } else {
            None
        }
    }
}

/// The source lines of the range, each followed by its marker line.
pub fn snippet_lines(source_lines: &[&str], range: Range, use_color: bool) -> (out: Vec<String>)
    requires
        range_fits(range, line_texts(source_lines@)),
    ensures
        texts(out@) == snippet(line_texts(source_lines@), range, use_color),
{
    let ghost lines = line_texts(source_lines@);
    let mut out: Vec<String> = Vec::new();
    let mut i: usize = range.start.line_index;
    assert(texts(out@) =~= snippet_until(lines, range, use_color, i as int));
    while i < source_lines.len() && i <= range.end.line_index
        invariant
            lines == line_texts(source_lines@),
            range_fits(range, lines),
            range.start.line_index <= i,
            i > range.start.line_index ==> i <= source_lines@.len() && i <= range.end.line_index
                + 1,
            texts(out@) == snippet_until(lines, range, use_color, i as int),
        decreases source_lines@.len() - i,
    {
        let line: &str = source_lines[i];
        let ghost before = out@;
        assert(lines[i as int] == line@);
        out.push(line.to_owned());
        let m = marker_line(range, i, line, use_color);
        match m {
            Some(text) => {
                out.push(text);
                assert(texts(out@) =~= texts(before) + seq![line@, text@]);
            },
            None => {
                assert(texts(out@) =~= texts(before) + seq![line@]);
            },
        }
        i += 1;
    }
    out
}

/// Joins the lines with a line feed between each two.
pub fn join_lines(lines: &Vec<String>) -> (s: String)
    ensures
        s@ == joined(texts(lines@)),
{
    let mut s = String::new();
    let mut k: usize = 0;
    assert(texts(lines@).take(0) =~= Seq::<Seq<char>>::empty());
    while k < lines.len()
        invariant
            k <= lines@.len(),
            s@ == joined(texts(lines@).take(k as int)),
        decreases lines@.len() - k,
    {
        let ghost prev = s@;
        if k > 0 {
            s.append("\n");
        }
        s.append(lines[k].as_str());
        proof {
            let t = texts(lines@).take(k + 1);
            assert(t.drop_last() =~= texts(lines@).take(k as int));
            assert(t.last() == lines@[k as int]@);
            if k == 0 {
                assert(s@ =~= lines@[0]@);
            }
        }
        k += 1;
    }
    assert(texts(lines@).take(lines@.len() as int) =~= texts(lines@));
    s
}

/// Renders one diagnostic: the message line, the underlined source lines, the
/// location, the hint if there is one, and the help line.
pub fn format_diagnostic(
    diagnostic_code: &str,
    message_line: &str,
    source_lines: &[&str],
    range: Range,
    maybe_hint: Option<&String>,
    formatted_location: &str,
    use_color: bool,
) -> (text: String)
    requires
        range_fits(range, line_texts(source_lines@)),
    ensures
        text@ == formatted(
            diagnostic_code@,
            message_line@,
            line_texts(source_lines@),
            range,
            hint_view(maybe_hint),
            formatted_location@,
            use_color,
        ),
{
    let lines = snippet_lines(source_lines, range, use_color);
    let snippets = join_lines(&lines);

    let mut hint = String::new();
    match maybe_hint {
        Some(h) => {
            let label = cyan("hint:", use_color);
            hint.append("    ");
            hint.append(label.as_str());
            hint.append(" ");
            hint.append(h.as_str());
            hint.append("\n");
            assert(hint@ =~= hint_text(hint_view(maybe_hint), use_color));
        },
        None => {},
    }
    let mut help = String::new();
    let label = cyan("help:", use_color);
    help.append("    ");
    help.append(label.as_str());
    help.append(" for further information visit https://lint.deno.land/#");
    help.append(diagnostic_code);
    assert(help@ =~= help_text(diagnostic_code@, use_color));

    let mut text = String::new();
    text.append(message_line);
    text.append("\n");
    text.append(snippets.as_str());
    text.append("\n    at ");
    text.append(formatted_location);
    text.append("\n\n");
    text.append(hint.as_str());
    text.append(help.as_str());
    assert(text@ =~= formatted(
        diagnostic_code@,
        message_line@,
        line_texts(source_lines@),
        range,
        hint_view(maybe_hint),
        formatted_location@,
        use_color,
    ));
    text
}

} // verus!
