use vstd::prelude::*;

use crate::text::{chars_of, lines_of, split_lines, text_of_chars, trim_start_of, trim_start_text};

verus! {

/// How a piece of message text is shown.
#[derive(Debug, Clone, Copy, PartialEq, Eq, Structural)]
pub enum MdStyle {
    Plain,
    Bold,
    Italic,
    /// Inline code.
    Code,
    /// A link, shown as `text (url)`.
    Link,
    /// A heading of level 1 to 6.
    Heading(usize),
    /// A fence line or a line inside a fenced block, shown verbatim.
    CodeBlock,
}

/// A run of text with one style.
#[derive(Debug)]
pub struct MdSpan {
    pub text: String,
    pub style: MdStyle,
}

/// One rendered line.
#[derive(Debug)]
pub struct MdLine {
    pub spans: Vec<MdSpan>,
}

/// `i` is the first position at or after `start` that holds `d`.
pub open spec fn first_single(chars: Seq<char>, start: int, d: char, i: int) -> bool {
    start <= i < chars.len() && chars[i] == d && forall|j: int| start <= j < i ==> #[trigger] chars[j] != d
}

/// `d` occurs in `chars` at position `i`.
pub open spec fn occurs_at(chars: Seq<char>, d: Seq<char>, i: int) -> bool {
    0 <= i && i + d.len() <= chars.len() && chars.subrange(i, i + d.len()) == d
}

/// Finds the first occurrence of a multi-character delimiter at or after `start`.
pub fn find_closing_delimiter(chars: &[char], start: usize, delimiter: &str) -> (r: Option<usize>)
    ensures
        r matches Some(i) ==> start <= i && occurs_at(chars@, delimiter@, i as int) && forall|j: int|
            start <= j < i ==> !#[trigger] occurs_at(chars@, delimiter@, j),
        r is None ==> forall|j: int| start <= j ==> !#[trigger] occurs_at(chars@, delimiter@, j),
{
    let n = delimiter.unicode_len();
    if n > chars.len() {
        return None;
    }
    let len = chars.len();
    let last = len - n;
    let mut i: usize = start;
    while i <= last
        invariant
            n == delimiter@.len(),
            len == chars@.len(),
            last == chars@.len() - n,
            start <= i,
            forall|j: int| start <= j < i ==> !#[trigger] occurs_at(chars@, delimiter@, j),
        decreases last + 1 - i,
    {
        let mut k: usize = 0;
        while k < n && chars[i + k] == delimiter.get_char(k)
            invariant
                k <= n,
                n == delimiter@.len(),
                n <= chars@.len(),
                len == chars@.len(),
                i <= last,
                last == chars@.len() - n,
                forall|t: int| 0 <= t < k ==> chars@[i + t] == delimiter@[t],
            decreases n - k,
        {
            k += 1;
        }
        if k == n {
            assert(chars@.subrange(i as int, i + n) =~= delimiter@);
            return Some(i);
        }
        assert(chars@.subrange(i as int, i + n)[k as int] != delimiter@[k as int]);
        i += 1;
    }
    None
}

/// Finds the first `delimiter` at or after `start`.
pub fn find_closing_single(chars: &[char], start: usize, delimiter: char) -> (r: Option<usize>)
    ensures
        r matches Some(i) ==> first_single(chars@, start as int, delimiter, i as int),
        r is None ==> forall|j: int| start <= j < chars@.len() ==> #[trigger] chars@[j] != delimiter,
{
    let mut i: usize = start;
    while i < chars.len()
        invariant
            start <= i,
            forall|j: int| start <= j < i ==> #[trigger] chars@[j] != delimiter,
        decreases chars.len() - i,
    {
        if chars[i] == delimiter {
            return Some(i);
        }
        i += 1;
    }
    None
}

/// The link written `[text](url)` at `start`, if there is one: the text up
/// to the first `]`, which must be followed at once by `(`, and the url up to
/// the next `)`. Gives the text, the url and the position after the `)`.
pub open spec fn link_at(chars: Seq<char>, start: int, text_end: int, url_end: int) -> bool {
    &&& first_single(chars, start + 1, ']', text_end)
    &&& text_end + 1 < chars.len() && chars[text_end + 1] == '('
    &&& first_single(chars, text_end + 2, ')', url_end)
}

/// Parses a link `[text](url)` that starts at `start`.
pub fn parse_link(chars: &[char], start: usize) -> (r: Option<(String, String, usize)>)
    requires
        start < chars@.len(),
    ensures
        r matches Some((text, url, end)) ==> exists|te: int, ue: int| {
            &&& link_at(chars@, start as int, te, ue)
            &&& text@ == chars@.subrange(start + 1, te)
            &&& url@ == chars@.subrange(te + 2, ue)
            &&& end == ue + 1
        },
        r is None ==> forall|te: int, ue: int| !link_at(chars@, start as int, te, ue),
{
    let n = chars.len();
    let text_end = match find_closing_single(chars, start + 1, ']') {
        Some(t) => t,
        None => {
            assert forall|te: int, ue: int| !link_at(chars@, start as int, te, ue) by {}
            return None;
        },
    };
    assert forall|te: int| #[trigger] first_single(chars@, start + 1, ']', te) implies te == text_end by {
        if te < text_end {
            assert(chars@[te] != ']');
        }
        if te > text_end {
            assert(chars@[text_end as int] != ']');
        }
    }
    if text_end + 1 >= n || chars[text_end + 1] != '(' {
        return None;
    }
    let url_end = match find_closing_single(chars, text_end + 2, ')') {
        Some(u) => u,
        None => {
            return None;
        },
    };
    assert forall|ue: int| #[trigger] first_single(chars@, text_end + 2, ')', ue) implies ue == url_end by {
        if ue < url_end {
            assert(chars@[ue] != ')');
        }
        if ue > url_end {
            assert(chars@[url_end as int] != ')');
        }
    }
    assert(link_at(chars@, start as int, text_end as int, url_end as int));
    let text = text_of_chars(chars, start + 1, text_end);
    let url = text_of_chars(chars, text_end + 2, url_end);
    Some((text, url, url_end + 1))
}

/// Scanning from position `k`, where the run of leading `#` (capped at six) ends.
pub open spec fn marker_end(l: Seq<char>, k: nat) -> nat
    decreases 6 - k,
{
    if k >= 6 || k >= l.len() || l[k as int] != '#' {
        k
    } else {
        marker_end(l, k + 1)
    }
}

/// Number of leading `#` characters, at most six.
pub open spec fn heading_level(line: Seq<char>) -> nat {
    marker_end(line, 0)
}

/// A single plain span.
pub open spec fn is_plain_line(spans: Seq<MdSpan>, t: Seq<char>) -> bool {
    spans.len() == 1 && spans[0].style == MdStyle::Plain && spans[0].text@ == t
}

/// Whether `t` holds a character that may open an inline style.
pub open spec fn has_markup(t: Seq<char>) -> bool {
    exists|i: int| 0 <= i < t.len() && (t[i] == '*' || t[i] == '`' || t[i] == '[')
}

/// A heading line: one heading span holding the text after the markers,
/// without its leading whitespace. `None` when the line does not start with
/// `#` or holds nothing after its markers.
pub fn parse_heading(line: &str) -> (r: Option<MdLine>)
    ensures
        ({
            let l = line@;
            let level = heading_level(l);
            if level > 0 && l.len() > level {
                r matches Some(ml) && ml.spans@.len() == 1 && ml.spans@[0].style == MdStyle::Heading(level as usize)
                    && ml.spans@[0].text@ == trim_start_of(l.subrange(level as int, l.len() as int))
            } else {
                r is None
            }
        }),
{
    let chars = chars_of(line);
    let mut level: usize = 0;
    while level < chars.len() && level < 6 && chars[level] == '#'
        invariant
            chars@ == line@,
            level <= 6,
            level <= chars@.len(),
            heading_level(line@) == marker_end(line@, level as nat),
        decreases 6 - level,
    {
        level += 1;
    }
    if level > 0 && chars.len() > level {
        let rest = text_of_chars(chars.as_slice(), level, chars.len());
        let content = trim_start_text(rest.as_str());
        let mut spans: Vec<MdSpan> = Vec::new();
        spans.push(MdSpan { text: content, style: MdStyle::Heading(level) });
        Some(MdLine { spans })
    } else {
        None
    }
}

/// Moves the pending plain text, if any, into `spans`.
fn flush_plain(spans: &mut Vec<MdSpan>, current: &mut Vec<char>)
    ensures
        old(current)@.len() == 0 ==> final(spans)@ == old(spans)@,
        old(current)@.len() > 0 ==> final(spans)@.len() == old(spans)@.len() + 1 && final(spans)@.drop_last() == old(spans)@
            && final(spans)@.last().style == MdStyle::Plain && final(spans)@.last().text@ == old(current)@,
        final(current)@.len() == 0,
{
    if current.len() > 0 {
        let t = text_of_chars(current.as_slice(), 0, current.len());
        assert(current@.subrange(0, current@.len() as int) == current@);
        spans.push(MdSpan { text: t, style: MdStyle::Plain });
        current.clear();
    }
}

/// Splits text into styled runs: `**bold**`, `*italic*`, `` `code` `` and
/// `[text](url)` (shown as `text (url)`); an opening marker without its
/// closing one is kept as plain text. Text without any marker character is a
/// single plain run, and an empty text gives one empty run.
pub fn parse_inline_styles(text: &str) -> (r: Vec<MdSpan>)
    ensures
        r@.len() >= 1,
        !has_markup(text@) ==> is_plain_line(r@, text@),
{
    let chars = chars_of(text);
    let n = chars.len();
    let mut spans: Vec<MdSpan> = Vec::new();
    let mut current: Vec<char> = Vec::new();
    let mut i: usize = 0;
    while i < n
        invariant
            n == chars@.len(),
            chars@ == text@,
            i <= n,
            !has_markup(text@) ==> spans@.len() == 0 && current@ == chars@.subrange(0, i as int),
        decreases n - i,
    {
        let c = chars[i];
        proof {
            if !has_markup(text@) {
                assert(!(text@[i as int] == '*' || text@[i as int] == '`' || text@[i as int] == '['));
            }
        }
        if i + 1 < n && c == '*' && chars[i + 1] == '*' {
            flush_plain(&mut spans, &mut current);
            match find_closing_delimiter(chars.as_slice(), i + 2, "**") {
                Some(end) => {
                    proof { reveal_strlit("**"); }
                    let bold = text_of_chars(chars.as_slice(), i + 2, end);
                    spans.push(MdSpan { text: bold, style: MdStyle::Bold });
                    i = end + 2;
                    continue;
                },
                None => {},
            }
        }
        if c == '*' {
            flush_plain(&mut spans, &mut current);
            match find_closing_single(chars.as_slice(), i + 1, '*') {
                Some(end) => {
                    let italic = text_of_chars(chars.as_slice(), i + 1, end);
                    spans.push(MdSpan { text: italic, style: MdStyle::Italic });
                    i = end + 1;
                    continue;
                },
                None => {},
            }
        }
        if c == '`' {
            flush_plain(&mut spans, &mut current);
            match find_closing_single(chars.as_slice(), i + 1, '`') {
                Some(end) => {
                    let code = text_of_chars(chars.as_slice(), i + 1, end);
                    spans.push(MdSpan { text: code, style: MdStyle::Code });
                    i = end + 1;
                    continue;
                },
                None => {},
            }
        }
        if c == '[' {
            match parse_link(chars.as_slice(), i) {
                Some((link_text, url, end)) => {
                    flush_plain(&mut spans, &mut current);
                    let mut shown = link_text;
                    shown.append(" (");
                    shown.append(url.as_str());
                    shown.append(")");
                    spans.push(MdSpan { text: shown, style: MdStyle::Link });
                    i = end;
                    continue;
                },
                None => {},
            }
        }
        current.push(c);
        i += 1;
        assert(!has_markup(text@) ==> current@ =~= chars@.subrange(0, i as int));
    }
    assert(chars@.subrange(0, n as int) == chars@);
    let ghost pending = current@;
    flush_plain(&mut spans, &mut current);
    if spans.len() == 0 {
        spans.push(MdSpan { text: String::new(), style: MdStyle::Plain });
        assert(!has_markup(text@) ==> text@ =~= Seq::<char>::empty());
    } else {
        assert(!has_markup(text@) ==> spans@[0] == spans@.last() && pending == text@);
    }
    spans
}

/// `n` spaces.
fn spaces(n: usize) -> (r: String)
    ensures
        r@.len() == n,
        forall|i: int| 0 <= i < n ==> r@[i] == ' ',
{
    let mut r = String::new();
    let mut i: usize = 0;
    proof { reveal_strlit(" "); }
    while i < n
        invariant
            i <= n,
            " "@ == seq![' '],
            r@.len() == i,
            forall|k: int| 0 <= k < i ==> r@[k] == ' ',
        decreases n - i,
    {
        r.append(" ");
        i += 1;
    }
    r
}

/// One line outside a fenced block: a heading, or styled runs after the
/// line's leading whitespace, which is kept as a plain run of spaces.
pub fn parse_line(line: &str) -> (r: MdLine)
    ensures
        r.spans@.len() >= 1,
        ({
            let t = trim_start_of(line@);
            let level = heading_level(t);
            level > 0 && t.len() > level ==> r.spans@.len() == 1 && r.spans@[0].style == MdStyle::Heading(level as usize)
                && r.spans@[0].text@ == trim_start_of(t.subrange(level as int, t.len() as int))
        }),
        ({
            let t = trim_start_of(line@);
            let level = heading_level(t);
            !(level > 0 && t.len() > level) && line@.len() > t.len() ==> r.spans@[0].style == MdStyle::Plain
                && r.spans@[0].text@.len() == line@.len() - t.len() && forall|i: int|
                0 <= i < r.spans@[0].text@.len() ==> #[trigger] r.spans@[0].text@[i] == ' '
        }),
{
    let trimmed = trim_start_text(line);
    let indent = line.unicode_len() - trimmed.as_str().unicode_len();
    match parse_heading(trimmed.as_str()) {
        Some(h) => {
            return h;
        },
        None => {},
    }
    let styled = parse_inline_styles(trimmed.as_str());
    if indent > 0 {
        let mut spans: Vec<MdSpan> = Vec::new();
        spans.push(MdSpan { text: spaces(indent), style: MdStyle::Plain });
        let mut rest = styled;
        spans.append(&mut rest);
        MdLine { spans }
    } else {
        MdLine { spans: styled }
    }
}

/// A line that opens or closes a fenced block: it starts with three
/// backticks after its leading whitespace.
pub open spec fn is_fence(l: Seq<char>) -> bool {
    trim_start_of(l).len() >= 3 && trim_start_of(l).subrange(0, 3) == seq!['`', '`', '`']
}

/// How many of the first `i` lines are fences.
pub open spec fn fences_before(ls: Seq<Seq<char>>, i: int) -> nat
    decreases i,
{
    if i <= 0 {
        0
    } else {
        fences_before(ls, i - 1) + if is_fence(ls[i - 1]) { 1nat } else { 0nat }
    }
}

/// The line is shown verbatim in code style.
pub open spec fn is_code_line(ml: MdLine, l: Seq<char>) -> bool {
    ml.spans@.len() == 1 && ml.spans@[0].style == MdStyle::CodeBlock && ml.spans@[0].text@ == l
}

/// Renders message text line by line. Fence lines and the lines between an
/// opening and a closing fence are shown verbatim in code style; every other
/// line is parsed. Empty text gives one empty line.
pub fn parse_markdown(input: &str) -> (r: Vec<MdLine>)
    ensures
        ({
            let ls = lines_of(input@);
            &&& ls.len() == 0 ==> r@.len() == 1
            &&& ls.len() > 0 ==> r@.len() == ls.len()
            &&& forall|i: int| 0 <= i < ls.len() ==> (is_fence(ls[i]) || fences_before(ls, i) % 2 == 1) ==> is_code_line(
                #[trigger] r@[i],
                ls[i],
            )
            &&& forall|i: int| 0 <= i < ls.len() ==> !(is_fence(ls[i]) || fences_before(ls, i) % 2 == 1) ==> (#[trigger] r@[i]).spans@.len() >= 1
        }),
{
    let raw = split_lines(input);
    let ghost ls = lines_of(input@);
    assert(raw@.len() == ls.len());
    let mut lines: Vec<MdLine> = Vec::new();
    let mut in_code_block = false;
    let mut i: usize = 0;
    while i < raw.len()
        invariant
            i <= raw@.len(),
            raw@.map_values(|l: String| l@) == ls,
            lines@.len() == i,
            in_code_block == (fences_before(ls, i as int) % 2 == 1),
            forall|j: int| 0 <= j < i ==> (is_fence(ls[j]) || fences_before(ls, j) % 2 == 1) ==> is_code_line(#[trigger] lines@[j], ls[j]),
            forall|j: int| 0 <= j < i ==> !(is_fence(ls[j]) || fences_before(ls, j) % 2 == 1) ==> (#[trigger] lines@[j]).spans@.len() >= 1,
        decreases raw@.len() - i,
    {
        let raw_line = &raw[i];
        assert(ls[i as int] == raw_line@);
        let trimmed = chars_of(trim_start_text(raw_line.as_str()).as_str());
        let fence = trimmed.len() >= 3 && trimmed[0] == '`' && trimmed[1] == '`' && trimmed[2] == '`';
        assert(fence == is_fence(ls[i as int])) by {
            if trimmed@.len() >= 3 {
                assert(trimmed@.subrange(0, 3) =~= seq![trimmed@[0], trimmed@[1], trimmed@[2]]);
            }
        }
        if fence || in_code_block {
            let mut spans: Vec<MdSpan> = Vec::new();
            spans.push(MdSpan { text: raw_line.clone(), style: MdStyle::CodeBlock });
            lines.push(MdLine { spans });
        } else {
            lines.push(parse_line(raw_line.as_str()));
        }
        if fence {
            in_code_block = !in_code_block;
        }
        i += 1;
    }
    if lines.len() == 0 {
        let mut spans: Vec<MdSpan> = Vec::new();
        spans.push(MdSpan { text: String::new(), style: MdStyle::Plain });
        lines.push(MdLine { spans });
    }
    lines
}

} // verus!
