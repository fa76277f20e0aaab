//! The line lexer of the compiler: splits the source into lines, drops
//! comments (from `!` outside a string to the end of the line), measures
//! indentation, moves string literals into a register, and splits each line
//! into upper-case words.
use vstd::prelude::*;

use crate::compiler::chars::{is_white_space, to_uppercase, uppercase, white_space};
use crate::compiler::lexer::{leading_space, trailing_space};
use crate::compiler::numbers::{decimal, decimal_chars};

verus! {

#[derive(Clone, Debug)]
pub struct SourceLine {
    pub line_number: usize,
    pub power: usize,
    pub string: String,
}

#[derive(Clone, Debug)]
pub struct SourceLineWords {
    pub source_line: SourceLine,
    pub words: Vec<String>,
}

#[derive(Clone, Debug)]
pub struct LexResult {
    pub string_register: Vec<String>,
    pub lines: Vec<SourceLineWords>,
}

/// An error of compilation: the message, and the source line it is about.
#[derive(Clone, Debug)]
pub struct CompileError {
    pub message: String,
    pub line_number: usize,
}

/// A source line as plain values.
pub struct SourceLineView {
    pub line_number: usize,
    pub power: usize,
    pub string: Seq<char>,
}

impl View for SourceLine {
    type V = SourceLineView;

    open spec fn view(&self) -> SourceLineView {
        SourceLineView { line_number: self.line_number, power: self.power, string: self.string@ }
    }
}

/// A source line with its words, as plain values.
pub struct SourceLineWordsView {
    pub source_line: SourceLineView,
    pub words: Seq<Seq<char>>,
}

impl View for SourceLineWords {
    type V = SourceLineWordsView;

    open spec fn view(&self) -> SourceLineWordsView {
        SourceLineWordsView {
            source_line: self.source_line@,
            words: self.words@.map_values(|w: String| w@),
        }
    }
}

// ============================> Lines <=============================

/// A line without the carriage return of a CR LF line end.
pub open spec fn strip_cr(p: Seq<char>) -> Seq<char> {
    if p.len() > 0 && p.last() == '\r' {
        p.drop_last()
    } else {
        p
    }
}

/// The lines of `s[start..]` (the current line started at `start`, the next
/// character to look at is at `i`), after the lines `acc`: a line ends at a
/// line feed, which drops a carriage return before it; the last line needs
/// no line end, and an empty last line is no line.
pub open spec fn lines_from(s: Seq<char>, start: int, i: int, acc: Seq<Seq<char>>) -> Seq<Seq<char>>
    decreases s.len() - i,
{
    if i >= s.len() {
        if start < s.len() {
            acc.push(s.subrange(start, s.len() as int))
        } else {
            acc
        }
    } else if s[i] == '\n' {
        lines_from(s, i + 1, i + 1, acc.push(strip_cr(s.subrange(start, i))))
    } else {
        lines_from(s, start, i + 1, acc)
    }
}

/// The lines of a text, as `str::lines` gives them.
pub open spec fn text_lines(s: Seq<char>) -> Seq<Seq<char>> {
    lines_from(s, 0, 0, Seq::empty())
}

/// Where the comment of a line starts: the first `!` that is not inside a
/// string (an odd number of quotes before it), or the end of the line.
pub open spec fn comment_at(l: Seq<char>, i: int, in_string: bool) -> int
    decreases l.len() - i,
{
    if i >= l.len() || i < 0 {
        l.len() as int
    } else {
        let ins = if l[i] == '"' {
            !in_string
        } else {
            in_string
        };
        if l[i] == '!' && !ins {
            i
        } else {
            comment_at(l, i + 1, ins)
        }
    }
}

/// Number of leading spaces.
pub open spec fn leading_spaces(s: Seq<char>) -> nat
    decreases s.len(),
{
    if s.len() > 0 && s[0] == ' ' {
        1 + leading_spaces(s.drop_first())
    } else {
        0
    }
}

/// A text without the white space at either end.
pub open spec fn trim(s: Seq<char>) -> Seq<char> {
    let t = s.subrange(leading_space(s) as int, s.len() as int);
    t.subrange(0, t.len() - trailing_space(t))
}

/// A line without its comment.
pub open spec fn uncommented(l: Seq<char>) -> Seq<char> {
    l.subrange(0, comment_at(l, 0, false))
}

/// The source lines of the first `k` text lines: those left with some text
/// once the comment is gone, each with its number (from 1), its depth (the
/// spaces it starts with) and its trimmed text.
pub open spec fn source_lines(lines: Seq<Seq<char>>, k: int) -> Seq<SourceLineView>
    decreases k,
{
    if k <= 0 {
        Seq::empty()
    } else {
        let prev = source_lines(lines, k - 1);
        let l = uncommented(lines[k - 1]);
        if trim(l).len() > 0 {
            prev.push(
                SourceLineView {
                    line_number: k as usize,
                    power: leading_spaces(l) as usize,
                    string: trim(l),
                },
            )
        } else {
            prev
        }
    }
}

/// The source lines of a text.
pub open spec fn split_by_line_spec(src: Seq<char>) -> Seq<SourceLineView> {
    source_lines(text_lines(src), text_lines(src).len() as int)
}

// ============================> Line lexer <=============================

/// The lines of a text, as `str::lines` gives them.
pub(crate) fn text_lines_of(s: &Vec<char>) -> (r: Vec<Vec<char>>)
    ensures
        r@.map_values(|l: Vec<char>| l@) == text_lines(s@),
{
    let n = s.len();
    let mut acc: Vec<Vec<char>> = Vec::new();
    let mut cur: Vec<char> = Vec::new();
    let mut start: usize = 0;
    let mut i: usize = 0;
    assert(acc@.map_values(|l: Vec<char>| l@) =~= Seq::<Seq<char>>::empty());
    assert(cur@ =~= s@.subrange(0, 0));
    while i < n
        invariant
            n == s@.len(),
            start <= i <= n,
            cur@ == s@.subrange(start as int, i as int),
            lines_from(s@, start as int, i as int, acc@.map_values(|l: Vec<char>| l@))
                == text_lines(s@),
        decreases n - i,
    {
        if s[i] == '\n' {
            let ghost old_acc = acc@;
            let mut line = cur;
            let len = line.len();
            if len > 0 && line[len - 1] == '\r' {
                line.pop();
            }
            assert(line@ == strip_cr(s@.subrange(start as int, i as int)));
            acc.push(line);
            assert(acc@.map_values(|l: Vec<char>| l@) =~= old_acc.map_values(|l: Vec<char>| l@).push(line@));
            cur = Vec::new();
            start = i + 1;
            i = i + 1;
            assert(cur@ =~= s@.subrange(start as int, i as int));
        } else {
            cur.push(s[i]);
            i = i + 1;
            assert(cur@ =~= s@.subrange(start as int, i as int));
        }
    }
    if start < n {
        let ghost old_acc = acc@;
        acc.push(cur);
        assert(acc@.map_values(|l: Vec<char>| l@) =~= old_acc.map_values(|l: Vec<char>| l@).push(
            s@.subrange(start as int, n as int),
        ));
    }
    acc
}

/// Where the comment of a line starts (or its length).
fn comment_position(l: &Vec<char>) -> (r: usize)
    ensures
        r == comment_at(l@, 0, false),
        r <= l@.len(),
{
    let mut in_string = false;
    let mut i: usize = 0;
    while i < l.len()
        invariant
            i <= l@.len(),
            comment_at(l@, i as int, in_string) == comment_at(l@, 0, false),
        decreases l@.len() - i,
    {
        let ch = l[i];
        if ch == '"' {
            in_string = !in_string;
        }
        if ch == '!' && !in_string {
            return i;
        }
        i += 1;
    }
    i
}

proof fn lemma_leading_spaces(s: Seq<char>, k: int)
    requires
        0 <= k <= s.len(),
        forall|j: int| 0 <= j < k ==> #[trigger] s[j] == ' ',
        k == s.len() || s[k] != ' ',
    ensures
        leading_spaces(s) == k,
    decreases k,
{
    if k > 0 {
        lemma_leading_spaces(s.drop_first(), k - 1);
    }
}

proof fn lemma_leading_space_exec(s: Seq<char>, k: int)
    requires
        0 <= k <= s.len(),
        forall|j: int| 0 <= j < k ==> is_white_space(#[trigger] s[j]),
        k == s.len() || !is_white_space(s[k]),
    ensures
        leading_space(s) == k,
    decreases k,
{
    if k > 0 {
        lemma_leading_space_exec(s.drop_first(), k - 1);
    }
}

proof fn lemma_trailing_space_exec(s: Seq<char>, k: int)
    requires
        0 <= k <= s.len(),
        forall|j: int| s.len() - k <= j < s.len() ==> is_white_space(#[trigger] s[j]),
        k == s.len() || !is_white_space(s[s.len() - k - 1]),
    ensures
        trailing_space(s) == k,
    decreases k,
{
    if k > 0 {
        lemma_trailing_space_exec(s.drop_last(), k - 1);
    }
}

/// The depth and the trimmed text of `l[..end]`.
fn measure_line(l: &Vec<char>, end: usize) -> (r: (usize, Vec<char>))
    requires
        end <= l@.len(),
    ensures
        r.0 == leading_spaces(l@.subrange(0, end as int)),
        r.1@ == trim(l@.subrange(0, end as int)),
{
    let ghost t = l@.subrange(0, end as int);
    // calculate leading spaces (depth of line)
    let mut power: usize = 0;
    while power < end && l[power] == ' '
        invariant
            power <= end <= l@.len(),
            forall|j: int| 0 <= j < power ==> #[trigger] l@[j] == ' ',
        decreases end - power,
    {
        power += 1;
    }
    proof {
        lemma_leading_spaces(t, power as int);
    }
    // Remove leading and tailing spaces
    let mut from: usize = 0;
    while from < end && white_space(l[from])
        invariant
            from <= end <= l@.len(),
            forall|j: int| 0 <= j < from ==> is_white_space(#[trigger] l@[j]),
        decreases end - from,
    {
        from += 1;
    }
    proof {
        lemma_leading_space_exec(t, from as int);
    }
    let mut to: usize = end;
    while to > from && white_space(l[to - 1])
        invariant
            from <= to <= end <= l@.len(),
            forall|j: int| to <= j < end ==> is_white_space(#[trigger] l@[j]),
        decreases to - from,
    {
        to -= 1;
    }
    let ghost u = t.subrange(from as int, end as int);
    proof {
        lemma_trailing_space_exec(u, end - to);
    }
    let mut text: Vec<char> = Vec::new();
    let mut k = from;
    while k < to
        invariant
            from <= k <= to <= end <= l@.len(),
            text@ == l@.subrange(from as int, k as int),
        decreases to - k,
    {
        text.push(l[k]);
        k += 1;
        assert(text@ =~= l@.subrange(from as int, k as int));
    }
    assert(text@ =~= trim(t));
    (power, text)
}

/// The source lines of a text: numbered, without comments, with their
/// depth, trimmed, and only those with some text left.
pub fn split_by_line(src: &str) -> (r: Vec<SourceLine>)
    ensures
        r@.map_values(|l: SourceLine| l@) == split_by_line_spec(src@),
{
    let chars = crate::compiler::chars::chars_of(src);
    let lines = text_lines_of(&chars);
    let ghost tl = text_lines(src@);
    let mut result: Vec<SourceLine> = Vec::new();
    let mut i: usize = 0;
    assert(result@.map_values(|l: SourceLine| l@) =~= Seq::<SourceLineView>::empty());
    while i < lines.len()
        invariant
            i <= lines@.len(),
            lines@.map_values(|l: Vec<char>| l@) == tl,
            result@.map_values(|l: SourceLine| l@) == source_lines(tl, i as int),
        decreases lines@.len() - i,
    {
        let line = &lines[i];
        assert(line@ == tl[i as int]);
        // Remove comments
        let end = comment_position(line);
        assert(uncommented(line@) == line@.subrange(0, end as int));
        let (power, text) = measure_line(line, end);
        if text.len() > 0 {
            let ghost old_result = result@;
            let string = crate::compiler::chars::string_of(text.as_slice());
            result.push(SourceLine { line_number: i + 1, power, string });
            assert(result@.map_values(|l: SourceLine| l@) =~= old_result.map_values(
                |l: SourceLine| l@,
            ).push(SourceLineView { line_number: (i + 1) as usize, power, string: text@ }));
        }
        i += 1;
    }
    result
}

// ============================> ASCII check <=============================

/// Whether every character is ASCII.
pub open spec fn is_ascii_text(s: Seq<char>) -> bool {
    forall|i: int| 0 <= i < s.len() ==> (#[trigger] s[i] as u32) < 128
}

/// The first line that is not ASCII, if there is one.
pub open spec fn first_non_ascii(lines: Seq<SourceLineView>) -> Option<int> {
    if exists|i: int| 0 <= i < lines.len() && !is_ascii_text(#[trigger] lines[i].string) {
        Some(
            choose|i: int|
                0 <= i < lines.len() && !is_ascii_text(#[trigger] lines[i].string) && forall|j: int|
                    0 <= j < i ==> is_ascii_text(#[trigger] lines[j].string),
        )
    } else {
        None
    }
}

pub open spec fn ascii_error_message() -> Seq<char> {
    "Source code and strings MUST BE ASCII"@
}

fn text_is_ascii(s: &String) -> (r: bool)
    ensures
        r == is_ascii_text(s@),
{
    let chars = crate::compiler::chars::chars_of(s.as_str());
    let mut i: usize = 0;
    while i < chars.len()
        invariant
            chars@ == s@,
            i <= chars@.len(),
            forall|j: int| 0 <= j < i ==> (#[trigger] chars@[j] as u32) < 128,
        decreases chars@.len() - i,
    {
        if chars[i] as u32 >= 128 {
            return false;
        }
        i += 1;
    }
    true
}

/// Fails on the first line that is not ASCII.
fn check_is_ascii(lines: &Vec<SourceLine>) -> (r: Result<(), CompileError>)
    ensures
        ({
            let ls = lines@.map_values(|l: SourceLine| l@);
            match first_non_ascii(ls) {
                None => r is Ok,
                Some(i) => r matches Err(e) && e.message@ == ascii_error_message() && e.line_number
                    == ls[i].line_number,
            }
        }),
{
    broadcast use vstd::string::group_string_axioms;

    let ghost ls = lines@.map_values(|l: SourceLine| l@);
    let mut i: usize = 0;
    while i < lines.len()
        invariant
            ls == lines@.map_values(|l: SourceLine| l@),
            i <= lines@.len(),
            forall|j: int| 0 <= j < i ==> is_ascii_text(#[trigger] ls[j].string),
        decreases lines@.len() - i,
    {
        if !text_is_ascii(&lines[i].string) {
            let ghost k = i as int;
            assert(!is_ascii_text(ls[k].string));
            let ghost c = choose|i: int|
                0 <= i < ls.len() && !is_ascii_text(#[trigger] ls[i].string) && forall|j: int|
                    0 <= j < i ==> is_ascii_text(#[trigger] ls[j].string);
            proof {
                if c < k {
                    assert(is_ascii_text(ls[c].string));
                } else if c > k {
                    assert(is_ascii_text(ls[k].string));
                }
            }
            return Err(
                CompileError {
                    message: "Source code and strings MUST BE ASCII".to_string(),
                    line_number: lines[i].line_number,
                },
            );
        }
        i += 1;
    }
    Ok(())
}

// ============================> String register <=============================

/// What stands in a line for the string with number `n` of the register.
pub open spec fn string_marker(n: nat) -> Seq<char> {
    seq![' ', '"'] + decimal(n) + seq![' ']
}

/// State of the string collapsing in a line: the new line, whether inside a
/// string, the string so far, and the string register.
#[verifier::ext_equal]
pub struct CollapseView {
    pub new_line: Seq<char>,
    pub in_string: bool,
    pub tmp: Seq<char>,
    pub strings: Seq<Seq<char>>,
}

/// One character of a line: a quote opens or closes a string (closing a
/// nonempty one moves it to the register and leaves its marker); inside a
/// string a character joins the string, outside it joins the line.
pub open spec fn collapse_step(st: CollapseView, c: char) -> CollapseView {
    if c == '"' {
        if st.in_string && st.tmp.len() > 0 {
            CollapseView {
                new_line: st.new_line + string_marker(st.strings.len()),
                in_string: false,
                tmp: Seq::empty(),
                strings: st.strings.push(st.tmp),
            }
        } else {
            CollapseView { in_string: !st.in_string, ..st }
        }
    } else if st.in_string {
        CollapseView { tmp: st.tmp.push(c), ..st }
    } else {
        CollapseView { new_line: st.new_line.push(c), ..st }
    }
}

/// The collapsing after the characters of a line.
pub open spec fn collapse_chars(l: Seq<char>, st: CollapseView) -> CollapseView
    decreases l.len(),
{
    if l.len() == 0 {
        st
    } else {
        collapse_step(collapse_chars(l.drop_last(), st), l.last())
    }
}

/// The first `k` lines with their string literals replaced by markers, and
/// the string register they fill.
pub open spec fn collapse_lines(lines: Seq<SourceLineView>, k: int) -> (Seq<SourceLineView>, Seq<Seq<char>>)
    decreases k,
{
    if k <= 0 {
        (Seq::empty(), Seq::empty())
    } else {
        let (prev, strings) = collapse_lines(lines, k - 1);
        let l = lines[k - 1];
        let st = collapse_chars(
            l.string,
            CollapseView { new_line: Seq::empty(), in_string: false, tmp: Seq::empty(), strings },
        );
        (prev.push(SourceLineView { string: st.new_line, ..l }), st.strings)
    }
}

/// Collapse all static strings to markers and store them into the string
/// register: `"Aboba"` becomes ` "0 `, `"67"` then becomes ` "1 `.
fn collapse_strings(lines: Vec<SourceLine>) -> (r: (Vec<SourceLine>, Vec<String>))
    ensures
        ({
            let ls = lines@.map_values(|l: SourceLine| l@);
            let (new_lines, strings) = collapse_lines(ls, ls.len() as int);
            &&& r.0@.map_values(|l: SourceLine| l@) == new_lines
            &&& r.1@.map_values(|s: String| s@) == strings
        }),
{
    let ghost ls = lines@.map_values(|l: SourceLine| l@);
    let mut result_lines: Vec<SourceLine> = Vec::new();
    let mut result_strings: Vec<String> = Vec::new();
    let mut k: usize = 0;
    assert(result_lines@.map_values(|l: SourceLine| l@) =~= Seq::<SourceLineView>::empty());
    assert(result_strings@.map_values(|s: String| s@) =~= Seq::<Seq<char>>::empty());
    while k < lines.len()
        invariant
            ls == lines@.map_values(|l: SourceLine| l@),
            k <= lines@.len(),
            result_lines@.map_values(|l: SourceLine| l@) == collapse_lines(ls, k as int).0,
            result_strings@.map_values(|s: String| s@) == collapse_lines(ls, k as int).1,
        decreases lines@.len() - k,
    {
        let line = &lines[k];
        let chars = crate::compiler::chars::chars_of(line.string.as_str());
        let mut new_line: Vec<char> = Vec::new();
        let mut in_string = false;
        let mut tmp_string: Vec<char> = Vec::new();
        let ghost strings0 = result_strings@.map_values(|s: String| s@);
        let ghost st0 = CollapseView {
            new_line: Seq::empty(),
            in_string: false,
            tmp: Seq::empty(),
            strings: strings0,
        };
        let mut i: usize = 0;
        assert(chars@.take(0) =~= Seq::<char>::empty());
        while i < chars.len()
            invariant
                i <= chars@.len(),
                chars@ == ls[k as int].string,
                (CollapseView {
                    new_line: new_line@,
                    in_string,
                    tmp: tmp_string@,
                    strings: result_strings@.map_values(|s: String| s@),
                }) == collapse_chars(chars@.take(i as int), st0),
            decreases chars@.len() - i,
        {
            let ch = chars[i];
            assert(chars@.take(i + 1).drop_last() =~= chars@.take(i as int));
            let ghost prev_st = CollapseView {
                new_line: new_line@,
                in_string,
                tmp: tmp_string@,
                strings: result_strings@.map_values(|s: String| s@),
            };
            if ch == '"' {
                if in_string && tmp_string.len() > 0 {
                    let ghost n = result_strings@.len();
                    let marker = decimal_chars(result_strings.len());
                    new_line.push(' ');
                    new_line.push('"');
                    let mut j: usize = 0;
                    let ghost base = new_line@;
                    while j < marker.len()
                        invariant
                            j <= marker@.len(),
                            new_line@ == base + marker@.take(j as int),
                        decreases marker@.len() - j,
                    {
                        new_line.push(marker[j]);
                        j += 1;
                        assert(new_line@ =~= base + marker@.take(j as int));
                    }
                    new_line.push(' ');
                    let ghost old_strings = result_strings@;
                    result_strings.push(crate::compiler::chars::string_of(tmp_string.as_slice()));
                    assert(result_strings@.map_values(|s: String| s@) =~= old_strings.map_values(
                        |s: String| s@,
                    ).push(tmp_string@));
                    tmp_string = Vec::new();
                    assert(marker@.take(marker@.len() as int) =~= marker@);
                    assert(new_line@ =~= base.drop_last().drop_last() + string_marker(n as nat));
                }
                in_string = !in_string;
            } else if in_string {
                tmp_string.push(ch);
            } else {
                new_line.push(ch);
            }
            assert((CollapseView {
                new_line: new_line@,
                in_string,
                tmp: tmp_string@,
                strings: result_strings@.map_values(|s: String| s@),
            }) =~= collapse_step(prev_st, ch));
            i += 1;
        }
        assert(chars@.take(chars@.len() as int) =~= chars@);
        let ghost old_lines = result_lines@;
        result_lines.push(
            SourceLine {
                line_number: line.line_number,
                power: line.power,
                string: crate::compiler::chars::string_of(new_line.as_slice()),
            },
        );
        assert(result_lines@.map_values(|l: SourceLine| l@) =~= old_lines.map_values(
            |l: SourceLine| l@,
        ).push(SourceLineView { string: new_line@, ..ls[k as int] }));
        k += 1;
    }
    (result_lines, result_strings)
}

// ============================> Words <=============================

/// Mapping a sequence that grew by one element: the image of the prefix
/// grows by the image of that element.
proof fn lemma_map_extend<A, B, C>(xs: Seq<A>, ys: Seq<B>, k: int, f: spec_fn(A) -> C, g: spec_fn(B) -> C)
    requires
        0 <= k < ys.len(),
        xs.len() == k + 1,
        xs.take(k).map_values(f) == ys.take(k).map_values(g),
        f(xs[k]) == g(ys[k]),
    ensures
        xs.map_values(f) == ys.take(k + 1).map_values(g),
{
    assert forall|i: int| 0 <= i < k + 1 implies #[trigger] xs.map_values(f)[i] == ys.take(k + 1).map_values(g)[i] by {
        assert(ys.take(k + 1)[i] == ys[i]);
        assert(xs.map_values(f)[i] == f(xs[i]));
        assert(ys.take(k + 1).map_values(g)[i] == g(ys[i]));
        if i < k {
            assert(xs.take(k).map_values(f)[i] == ys.take(k).map_values(g)[i]);
            assert(xs.take(k)[i] == xs[i]);
            assert(ys.take(k)[i] == ys[i]);
            assert(xs.take(k).map_values(f)[i] == f(xs.take(k)[i]));
            assert(ys.take(k).map_values(g)[i] == g(ys.take(k)[i]));
            assert(f(xs[i]) == g(ys[i]));
        } else {
            assert(f(xs[i]) == g(ys[i]));
        }
    }
    assert(xs.map_values(f) =~= ys.take(k + 1).map_values(g));
}


/// The symbols that always stand apart: `,`, `(`, `)`, `[`, `]`.
pub open spec fn is_key_symbol(c: char) -> bool {
    c == ',' || c == '(' || c == ')' || c == '[' || c == ']'
}

/// A text with a space put on each side of every key symbol.
pub open spec fn spaced(s: Seq<char>) -> Seq<char>
    decreases s.len(),
{
    if s.len() == 0 {
        Seq::empty()
    } else if is_key_symbol(s.last()) {
        spaced(s.drop_last()) + seq![' ', s.last(), ' ']
    } else {
        spaced(s.drop_last()).push(s.last())
    }
}

/// Puts a space on each side of every `,`, `(`, `)`, `[` and `]`.
fn separate_key_symb(lines: Vec<SourceLine>) -> (r: Vec<SourceLine>)
    ensures
        r@.map_values(|l: SourceLine| l@) == lines@.map_values(
            |l: SourceLine| SourceLineView { string: spaced(l.string@), ..l@ },
        ),
{
    let mut result: Vec<SourceLine> = Vec::new();
    let mut k: usize = 0;
    while k < lines.len()
        invariant
            k <= lines@.len(),
            result@.len() == k,
            result@.map_values(|l: SourceLine| l@) == lines@.take(k as int).map_values(
                |l: SourceLine| SourceLineView { string: spaced(l.string@), ..l@ },
            ),
        decreases lines@.len() - k,
    {
        let line = &lines[k];
        let chars = crate::compiler::chars::chars_of(line.string.as_str());
        let mut out: Vec<char> = Vec::new();
        let mut i: usize = 0;
        while i < chars.len()
            invariant
                i <= chars@.len(),
                out@ == spaced(chars@.take(i as int)),
            decreases chars@.len() - i,
        {
            let c = chars[i];
            assert(chars@.take(i + 1).drop_last() =~= chars@.take(i as int));
            if c == ',' || c == '(' || c == ')' || c == '[' || c == ']' {
                out.push(' ');
                out.push(c);
                out.push(' ');
            } else {
                out.push(c);
            }
            i += 1;
            assert(out@ =~= spaced(chars@.take(i as int)));
        }
        assert(chars@.take(chars@.len() as int) =~= chars@);
        assert(out@ == spaced(lines@[k as int].string@));
        let ghost old_result = result@;
        result.push(
            SourceLine {
                line_number: line.line_number,
                power: line.power,
                string: crate::compiler::chars::string_of(out.as_slice()),
            },
        );
        proof {
            assert(result@.take(k as int) =~= old_result);
            lemma_map_extend(
                result@,
                lines@,
                k as int,
                |l: SourceLine| l@,
                |l: SourceLine| SourceLineView { string: spaced(l.string@), ..l@ },
            );
        }
        k += 1;
    }
    assert(lines@.take(lines@.len() as int) =~= lines@);
    result
}

/// The words of a text (runs of non-white-space characters) after the words
/// `acc` and the started word `cur`, reading from `i`.
pub open spec fn ws_words_from(s: Seq<char>, i: int, cur: Seq<char>, acc: Seq<Seq<char>>) -> Seq<
    Seq<char>,
>
    decreases s.len() - i,
{
    if i >= s.len() || i < 0 {
        if cur.len() > 0 {
            acc.push(cur)
        } else {
            acc
        }
    } else if is_white_space(s[i]) {
        ws_words_from(
            s,
            i + 1,
            Seq::empty(),
            if cur.len() > 0 {
                acc.push(cur)
            } else {
                acc
            },
        )
    } else {
        ws_words_from(s, i + 1, cur.push(s[i]), acc)
    }
}

/// The words of a text, as `str::split_whitespace` gives them.
pub open spec fn ws_words(s: Seq<char>) -> Seq<Seq<char>> {
    ws_words_from(s, 0, Seq::empty(), Seq::empty())
}

/// The upper-case words of a line.
pub open spec fn line_words(s: Seq<char>) -> Seq<Seq<char>> {
    ws_words(s).map_values(|w: Seq<char>| uppercase(w))
}

/// Splits a text at white space.
pub(crate) fn split_whitespace_of(s: &String) -> (r: Vec<Vec<char>>)
    ensures
        r@.map_values(|w: Vec<char>| w@) == ws_words(s@),
{
    let chars = crate::compiler::chars::chars_of(s.as_str());
    let mut acc: Vec<Vec<char>> = Vec::new();
    let mut cur: Vec<char> = Vec::new();
    let mut i: usize = 0;
    assert(acc@.map_values(|w: Vec<char>| w@) =~= Seq::<Seq<char>>::empty());
    while i < chars.len()
        invariant
            chars@ == s@,
            i <= chars@.len(),
            ws_words_from(chars@, i as int, cur@, acc@.map_values(|w: Vec<char>| w@)) == ws_words(
                s@,
            ),
        decreases chars@.len() - i,
    {
        if white_space(chars[i]) {
            if cur.len() > 0 {
                let ghost old_acc = acc@;
                acc.push(cur);
                assert(acc@.map_values(|w: Vec<char>| w@) =~= old_acc.map_values(
                    |w: Vec<char>| w@,
                ).push(cur@));
            }
            cur = Vec::new();
            assert(cur@ =~= Seq::<char>::empty());
        } else {
            cur.push(chars[i]);
        }
        i += 1;
    }
    if cur.len() > 0 {
        let ghost old_acc = acc@;
        acc.push(cur);
        assert(acc@.map_values(|w: Vec<char>| w@) =~= old_acc.map_values(|w: Vec<char>| w@).push(
            cur@,
        ));
    }
    acc
}

/// Splits every line into its upper-case words.
fn split_lines_to_words(lines: Vec<SourceLine>) -> (r: Vec<SourceLineWords>)
    ensures
        r@.map_values(|l: SourceLineWords| l@) == lines@.map_values(
            |l: SourceLine| SourceLineWordsView { source_line: l@, words: line_words(l.string@) },
        ),
{
    let mut result: Vec<SourceLineWords> = Vec::new();
    let mut k: usize = 0;
    while k < lines.len()
        invariant
            k <= lines@.len(),
            result@.len() == k,
            result@.map_values(|l: SourceLineWords| l@) == lines@.take(k as int).map_values(
                |l: SourceLine| SourceLineWordsView { source_line: l@, words: line_words(l.string@) },
            ),
        decreases lines@.len() - k,
    {
        let sl = &lines[k];
        let raw = split_whitespace_of(&sl.string);
        let ghost raw_view = raw@.map_values(|w: Vec<char>| w@);
        let mut words: Vec<String> = Vec::new();
        let mut j: usize = 0;
        while j < raw.len()
            invariant
                j <= raw@.len(),
                words@.len() == j,
                raw_view == raw@.map_values(|w: Vec<char>| w@),
                words@.map_values(|w: String| w@) == raw_view.take(j as int).map_values(
                    |w: Seq<char>| uppercase(w),
                ),
            decreases raw@.len() - j,
        {
            let word = crate::compiler::chars::string_of(raw[j].as_slice());
            let ghost old_words = words@;
            words.push(to_uppercase(word.as_str()));
            proof {
                assert(words@.take(j as int) =~= old_words);
                lemma_map_extend(
                    words@,
                    raw_view,
                    j as int,
                    |w: String| w@,
                    |w: Seq<char>| uppercase(w),
                );
            }
            j += 1;
        }
        assert(raw_view.take(raw@.len() as int) =~= raw_view);
        let ghost old_result = result@;
        let source_line = SourceLine {
            line_number: sl.line_number,
            power: sl.power,
            string: sl.string.clone(),
        };
        result.push(SourceLineWords { source_line, words });
        proof {
            assert(result@.take(k as int) =~= old_result);
            lemma_map_extend(
                result@,
                lines@,
                k as int,
                |l: SourceLineWords| l@,
                |l: SourceLine| SourceLineWordsView { source_line: l@, words: line_words(l.string@) },
            );
        }
        k += 1;
    }
    assert(lines@.take(lines@.len() as int) =~= lines@);
    result
}

/// What lexing a source gives: the string register and the lines with their
/// words, or the error about the first line that is not ASCII.
pub open spec fn lex_spec(src: Seq<char>) -> Result<(Seq<Seq<char>>, Seq<SourceLineWordsView>), (Seq<char>, usize)> {
    let lines = split_by_line_spec(src);
    match first_non_ascii(lines) {
        Some(i) => Err((ascii_error_message(), lines[i].line_number)),
        None => {
            let (collapsed, strings) = collapse_lines(lines, lines.len() as int);
            Ok(
                (
                    strings,
                    collapsed.map_values(
                        |l: SourceLineView|
                            SourceLineWordsView {
                                source_line: SourceLineView { string: spaced(l.string), ..l },
                                words: line_words(spaced(l.string)),
                            },
                    ),
                ),
            )
        },
    }
}

/// Lexes a source: its lines without comments, with string literals moved
/// to the register, split into upper-case words.
pub fn lex(src: String) -> (r: Result<LexResult, CompileError>)
    ensures
        match lex_spec(src@) {
            Ok((strings, lines)) => r matches Ok(res) && res.string_register@.map_values(
                |s: String| s@,
            ) == strings && res.lines@.map_values(|l: SourceLineWords| l@) == lines,
            Err((message, line_number)) => r matches Err(e) && e.message@ == message
                && e.line_number == line_number,
        },
{
    let splitted = split_by_line(src.as_str());
    check_is_ascii(&splitted)?;
    let (lines0, string_register) = collapse_strings(splitted);
    let lines1 = separate_key_symb(lines0);
    let lines = split_lines_to_words(lines1);
    proof {
        let sl = split_by_line_spec(src@);
        let (collapsed, strings) = collapse_lines(sl, sl.len() as int);
        let v0 = lines0@.map_values(|l: SourceLine| l@);
        let v1 = lines1@.map_values(|l: SourceLine| l@);
        let v2 = lines@.map_values(|l: SourceLineWords| l@);
        let s0 = lines0@.map_values(|l: SourceLine| SourceLineView { string: spaced(l.string@), ..l@ });
        let h1 = lines1@.map_values(
            |l: SourceLine| SourceLineWordsView { source_line: l@, words: line_words(l.string@) },
        );
        assert(v0.len() == lines0@.len() && v1.len() == lines1@.len() && v2.len() == lines@.len());
        assert(s0.len() == lines0@.len() && h1.len() == lines1@.len());
        assert forall|i: int| 0 <= i < lines@.len() implies #[trigger] v2[i] == (SourceLineWordsView {
            source_line: SourceLineView { string: spaced(collapsed[i].string), ..collapsed[i] },
            words: line_words(spaced(collapsed[i].string)),
        }) by {
            assert(v2[i] == h1[i]);
            assert(v1[i] == s0[i]);
            assert(v0[i] == collapsed[i]);
        }
        assert(lines@.map_values(|l: SourceLineWords| l@) =~= collapsed.map_values(
            |l: SourceLineView|
                SourceLineWordsView {
                    source_line: SourceLineView { string: spaced(l.string), ..l },
                    words: line_words(spaced(l.string)),
                },
        ));
    }
    Ok(LexResult { string_register, lines })
}

} // verus!
