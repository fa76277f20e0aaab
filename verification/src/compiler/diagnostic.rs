//! Messages about the source, collected while compiling.
use vstd::prelude::*;

use crate::compiler::chars::{push_chars, push_text};
use crate::compiler::numbers::{decimal, decimal_chars};

verus! {

#[derive(Clone, Copy, Debug, PartialEq, Eq, Structural)]
pub enum Severity {
    Fatal,
    Error,
    Warning,
}

#[derive(Clone, Debug, PartialEq)]
pub struct DiagnosticInfo {
    pub severity: Severity,
    pub message: String,
    pub line: usize,
    pub col: usize,
}

/// A message as plain values: severity, text, line and column.
pub struct DiagnosticInfoView {
    pub severity: Severity,
    pub message: Seq<char>,
    pub line: usize,
    pub col: usize,
}

impl View for DiagnosticInfo {
    type V = DiagnosticInfoView;

    open spec fn view(&self) -> DiagnosticInfoView {
        DiagnosticInfoView {
            severity: self.severity,
            message: self.message@,
            line: self.line,
            col: self.col,
        }
    }
}

impl DiagnosticInfo {
    /// The line that reports the message: its severity, its position and its text.
    pub fn report_line(&self) -> (r: String)
        ensures
            r@ == report_text(self@),
    {
        let mut s = String::new();
        match self.severity {
            Severity::Warning => {
                s.push('w');
                s.push('a');
                s.push('r');
                s.push('n');
                s.push('i');
                s.push('n');
                s.push('g');
            },
            _ => {
                s.push('e');
                s.push('r');
                s.push('r');
                s.push('o');
                s.push('r');
            },
        }
        s.push(' ');
        s.push('[');
        push_chars(&mut s, &decimal_chars(self.line));
        s.push(':');
        push_chars(&mut s, &decimal_chars(self.col));
        s.push(']');
        s.push(':');
        s.push(' ');
        push_text(&mut s, self.message.as_str());
        assert(s@ =~= report_text(self@));
        s
    }
}

/// The word that names a severity in a report: a fatal message is reported as an error.
pub open spec fn severity_word(s: Severity) -> Seq<char> {
    match s {
        Severity::Warning => seq!['w', 'a', 'r', 'n', 'i', 'n', 'g'],
        _ => seq!['e', 'r', 'r', 'o', 'r'],
    }
}

/// `warning [line:col]: message`, or `error [line:col]: message`.
pub open spec fn report_text(d: DiagnosticInfoView) -> Seq<char> {
    severity_word(d.severity) + seq![' ', '['] + decimal(d.line as nat) + seq![':'] + decimal(
        d.col as nat,
    ) + seq![']', ':', ' '] + d.message
}

/// Whether `a` stands at or before `b` in the source: by line, then by column.
pub open spec fn at_or_before(a: DiagnosticInfoView, b: DiagnosticInfoView) -> bool {
    a.line < b.line || (a.line == b.line && a.col <= b.col)
}

/// `s` with `x` placed behind the last message that stands at or before it.
pub open spec fn insert_by_position(s: Seq<DiagnosticInfoView>, x: DiagnosticInfoView) -> Seq<
    DiagnosticInfoView,
>
    decreases s.len(),
{
    if s.len() == 0 {
        seq![x]
    } else if at_or_before(s.last(), x) {
        s.push(x)
    } else {
        insert_by_position(s.drop_last(), x).push(s.last())
    }
}

/// The messages ordered by position; messages at one position keep the order in
/// which they were reported.
pub open spec fn by_position(s: Seq<DiagnosticInfoView>) -> Seq<DiagnosticInfoView>
    decreases s.len(),
{
    if s.len() == 0 {
        seq![]
    } else {
        insert_by_position(by_position(s.drop_last()), s.last())
    }
}

/// The views of a sequence of messages.
pub open spec fn views(v: Seq<DiagnosticInfo>) -> Seq<DiagnosticInfoView> {
    v.map_values(|d: DiagnosticInfo| d@)
}

/// Placing `x` at a position `j` behind which only later messages stand, and
/// before which an earlier or equal one stands, is what `insert_by_position` does.
proof fn lemma_insert_at(s: Seq<DiagnosticInfoView>, x: DiagnosticInfoView, j: int)
    requires
        0 <= j <= s.len(),
        forall|i: int| j <= i < s.len() ==> !at_or_before(#[trigger] s[i], x),
        j == 0 || at_or_before(s[j - 1], x),
    ensures
        insert_by_position(s, x) == s.insert(j, x),
    decreases s.len(),
{
    if s.len() == 0 {
        assert(s.insert(j, x) =~= seq![x]);
    } else if at_or_before(s.last(), x) {
        assert(j == s.len());
        assert(s.insert(j, x) =~= s.push(x));
    } else {
        assert(j < s.len());
        let d = s.drop_last();
        assert forall|i: int| j <= i < d.len() implies !at_or_before(#[trigger] d[i], x) by {
            assert(d[i] == s[i]);
        }
        lemma_insert_at(d, x, j);
        assert(s.insert(j, x) =~= d.insert(j, x).push(s.last()));
    }
}

/// Whether each message stands at or before every later one.
pub open spec fn ordered_by_position(s: Seq<DiagnosticInfoView>) -> bool {
    forall|i: int, j: int| 0 <= i < j < s.len() ==> at_or_before(#[trigger] s[i], #[trigger] s[j])
}

/// Where `insert_by_position` puts `x`.
spec fn insert_pos(s: Seq<DiagnosticInfoView>, x: DiagnosticInfoView) -> int
    decreases s.len(),
{
    if s.len() == 0 {
        0
    } else if at_or_before(s.last(), x) {
        s.len() as int
    } else {
        insert_pos(s.drop_last(), x)
    }
}

proof fn lemma_insert_pos(s: Seq<DiagnosticInfoView>, x: DiagnosticInfoView)
    ensures
        0 <= insert_pos(s, x) <= s.len(),
        forall|i: int| insert_pos(s, x) <= i < s.len() ==> !at_or_before(#[trigger] s[i], x),
        insert_pos(s, x) == 0 || at_or_before(s[insert_pos(s, x) - 1], x),
    decreases s.len(),
{
    if s.len() > 0 && !at_or_before(s.last(), x) {
        let d = s.drop_last();
        lemma_insert_pos(d, x);
        assert forall|i: int| insert_pos(s, x) <= i < s.len() implies !at_or_before(
            #[trigger] s[i],
            x,
        ) by {
            if i < d.len() {
                assert(d[i] == s[i]);
            }
        }
        if insert_pos(s, x) > 0 {
            assert(d[insert_pos(s, x) - 1] == s[insert_pos(s, x) - 1]);
        }
    }
}

proof fn lemma_insert_keeps_order(s: Seq<DiagnosticInfoView>, x: DiagnosticInfoView)
    requires
        ordered_by_position(s),
    ensures
        ordered_by_position(insert_by_position(s, x)),
        insert_by_position(s, x).to_multiset() == s.to_multiset().insert(x),
{
    lemma_insert_pos(s, x);
    let p = insert_pos(s, x);
    lemma_insert_at(s, x, p);
    vstd::seq_lib::to_multiset_insert(s, p, x);
    s.insert_ensures(p, x);
    let t = s.insert(p, x);
    assert forall|i: int, j: int| 0 <= i < j < t.len() implies at_or_before(
        #[trigger] t[i],
        #[trigger] t[j],
    ) by {
        if j < p {
        } else if j == p {
            if i < p - 1 {
                assert(at_or_before(s[i], s[p - 1]));
            }
        } else if i < p {
            assert(t[j] == s[j - 1]);
        } else if i == p {
            assert(t[j] == s[j - 1]);
            assert(!at_or_before(s[j - 1], x));
        } else {
            assert(t[i] == s[i - 1]);
            assert(t[j] == s[j - 1]);
        }
    }
}

/// Flushing puts the messages in order of position, and neither drops one nor
/// adds one.
pub proof fn law_flush_orders_by_position(s: Seq<DiagnosticInfoView>)
    ensures
        ordered_by_position(by_position(s)),
        by_position(s).to_multiset() == s.to_multiset(),
    decreases s.len(),
{
    broadcast use vstd::seq_lib::to_multiset_build;

    if s.len() == 0 {
        assert(by_position(s) =~= s);
    } else {
        let d = s.drop_last();
        law_flush_orders_by_position(d);
        lemma_insert_keeps_order(by_position(d), s.last());
        assert(s =~= d.push(s.last()));
    }
}

pub struct Diagnostic {
    pub items: Vec<DiagnosticInfo>,
    has_fatal_flag: bool,
    has_error_flag: bool,
    has_warning_flag: bool,
}

impl Diagnostic {
    /// The messages in the order they were reported.
    pub closed spec fn messages(&self) -> Seq<DiagnosticInfoView> {
        views(self.items@)
    }

    pub closed spec fn fatal_flag(&self) -> bool {
        self.has_fatal_flag
    }

    pub closed spec fn error_flag(&self) -> bool {
        self.has_error_flag
    }

    pub closed spec fn warning_flag(&self) -> bool {
        self.has_warning_flag
    }

    pub fn new() -> (d: Self)
        ensures
            d.messages().len() == 0,
            !d.fatal_flag(),
            !d.error_flag(),
            !d.warning_flag(),
    {
        Self { items: Vec::new(), has_fatal_flag: false, has_error_flag: false, has_warning_flag: false }
    }

    fn push_diag(&mut self, severity: Severity, message: String, line: usize, col: usize)
        ensures
            final(self).messages() == old(self).messages().push(
                DiagnosticInfoView { severity, message: message@, line, col },
            ),
            final(self).has_fatal_flag == old(self).has_fatal_flag,
            final(self).has_error_flag == old(self).has_error_flag,
            final(self).has_warning_flag == old(self).has_warning_flag,
    {
        self.items.push(DiagnosticInfo { severity, message, line, col });
        assert(self.messages() =~= old(self).messages().push(
            DiagnosticInfoView { severity, message: message@, line, col },
        ));
    }

    /// Whether a fatal message was reported since the flags were last reset.
    pub fn has_fatal(&self) -> (r: bool)
        ensures
            r == self.fatal_flag(),
    {
        self.has_fatal_flag
    }

    /// Whether an error was reported since the flags were last reset.
    pub fn has_error(&self) -> (r: bool)
        ensures
            r == self.error_flag(),
    {
        self.has_error_flag
    }

    /// Whether a warning was reported since the flags were last reset.
    pub fn has_warning(&self) -> (r: bool)
        ensures
            r == self.warning_flag(),
    {
        self.has_warning_flag
    }

    /// Clears the three flags; the messages stay.
    pub fn reset_flags(&mut self)
        ensures
            !final(self).fatal_flag(),
            !final(self).error_flag(),
            !final(self).warning_flag(),
            final(self).messages() == old(self).messages(),
    {
        self.has_fatal_flag = false;
        self.has_error_flag = false;
        self.has_warning_flag = false;
    }

    /// Whether no message was reported at all.
    pub fn is_clear(&self) -> (r: bool)
        ensures
            r == (self.messages().len() == 0),
    {
        self.items.len() == 0
    }

    pub fn warning(&mut self, message: String, line: usize, col: usize)
        ensures
            final(self).messages() == old(self).messages().push(
                DiagnosticInfoView { severity: Severity::Warning, message: message@, line, col },
            ),
            final(self).warning_flag(),
            final(self).fatal_flag() == old(self).fatal_flag(),
            final(self).error_flag() == old(self).error_flag(),
    {
        self.push_diag(Severity::Warning, message, line, col);
        self.has_warning_flag = true;
    }

    pub fn error(&mut self, message: String, line: usize, col: usize)
        ensures
            final(self).messages() == old(self).messages().push(
                DiagnosticInfoView { severity: Severity::Error, message: message@, line, col },
            ),
            final(self).error_flag(),
            final(self).fatal_flag() == old(self).fatal_flag(),
            final(self).warning_flag() == old(self).warning_flag(),
    {
        self.push_diag(Severity::Error, message, line, col);
        self.has_error_flag = true;
    }

    pub fn fatal(&mut self, message: String, line: usize, col: usize)
        ensures
            final(self).messages() == old(self).messages().push(
                DiagnosticInfoView { severity: Severity::Fatal, message: message@, line, col },
            ),
            final(self).fatal_flag(),
            final(self).error_flag() == old(self).error_flag(),
            final(self).warning_flag() == old(self).warning_flag(),
    {
        self.has_fatal_flag = true;
        self.push_diag(Severity::Fatal, message, line, col);
    }

    /// The messages ordered by line and then column; messages at one position keep
    /// the order in which they were reported.
    pub fn flush(self) -> (r: Vec<DiagnosticInfo>)
        ensures
            views(r@) == by_position(self.messages()),
    {
        let ghost all = self.messages();
        let mut items = self.items;
        let mut result: Vec<DiagnosticInfo> = Vec::new();
        let ghost mut k: int = 0;
        while items.len() > 0
            invariant
                0 <= k <= all.len(),
                views(items@) == all.skip(k),
                views(result@) == by_position(all.take(k)),
            decreases items.len(),
        {
            let ghost before = items@;
            let x = items.remove(0);
            assert(items@ =~= before.remove(0));
            assert(views(before).len() == all.skip(k).len());
            assert(x@ == all[k]) by {
                assert(views(before)[0] == before[0]@);
                assert(all.skip(k)[0] == all[k]);
            }
            assert forall|i: int| 0 <= i < items@.len() implies #[trigger] views(items@)[i] == all.skip(
                k + 1,
            )[i] by {
                assert(items@[i] == before[i + 1]);
                assert(views(before)[i + 1] == before[i + 1]@);
                assert(all.skip(k)[i + 1] == all[k + 1 + i]);
            }
            assert(views(items@) =~= all.skip(k + 1));
            let line = x.line;
            let col = x.col;
            let mut j = result.len();
            while j > 0 && !(result[j - 1].line < line || (result[j - 1].line == line
                && result[j - 1].col <= col))
                invariant
                    j <= result.len(),
                    line == x.line,
                    col == x.col,
                    forall|i: int| j <= i < result.len() ==> !at_or_before(#[trigger] result@[i]@, x@),
                decreases j,
            {
                j = j - 1;
            }
            let ghost old_result = result@;
            proof {
                let vs = views(old_result);
                assert forall|i: int| j <= i < vs.len() implies !at_or_before(#[trigger] vs[i], x@) by {
                    assert(vs[i] == old_result[i]@);
                }
                if j > 0 {
                    assert(vs[j - 1] == old_result[j - 1]@);
                }
                lemma_insert_at(vs, x@, j as int);
            }
            result.insert(j, x);
            proof {
                assert(views(result@) =~= views(old_result).insert(j as int, x@));
                k = k + 1;
                assert(all.take(k).drop_last() =~= all.take(k - 1));
                assert(all.take(k).last() == all[k - 1]);
            }
        }
        proof {
            assert(all.skip(k).len() == 0);
            assert(all.take(k) =~= all);
        }
        result
    }
}

} // verus!
