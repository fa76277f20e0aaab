//! The tokenizer: splits the source into words (separators, strings,
//! runs of word characters and runs of other characters, without comments)
//! and gives each word its kind.
use vstd::prelude::*;

use crate::compiler::chars::{
    alphanumeric, is_alphanumeric_char, is_numeric_char, is_white_space, numeric, str_eq,
    white_space,
};
use vstd::string::{StrSliceExecFns, StringExecFns};
use crate::compiler::diagnostic::{Diagnostic, DiagnosticInfoView, Severity};
use crate::compiler::token::{tk, Token, TokenKind};
use crate::compiler::types::NumWord;

verus! {

pub type LexerOutput = Vec<Token>;

/// A word of the source as plain values.
pub struct NumWordView {
    pub word: Seq<char>,
    pub line: usize,
    pub col: usize,
}

impl View for NumWord {
    type V = NumWordView;

    open spec fn view(&self) -> NumWordView {
        NumWordView { word: self.word@, line: self.line, col: self.col }
    }
}

#[derive(Clone, Copy, PartialEq, Eq, Structural)]
pub enum LexerSplitterState {
    Normal,
    InString,
    InSingleComment,
}

/// Characters that make up words: alphanumeric ones and `_`.
pub open spec fn word_char(c: char) -> bool {
    is_alphanumeric_char(c) || c == '_'
}

/// Number of UTF-8 bytes of a character.
pub open spec fn utf8_len(c: char) -> nat {
    if (c as u32) < 0x80 {
        1
    } else if (c as u32) < 0x800 {
        2
    } else if (c as u32) < 0x10000 {
        3
    } else {
        4
    }
}

/// Number of UTF-8 bytes of a run of characters.
pub open spec fn utf8_bytes(s: Seq<char>) -> nat
    decreases s.len(),
{
    if s.len() == 0 {
        0
    } else {
        utf8_bytes(s.drop_last()) + utf8_len(s.last())
    }
}

/// Number of leading white-space characters.
pub open spec fn leading_space(s: Seq<char>) -> nat
    decreases s.len(),
{
    if s.len() > 0 && is_white_space(s[0]) {
        1 + leading_space(s.drop_first())
    } else {
        0
    }
}

/// Number of trailing white-space characters.
pub open spec fn trailing_space(s: Seq<char>) -> nat
    decreases s.len(),
{
    if s.len() > 0 && is_white_space(s.last()) {
        1 + trailing_space(s.drop_last())
    } else {
        0
    }
}

/// The state of the splitter between two characters.
pub struct SplitView {
    pub state: LexerSplitterState,
    pub word_start_idx: int,
    pub word_start_line: int,
    pub word_start_column: int,
    pub cur_line: int,
    pub cur_column: int,
    pub result: Seq<NumWordView>,
}

/// The words so far, after closing the word that starts at the word start
/// and ends before `end`: without its surrounding white space, and dropped
/// if nothing else is left; its column moves past the leading white space
/// (counted in bytes).
pub open spec fn pushed(src: Seq<char>, st: SplitView, end: int) -> Seq<NumWordView> {
    let mess = src.subrange(st.word_start_idx, end);
    let lead = leading_space(mess) as int;
    if lead == mess.len() {
        st.result
    } else {
        let trimmed = mess.subrange(lead, mess.len() as int);
        st.result.push(
            NumWordView {
                word: trimmed.subrange(0, trimmed.len() - trailing_space(trimmed)),
                line: st.word_start_line as usize,
                col: (st.word_start_column + utf8_bytes(mess.subrange(0, lead))) as usize,
            },
        )
    }
}

/// Characters that always stand as words of their own.
pub open spec fn is_separator(c: char) -> bool {
    c == ';' || c == '.' || c == ',' || c == '{' || c == '}' || c == '[' || c == ']' || c == '('
        || c == ')'
}

/// The splitter after the character at `i`, and the index of the next
/// character to read (a CR LF pair is read as one line end).
pub open spec fn split_step(src: Seq<char>, st: SplitView, i: int) -> (SplitView, int) {
    let n = src.len() as int;
    let cur = src[i];
    let cur_al = word_char(cur);
    let peek_idx = i + 1;
    let peek_ch = if i + 1 < n {
        src[i + 1]
    } else {
        '\0'
    };
    let peek_al = if i + 1 < n {
        word_char(src[i + 1])
    } else {
        !cur_al
    };
    let line_end = cur == '\n' || cur == '\r';
    let next = if line_end && cur == '\r' && peek_ch == '\n' && st.state
        != LexerSplitterState::InString {
        i + 2
    } else {
        i + 1
    };
    // after a line end: the next word starts at the next character, on the
    // next line, in column 0
    let fed = SplitView {
        word_start_idx: next,
        word_start_line: st.cur_line + 1,
        word_start_column: 0,
        cur_line: st.cur_line + 1,
        cur_column: 0,
        ..st
    };
    let after = if st.state == LexerSplitterState::InSingleComment {
        if line_end {
            SplitView { state: LexerSplitterState::Normal, ..fed }
        } else {
            st
        }
    } else if st.state == LexerSplitterState::InString {
        if cur == '"' {
            SplitView {
                state: LexerSplitterState::Normal,
                result: pushed(src, st, peek_idx),
                word_start_idx: peek_idx,
                word_start_line: st.cur_line,
                word_start_column: st.cur_column + 1,
                ..st
            }
        } else {
            st
        }
    } else if line_end {
        SplitView { result: pushed(src, st, i), ..fed }
    } else if cur == '/' && peek_ch == '/' {
        SplitView { state: LexerSplitterState::InSingleComment, result: pushed(src, st, i), ..st }
    } else if cur == '"' {
        SplitView {
            state: LexerSplitterState::InString,
            result: pushed(src, st, i),
            word_start_idx: i,
            word_start_line: st.cur_line,
            word_start_column: st.cur_column,
            ..st
        }
    } else if is_separator(cur) {
        let st1 = SplitView {
            result: pushed(src, st, i),
            word_start_idx: i,
            word_start_line: st.cur_line,
            word_start_column: st.cur_column,
            ..st
        };
        SplitView {
            result: pushed(src, st1, peek_idx),
            word_start_idx: peek_idx,
            word_start_line: st.cur_line,
            word_start_column: st.cur_column + 1,
            ..st1
        }
    } else if cur_al != peek_al {
        SplitView {
            result: pushed(src, st, peek_idx),
            word_start_idx: peek_idx,
            word_start_line: st.cur_line,
            word_start_column: st.cur_column + 1,
            ..st
        }
    } else {
        st
    };
    (SplitView { cur_column: after.cur_column + 1, ..after }, next)
}

/// The splitter after reading the source from `i` to the end.
pub open spec fn split_from(src: Seq<char>, st: SplitView, i: int) -> SplitView
    decreases src.len() - i,
{
    if i >= src.len() || i < 0 {
        st
    } else {
        let (st2, next) = split_step(src, st, i);
        split_from(src, st2, next)
    }
}

/// The splitter at the start: normal state, line 1, column 1.
pub open spec fn split_start() -> SplitView {
    SplitView {
        state: LexerSplitterState::Normal,
        word_start_idx: 0,
        word_start_line: 1,
        word_start_column: 1,
        cur_line: 1,
        cur_column: 1,
        result: Seq::empty(),
    }
}

/// The splitter after the whole source.
pub open spec fn split_all(src: Seq<char>) -> SplitView {
    split_from(src, split_start(), 0)
}

proof fn lemma_leading_space(s: Seq<char>, k: int)
    requires
        0 <= k <= s.len(),
        forall|j: int| 0 <= j < k ==> is_white_space(#[trigger] s[j]),
        k == s.len() || !is_white_space(s[k]),
    ensures
        leading_space(s) == k,
    decreases k,
{
    if k > 0 {
        lemma_leading_space(s.drop_first(), k - 1);
    }
}

proof fn lemma_trailing_space(s: Seq<char>, k: int)
    requires
        0 <= k <= s.len(),
        forall|j: int| s.len() - k <= j < s.len() ==> is_white_space(#[trigger] s[j]),
        k == s.len() || !is_white_space(s[s.len() - k - 1]),
    ensures
        trailing_space(s) == k,
    decreases k,
{
    if k > 0 {
        lemma_trailing_space(s.drop_last(), k - 1);
    }
}

proof fn lemma_trailing_space_lt(s: Seq<char>)
    requires
        s.len() > 0,
        !is_white_space(s[0]),
    ensures
        trailing_space(s) < s.len(),
    decreases s.len(),
{
    if s.len() > 1 {
        lemma_trailing_space_lt(s.drop_last());
    }
}

proof fn lemma_utf8_len_bound(s: Seq<char>)
    ensures
        utf8_bytes(s) <= 4 * s.len(),
    decreases s.len(),
{
    if s.len() > 0 {
        lemma_utf8_len_bound(s.drop_last());
    }
}

/// Where the next word starts.
struct WordStart {
    idx: usize,
    line: usize,
    col: usize,
}

impl WordStart {
    fn new(idx: usize, line: usize, col: usize) -> (r: Self)
        ensures
            r.idx == idx && r.line == line && r.col == col,
    {
        Self { idx, line, col }
    }
}

struct LexerSplitter {
    src: Vec<char>,
    pos: usize,
    result: Vec<NumWord>,
    state: LexerSplitterState,
    word_start_line: usize,
    word_start_column: usize,
    word_start_idx: usize,
    cur_line: usize,
    cur_column: usize,
}

impl LexerSplitter {
    spec fn view(&self) -> SplitView {
        SplitView {
            state: self.state,
            word_start_idx: self.word_start_idx as int,
            word_start_line: self.word_start_line as int,
            word_start_column: self.word_start_column as int,
            cur_line: self.cur_line as int,
            cur_column: self.cur_column as int,
            result: self.result@.map_values(|w: NumWord| w@),
        }
    }

    /// Positions stay within the source, and lines and columns within what
    /// reading `pos` characters can make of them.
    spec fn inv(&self) -> bool {
        &&& self.word_start_idx <= self.pos <= self.src@.len()
        &&& 5 * self.src@.len() + 8 <= usize::MAX
        &&& self.cur_line <= self.pos + 1
        &&& self.cur_column <= self.pos + 1
        &&& self.word_start_column <= self.pos + 1
        &&& self.word_start_line <= self.cur_line
        &&& forall|k: int| 0 <= k < self.result@.len() ==> (#[trigger] self.result@[k]).word@.len() > 0
    }

    fn new(source_code: &str) -> (r: Self)
        requires
            5 * source_code@.len() + 8 <= usize::MAX,
        ensures
            r.view() == split_start(),
            r.src@ == source_code@,
            r.pos == 0,
            r.inv(),
    {
        let r = Self {
            src: crate::compiler::chars::chars_of(source_code),
            pos: 0,
            result: Vec::new(),
            state: LexerSplitterState::Normal,
            word_start_line: 1,
            word_start_column: 1,
            word_start_idx: 0,
            cur_line: 1,
            cur_column: 1,
        };
        assert(r.view().result =~= Seq::<NumWordView>::empty());
        r
    }

    // Push word to the result with a custom ending index
    fn push_word(&mut self, word_end_idx: usize)
        requires
            old(self).inv(),
            old(self).word_start_idx <= word_end_idx <= old(self).src@.len(),
        ensures
            final(self).view() == (SplitView {
                result: pushed(old(self).src@, old(self).view(), word_end_idx as int),
                ..old(self).view()
            }),
            final(self).src == old(self).src,
            final(self).pos == old(self).pos,
            final(self).inv(),
    {
        let ghost mess = self.src@.subrange(self.word_start_idx as int, word_end_idx as int);
        // Mess word with whitespaces on the sides
        let mut lead = self.word_start_idx;
        let mut bytes: usize = 0;
        while lead < word_end_idx && white_space(self.src[lead])
            invariant
                self.word_start_idx <= lead <= word_end_idx <= self.src@.len(),
                5 * self.src@.len() + 8 <= usize::MAX,
                forall|j: int| self.word_start_idx <= j < lead ==> is_white_space(#[trigger] self.src@[j]),
                bytes == utf8_bytes(self.src@.subrange(self.word_start_idx as int, lead as int)),
            decreases word_end_idx - lead,
        {
            proof {
                lemma_utf8_len_bound(self.src@.subrange(self.word_start_idx as int, lead as int));
                assert(self.src@.subrange(self.word_start_idx as int, lead + 1).drop_last()
                    =~= self.src@.subrange(self.word_start_idx as int, lead as int));
            }
            bytes = bytes + utf8_char_len(self.src[lead]);
            lead = lead + 1;
        }
        proof {
            lemma_leading_space(mess, lead - self.word_start_idx);
            lemma_utf8_len_bound(self.src@.subrange(self.word_start_idx as int, lead as int));
            assert(mess.subrange(0, lead - self.word_start_idx) =~= self.src@.subrange(
                self.word_start_idx as int,
                lead as int,
            ));
        }
        if lead < word_end_idx {
            // Mess word with whitespaces in the end
            let mut tail = word_end_idx;
            while tail > lead && white_space(self.src[tail - 1])
                invariant
                    lead < word_end_idx <= self.src@.len(),
                    lead <= tail <= word_end_idx,
                    forall|j: int| tail <= j < word_end_idx ==> is_white_space(#[trigger] self.src@[j]),
                decreases tail - lead,
            {
                tail = tail - 1;
            }
            let ghost trimmed = mess.subrange(lead - self.word_start_idx, mess.len() as int);
            proof {
                assert(trimmed =~= self.src@.subrange(lead as int, word_end_idx as int));
                lemma_trailing_space(trimmed, word_end_idx - tail);
                lemma_trailing_space_lt(trimmed);
            }
            let word = string_of_range(&self.src, lead, tail);
            assert(word@ =~= trimmed.subrange(0, trimmed.len() - trailing_space(trimmed)));
            let num_word = NumWord::new(
                word,
                self.word_start_line,
                // Shift column on amount of the mess in the start
                self.word_start_column + bytes,
            );
            let ghost old_result = self.result@;
            self.result.push(num_word);
            assert(self.result@.map_values(|w: NumWord| w@) =~= old_result.map_values(
                |w: NumWord| w@,
            ).push(num_word@));
        }
    }
}

/// Number of UTF-8 bytes of a character.
fn utf8_char_len(c: char) -> (r: usize)
    ensures
        r == utf8_len(c),
{
    let u = c as u32;
    if u < 0x80 {
        1
    } else if u < 0x800 {
        2
    } else if u < 0x10000 {
        3
    } else {
        4
    }
}

/// The string of the characters `v[from..to]`.
fn string_of_range(v: &Vec<char>, from: usize, to: usize) -> (s: String)
    requires
        from <= to <= v@.len(),
    ensures
        s@ == v@.subrange(from as int, to as int),
{
    let mut s = String::new();
    let mut i = from;
    while i < to
        invariant
            from <= i <= to <= v@.len(),
            s@ == v@.subrange(from as int, i as int),
        decreases to - i,
    {
        s.push(v[i]);
        i += 1;
        assert(s@ =~= v@.subrange(from as int, i as int));
    }
    s
}

impl LexerSplitter {
    // If current char is the end of line - feed line and return position of new word
    fn try_feed_line(&mut self, cur_ch: char, peek_ch: char) -> (r: Option<WordStart>)
        requires
            old(self).inv(),
            old(self).pos >= 1,
            old(self).cur_line <= old(self).pos,
            peek_ch == (if old(self).pos < old(self).src@.len() {
                old(self).src@[old(self).pos as int]
            } else {
                '\0'
            }),
        ensures
            (cur_ch == '\n' || cur_ch == '\r') ==> {
                let next = if cur_ch == '\r' && peek_ch == '\n' {
                    old(self).pos + 1
                } else {
                    old(self).pos as int
                };
                &&& r matches Some(ws) && ws.idx == next && ws.line == old(self).cur_line + 1 && ws.col == 0
                &&& final(self).pos == next
                &&& final(self).cur_line == old(self).cur_line + 1
                &&& final(self).cur_column == 0
            },
            !(cur_ch == '\n' || cur_ch == '\r') ==> r is None && *final(self) == *old(self),
            final(self).src == old(self).src,
            final(self).result == old(self).result,
            final(self).state == old(self).state,
            final(self).word_start_idx == old(self).word_start_idx,
            final(self).word_start_line == old(self).word_start_line,
            final(self).word_start_column == old(self).word_start_column,
            final(self).pos <= final(self).src@.len(),
            final(self).cur_line <= final(self).pos + 1,
    {
        // LF or CR
        if cur_ch == '\n' || cur_ch == '\r' {
            // CRLF
            if cur_ch == '\r' && peek_ch == '\n' {
                // Skip LF
                self.pos = self.pos + 1;
            }
            // Feed line
            self.cur_line += 1;
            self.cur_column = 0;
            Some(WordStart::new(self.pos, self.cur_line, self.cur_column))
        } else {
            None
        }
    }

    // State machine iteration
    fn process(
        &mut self,
        cur_idx: usize,
        cur_ch: char,
        cur_ch_is_alphanum: bool,
        peek_idx: usize,
        peek_ch: char,
        peek_ch_is_alphanum: bool,
    )
        requires
            old(self).inv(),
            cur_idx < old(self).src@.len(),
            old(self).pos == cur_idx + 1,
            old(self).word_start_idx <= cur_idx,
            old(self).cur_line <= old(self).pos,
            old(self).cur_column <= old(self).pos,
            old(self).word_start_column <= old(self).pos,
            cur_ch == old(self).src@[cur_idx as int],
            cur_ch_is_alphanum == word_char(cur_ch),
            peek_idx == cur_idx + 1,
            peek_ch == (if peek_idx < old(self).src@.len() {
                old(self).src@[peek_idx as int]
            } else {
                '\0'
            }),
            peek_ch_is_alphanum == (if peek_idx < old(self).src@.len() {
                word_char(old(self).src@[peek_idx as int])
            } else {
                !cur_ch_is_alphanum
            }),
        ensures
            ({
                let (st, next) = split_step(old(self).src@, old(self).view(), cur_idx as int);
                &&& final(self).view() == SplitView { cur_column: st.cur_column - 1, ..st }
                &&& final(self).pos == next
            }),
            final(self).src == old(self).src,
            final(self).inv(),
            final(self).cur_column <= final(self).pos,
    {
        let word_start = match self.state {
            LexerSplitterState::InSingleComment => {
                if let Some(r) = self.try_feed_line(cur_ch, peek_ch) {
                    self.state = LexerSplitterState::Normal;
                    Some(r)
                } else {
                    None
                }
            },
            LexerSplitterState::InString => {
                if cur_ch == '"' {
                    self.state = LexerSplitterState::Normal;
                    self.push_word(peek_idx);
                    Some(WordStart::new(peek_idx, self.cur_line, self.cur_column + 1))
                } else {
                    None
                }
            },
            LexerSplitterState::Normal => {
                // New line
                if let Some(r) = self.try_feed_line(cur_ch, peek_ch) {
                    self.push_word(cur_idx);
                    Some(r)
                // Single line comment
                } else if cur_ch == '/' && peek_ch == '/' {
                    self.push_word(cur_idx);
                    self.state = LexerSplitterState::InSingleComment;
                    None
                // String start
                } else if cur_ch == '"' {
                    self.push_word(cur_idx);
                    self.state = LexerSplitterState::InString;
                    Some(WordStart::new(cur_idx, self.cur_line, self.cur_column))
                // Some of separators (special chars)
                } else if matches!(cur_ch, ';' | '.' | ',' | '{' | '}' | '[' | ']' | '(' | ')') {
                    self.push_word(cur_idx);
                    self.word_start_idx = cur_idx;
                    self.word_start_line = self.cur_line;
                    self.word_start_column = self.cur_column;
                    self.push_word(peek_idx);
                    Some(WordStart::new(peek_idx, self.cur_line, self.cur_column + 1))
                // Separate words by type. "a==b+c" -> ["a", "==", "b", "+", "c"]
                } else if cur_ch_is_alphanum != peek_ch_is_alphanum {
                    self.push_word(peek_idx);
                    Some(WordStart::new(peek_idx, self.cur_line, self.cur_column + 1))
                } else {
                    None
                }
            },
        };

        if let Some(ws) = word_start {
            self.word_start_idx = ws.idx;
            self.word_start_line = ws.line;
            self.word_start_column = ws.col;
        }
    }
}

/// The kind of a keyword, bracket, punctuation, operator or setter.
pub open spec fn keyword_kind(w: Seq<char>) -> Option<TokenKind> {
    if w == "fn"@ {
        Some(TokenKind::General(tk::General::Fn))
    } else if w == "let"@ {
        Some(TokenKind::General(tk::General::Let))
    } else if w == "if"@ {
        Some(TokenKind::General(tk::General::If))
    } else if w == "else"@ {
        Some(TokenKind::General(tk::General::Else))
    } else if w == "while"@ {
        Some(TokenKind::General(tk::General::While))
    } else if w == "return"@ {
        Some(TokenKind::General(tk::General::Return))
    } else if w == "("@ {
        Some(TokenKind::General(tk::General::LRndBracket))
    } else if w == ")"@ {
        Some(TokenKind::General(tk::General::RRndBracket))
    } else if w == "{"@ {
        Some(TokenKind::General(tk::General::LBrace))
    } else if w == "}"@ {
        Some(TokenKind::General(tk::General::RBrace))
    } else if w == "->"@ {
        Some(TokenKind::General(tk::General::Arrow))
    } else if w == ";"@ {
        Some(TokenKind::General(tk::General::Semicolon))
    } else if w == ":"@ {
        Some(TokenKind::General(tk::General::Colon))
    } else if w == ","@ {
        Some(TokenKind::General(tk::General::Comma))
    } else if w == "+"@ {
        Some(TokenKind::Operator(tk::Operator::Plus))
    } else if w == "-"@ {
        Some(TokenKind::Operator(tk::Operator::Minus))
    } else if w == "*"@ {
        Some(TokenKind::Operator(tk::Operator::Star))
    } else if w == "/"@ {
        Some(TokenKind::Operator(tk::Operator::Slash))
    } else if w == "%"@ {
        Some(TokenKind::Operator(tk::Operator::Mod))
    } else if w == "!"@ {
        Some(TokenKind::Operator(tk::Operator::Not))
    } else if w == "~"@ {
        Some(TokenKind::Operator(tk::Operator::BitInv))
    } else if w == "<<"@ {
        Some(TokenKind::Operator(tk::Operator::LShift))
    } else if w == ">>"@ {
        Some(TokenKind::Operator(tk::Operator::RShift))
    } else if w == "&"@ {
        Some(TokenKind::Operator(tk::Operator::Ampersand))
    } else if w == "|"@ {
        Some(TokenKind::Operator(tk::Operator::Bar))
    } else if w == "&&"@ {
        Some(TokenKind::Operator(tk::Operator::And))
    } else if w == "||"@ {
        Some(TokenKind::Operator(tk::Operator::Or))
    } else if w == "=="@ {
        Some(TokenKind::Operator(tk::Operator::Eq))
    } else if w == "!="@ {
        Some(TokenKind::Operator(tk::Operator::NotEq))
    } else if w == "<"@ {
        Some(TokenKind::Operator(tk::Operator::Lt))
    } else if w == ">"@ {
        Some(TokenKind::Operator(tk::Operator::Gt))
    } else if w == "<="@ {
        Some(TokenKind::Operator(tk::Operator::LtEq))
    } else if w == ">="@ {
        Some(TokenKind::Operator(tk::Operator::GtEq))
    } else if w == "="@ {
        Some(TokenKind::Setter(tk::Setter::Assign))
    } else if w == "+="@ {
        Some(TokenKind::Setter(tk::Setter::PlusSet))
    } else if w == "-="@ {
        Some(TokenKind::Setter(tk::Setter::MinusSet))
    } else if w == "*="@ {
        Some(TokenKind::Setter(tk::Setter::StarSet))
    } else if w == "/="@ {
        Some(TokenKind::Setter(tk::Setter::SlashSet))
    } else if w == "%="@ {
        Some(TokenKind::Setter(tk::Setter::ModSet))
    } else if w == "~="@ {
        Some(TokenKind::Setter(tk::Setter::BitInvSet))
    } else if w == "<<="@ {
        Some(TokenKind::Setter(tk::Setter::LShiftSet))
    } else if w == ">>="@ {
        Some(TokenKind::Setter(tk::Setter::RShiftSet))
    } else if w == "&="@ {
        Some(TokenKind::Setter(tk::Setter::BitAndSet))
    } else if w == "|="@ {
        Some(TokenKind::Setter(tk::Setter::BitOrSet))
    } else {
        None
    }
}

/// A word that may be an identifier: word characters (alphanumeric or `_`)
/// only, the first of them not numeric.
pub open spec fn is_ident(w: Seq<char>) -> bool {
    &&& !is_numeric_char(w[0])
    &&& forall|i: int| 0 <= i < w.len() ==> word_char(#[trigger] w[i])
}

/// A word that starts with an ASCII digit.
pub open spec fn is_number(w: Seq<char>) -> bool {
    w.len() > 0 && '0' <= w[0] <= '9'
}

/// The kind of a (nonempty) word: a keyword or symbol, a string literal
/// (it starts with a quote), an identifier, a number, or unknown.
pub open spec fn classify(w: Seq<char>) -> TokenKind {
    match keyword_kind(w) {
        Some(k) => k,
        None => if w[0] == '"' {
            TokenKind::General(tk::General::String)
        } else if is_ident(w) {
            TokenKind::General(tk::General::Ident)
        } else if is_number(w) {
            TokenKind::General(tk::General::Number)
        } else {
            TokenKind::Unknown
        },
    }
}

fn keyword(w: &str) -> (r: Option<TokenKind>)
    ensures
        r == keyword_kind(w@),
{
    if str_eq(w, "fn") {
        Some(TokenKind::General(tk::General::Fn))
    } else if str_eq(w, "let") {
        Some(TokenKind::General(tk::General::Let))
    } else if str_eq(w, "if") {
        Some(TokenKind::General(tk::General::If))
    } else if str_eq(w, "else") {
        Some(TokenKind::General(tk::General::Else))
    } else if str_eq(w, "while") {
        Some(TokenKind::General(tk::General::While))
    } else if str_eq(w, "return") {
        Some(TokenKind::General(tk::General::Return))
    } else if str_eq(w, "(") {
        Some(TokenKind::General(tk::General::LRndBracket))
    } else if str_eq(w, ")") {
        Some(TokenKind::General(tk::General::RRndBracket))
    } else if str_eq(w, "{") {
        Some(TokenKind::General(tk::General::LBrace))
    } else if str_eq(w, "}") {
        Some(TokenKind::General(tk::General::RBrace))
    } else if str_eq(w, "->") {
        Some(TokenKind::General(tk::General::Arrow))
    } else if str_eq(w, ";") {
        Some(TokenKind::General(tk::General::Semicolon))
    } else if str_eq(w, ":") {
        Some(TokenKind::General(tk::General::Colon))
    } else if str_eq(w, ",") {
        Some(TokenKind::General(tk::General::Comma))
    } else if str_eq(w, "+") {
        Some(TokenKind::Operator(tk::Operator::Plus))
    } else if str_eq(w, "-") {
        Some(TokenKind::Operator(tk::Operator::Minus))
    } else if str_eq(w, "*") {
        Some(TokenKind::Operator(tk::Operator::Star))
    } else if str_eq(w, "/") {
        Some(TokenKind::Operator(tk::Operator::Slash))
    } else if str_eq(w, "%") {
        Some(TokenKind::Operator(tk::Operator::Mod))
    } else if str_eq(w, "!") {
        Some(TokenKind::Operator(tk::Operator::Not))
    } else if str_eq(w, "~") {
        Some(TokenKind::Operator(tk::Operator::BitInv))
    } else if str_eq(w, "<<") {
        Some(TokenKind::Operator(tk::Operator::LShift))
    } else if str_eq(w, ">>") {
        Some(TokenKind::Operator(tk::Operator::RShift))
    } else if str_eq(w, "&") {
        Some(TokenKind::Operator(tk::Operator::Ampersand))
    } else if str_eq(w, "|") {
        Some(TokenKind::Operator(tk::Operator::Bar))
    } else if str_eq(w, "&&") {
        Some(TokenKind::Operator(tk::Operator::And))
    } else if str_eq(w, "||") {
        Some(TokenKind::Operator(tk::Operator::Or))
    } else if str_eq(w, "==") {
        Some(TokenKind::Operator(tk::Operator::Eq))
    } else if str_eq(w, "!=") {
        Some(TokenKind::Operator(tk::Operator::NotEq))
    } else if str_eq(w, "<") {
        Some(TokenKind::Operator(tk::Operator::Lt))
    } else if str_eq(w, ">") {
        Some(TokenKind::Operator(tk::Operator::Gt))
    } else if str_eq(w, "<=") {
        Some(TokenKind::Operator(tk::Operator::LtEq))
    } else if str_eq(w, ">=") {
        Some(TokenKind::Operator(tk::Operator::GtEq))
    } else if str_eq(w, "=") {
        Some(TokenKind::Setter(tk::Setter::Assign))
    } else if str_eq(w, "+=") {
        Some(TokenKind::Setter(tk::Setter::PlusSet))
    } else if str_eq(w, "-=") {
        Some(TokenKind::Setter(tk::Setter::MinusSet))
    } else if str_eq(w, "*=") {
        Some(TokenKind::Setter(tk::Setter::StarSet))
    } else if str_eq(w, "/=") {
        Some(TokenKind::Setter(tk::Setter::SlashSet))
    } else if str_eq(w, "%=") {
        Some(TokenKind::Setter(tk::Setter::ModSet))
    } else if str_eq(w, "~=") {
        Some(TokenKind::Setter(tk::Setter::BitInvSet))
    } else if str_eq(w, "<<=") {
        Some(TokenKind::Setter(tk::Setter::LShiftSet))
    } else if str_eq(w, ">>=") {
        Some(TokenKind::Setter(tk::Setter::RShiftSet))
    } else if str_eq(w, "&=") {
        Some(TokenKind::Setter(tk::Setter::BitAndSet))
    } else if str_eq(w, "|=") {
        Some(TokenKind::Setter(tk::Setter::BitOrSet))
    } else {
        None
    }
}

fn word_is_ident(word: &str) -> (r: bool)
    requires
        word@.len() > 0,
    ensures
        r == is_ident(word@),
{
    let n = word.unicode_len();
    // First char is always exist
    if numeric(word.get_char(0)) {
        return false;
    }
    let mut i: usize = 0;
    while i < n
        invariant
            n == word@.len(),
            0 <= i <= n,
            forall|j: int| 0 <= j < i ==> word_char(#[trigger] word@[j]),
        decreases n - i,
    {
        let c = word.get_char(i);
        if !(alphanumeric(c) || c == '_') {
            return false;
        }
        i += 1;
    }
    true
}

fn word_is_number(word: &str) -> (r: bool)
    ensures
        r == is_number(word@),
{
    if word.unicode_len() == 0 {
        return false;
    }
    let c = word.get_char(0);
    '0' <= c && c <= '9'
}

/// Whether the source ends inside a string literal.
pub open spec fn unclosed(src: Seq<char>) -> bool {
    split_all(src).state == LexerSplitterState::InString
}

/// The message for an unknown word.
pub open spec fn unexpected_message(w: Seq<char>) -> Seq<char> {
    "unexpected token '"@ + w + "'"@
}

/// The errors reported for the unknown words, in order.
pub open spec fn lex_errors(words: Seq<NumWordView>) -> Seq<DiagnosticInfoView>
    decreases words.len(),
{
    if words.len() == 0 {
        Seq::empty()
    } else {
        let prev = lex_errors(words.drop_last());
        let w = words.last();
        if classify(w.word) == TokenKind::Unknown {
            prev.push(
                DiagnosticInfoView {
                    severity: Severity::Error,
                    message: unexpected_message(w.word),
                    line: w.line,
                    col: w.col,
                },
            )
        } else {
            prev
        }
    }
}

impl LexerSplitter {
    /// Splits the whole source into words; `Err` when it ends inside a
    /// string literal, which is reported as fatal where the string starts.
    fn run(self, diag: &mut Diagnostic) -> (r: Result<Vec<NumWord>, ()>)
        requires
            self.inv(),
            self.pos == 0,
            self.view() == split_start(),
        ensures
            ({
                let st = split_all(self.src@);
                if st.state == LexerSplitterState::InString {
                    &&& r is Err
                    &&& final(diag).messages() == old(diag).messages().push(
                        DiagnosticInfoView {
                            severity: Severity::Fatal,
                            message: "unclosed string"@,
                            line: st.word_start_line as usize,
                            col: st.word_start_column as usize,
                        },
                    )
                    &&& final(diag).fatal_flag()
                    &&& final(diag).error_flag() == old(diag).error_flag()
                    &&& final(diag).warning_flag() == old(diag).warning_flag()
                } else {
                    &&& r matches Ok(words) && words@.map_values(|w: NumWord| w@) == st.result
                    &&& *final(diag) == *old(diag)
                }
            }),
            r matches Ok(words) ==> forall|k: int|
                0 <= k < words@.len() ==> (#[trigger] words@[k]).word@.len() > 0,
    {
        broadcast use vstd::string::group_string_axioms;

        let mut this = self;
        let n = this.src.len();
        while this.pos < n
            invariant
                this.inv(),
                n == this.src@.len(),
                this.src@ == self.src@,
                split_from(this.src@, this.view(), this.pos as int) == split_all(this.src@),
                this.word_start_idx <= this.pos,
            decreases n - this.pos,
        {
            let cur_idx = this.pos;
            let cur_ch = this.src[cur_idx];
            this.pos = this.pos + 1;
            // Load current char and next char
            let cur_ch_is_alphanum = alphanumeric(cur_ch) || cur_ch == '_';
            let (peek_idx, peek_ch, peek_ch_is_alphanum) = if this.pos < n {
                let p = this.src[this.pos];
                (this.pos, p, alphanumeric(p) || p == '_')
            } else {
                (n, '\0', !cur_ch_is_alphanum)
            };
            let ghost before = this.view();
            this.process(
                cur_idx,
                cur_ch,
                cur_ch_is_alphanum,
                peek_idx,
                peek_ch,
                peek_ch_is_alphanum,
            );
            this.cur_column += 1;
            assert(this.view() == split_step(this.src@, before, cur_idx as int).0);
        }

        assert(split_from(this.src@, this.view(), this.pos as int) == this.view());
        // If source code is read, but the state machine stays in 'InString'
        // state: 'let a: &u32 = "Unclosed string'
        if this.state == LexerSplitterState::InString {
            diag.fatal("unclosed string".to_string(), this.word_start_line, this.word_start_column);
            return Err(());
        }
        Ok(this.result)
    }
}

/// Splits the source into words and gives each its kind. Every unknown word
/// is reported as an error where it stands; a source that ends inside a
/// string literal gives `Err`, reported as fatal.
pub fn lex(source_code: &str, diag: &mut Diagnostic) -> (r: Result<LexerOutput, ()>)
    requires
        5 * source_code@.len() + 8 <= usize::MAX,
    ensures
        r is Err <==> unclosed(source_code@),
        unclosed(source_code@) ==> {
            let st = split_all(source_code@);
            &&& final(diag).messages() == old(diag).messages().push(
                DiagnosticInfoView {
                    severity: Severity::Fatal,
                    message: "unclosed string"@,
                    line: st.word_start_line as usize,
                    col: st.word_start_column as usize,
                },
            )
            &&& final(diag).fatal_flag()
            &&& final(diag).error_flag() == old(diag).error_flag()
            &&& final(diag).warning_flag() == old(diag).warning_flag()
        },
        r matches Ok(tokens) ==> {
            let words = split_all(source_code@).result;
            &&& tokens@.len() == words.len()
            &&& forall|k: int|
                0 <= k < words.len() ==> {
                    &&& (#[trigger] tokens@[k]).word@ == words[k]
                    &&& tokens@[k].kind == classify(words[k].word)
                }
            &&& final(diag).messages() == old(diag).messages() + lex_errors(words)
            &&& final(diag).error_flag() == (old(diag).error_flag() || lex_errors(words).len() > 0)
            &&& final(diag).fatal_flag() == old(diag).fatal_flag()
            &&& final(diag).warning_flag() == old(diag).warning_flag()
        },
{
    broadcast use vstd::string::group_string_axioms;

    // Split the string into separate words, storing line and column of each
    let lexer_splitter = LexerSplitter::new(source_code);
    let spltted = match lexer_splitter.run(diag) {
        Ok(w) => w,
        Err(()) => return Err(()),
    };
    let ghost words = split_all(source_code@).result;
    let ghost diag0 = *diag;
    assert(words == spltted@.map_values(|w: NumWord| w@));

    // Tokenize separate words
    let mut result: Vec<Token> = Vec::new();
    let mut i: usize = 0;
    while i < spltted.len()
        invariant
            i <= spltted@.len(),
            words == spltted@.map_values(|w: NumWord| w@),
            forall|k: int| 0 <= k < spltted@.len() ==> (#[trigger] spltted@[k]).word@.len() > 0,
            result@.len() == i,
            forall|k: int|
                0 <= k < i ==> {
                    &&& (#[trigger] result@[k]).word@ == words[k]
                    &&& result@[k].kind == classify(words[k].word)
                },
            diag.messages() == diag0.messages() + lex_errors(words.take(i as int)),
            diag.error_flag() == (diag0.error_flag() || lex_errors(words.take(i as int)).len() > 0),
            diag.fatal_flag() == diag0.fatal_flag(),
            diag.warning_flag() == diag0.warning_flag(),
        decreases spltted@.len() - i,
    {
        let w = &spltted[i];
        let num_word = NumWord::new(w.word.clone(), w.line, w.col);
        let word = w.word.as_str();
        let kind = match keyword(word) {
            Some(k) => k,
            // String literal: enclosed in quotes "..."
            None => if word.get_char(0) == '"' {
                TokenKind::General(tk::General::String)
            // Identifier: alphanumeric characters or '_', must not start with digit
            } else if word_is_ident(word) {
                TokenKind::General(tk::General::Ident)
            // Numeric literal: digits or '_' (sugar for view separation)
            } else if word_is_number(word) {
                TokenKind::General(tk::General::Number)
            } else {
                let mut message = "unexpected token '".to_string();
                message.append(word);
                message.append("'");
                diag.error(message, w.line, w.col);
                TokenKind::Unknown
            },
        };
        proof {
            assert(words.take(i + 1).drop_last() =~= words.take(i as int));
            assert(words.take(i + 1).last() == words[i as int]);
        }
        result.push(Token { word: num_word, kind });
        i += 1;
        proof {
            assert(diag.messages() =~= diag0.messages() + lex_errors(words.take(i as int)));
        }
    }
    assert(words.take(spltted@.len() as int) =~= words);
    Ok(result)
}

} // verus!
