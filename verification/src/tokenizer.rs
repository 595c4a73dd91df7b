use vstd::prelude::*;

use crate::location::{LocV, Location};
use crate::text::push_char;
use crate::token::{Operator, Token, TokenKind, TokenKindV, TokenV};

verus! {

// ---------------------------------------------------------------------------
// Character classes of the lexical grammar.
// ---------------------------------------------------------------------------
/// ASCII whitespace: space, tab, line feed, form feed, carriage return.
pub open spec fn is_space_char(c: char) -> bool {
    c == ' ' || c == '\t' || c == '\n' || c == '\r' || c == '\x0c'
}

/// An ASCII decimal digit.
pub open spec fn is_digit_char(c: char) -> bool {
    48 <= c as u32 <= 57
}

/// A character of a numeric lexeme: a digit or the `_` separator.
pub open spec fn is_num_char(c: char) -> bool {
    is_digit_char(c) || c == '_'
}

/// A character of an identifier lexeme: ASCII alphanumeric or `_`.
pub open spec fn is_word_char(c: char) -> bool {
    is_digit_char(c) || (65 <= c as u32 <= 90) || (97 <= c as u32 <= 122) || c == '_'
}

/// The operator named by a single character, if any.
pub open spec fn operator_for(c: char) -> Option<Operator> {
    if c == '+' {
        Some(Operator::Plus)
    } else if c == '-' {
        Some(Operator::Minus)
    } else if c == '*' {
        Some(Operator::Star)
    } else if c == '/' {
        Some(Operator::Slash)
    } else {
        None
    }
}

// ---------------------------------------------------------------------------
// Lexical scanning, stated over the character sequence.
// ---------------------------------------------------------------------------
/// The first index at or after `i` holding a non-whitespace character
/// (or the end of the text).
pub open spec fn skip_ws_from(s: Seq<char>, i: int) -> int
    decreases s.len() - i,
    when 0 <= i <= s.len()
{
    if i < s.len() && is_space_char(s[i]) {
        skip_ws_from(s, i + 1)
    } else {
        i
    }
}

/// The end of the maximal run of digit-or-separator characters starting
/// at `i`.
pub open spec fn num_end(s: Seq<char>, i: int) -> int
    decreases s.len() - i,
    when 0 <= i <= s.len()
{
    if i < s.len() && is_num_char(s[i]) {
        num_end(s, i + 1)
    } else {
        i
    }
}

/// The end of the maximal run of identifier characters starting at `i`.
pub open spec fn word_end(s: Seq<char>, i: int) -> int
    decreases s.len() - i,
    when 0 <= i <= s.len()
{
    if i < s.len() && is_word_char(s[i]) {
        word_end(s, i + 1)
    } else {
        i
    }
}

/// `s` with every `_` separator removed.
pub open spec fn strip_seps(s: Seq<char>) -> Seq<char>
    decreases s.len(),
{
    if s.len() == 0 {
        s
    } else if s.last() == '_' {
        strip_seps(s.drop_last())
    } else {
        strip_seps(s.drop_last()).push(s.last())
    }
}

/// The stored text of the numeric token scanned at `i`: the run's digit
/// string with separators removed.
pub open spec fn num_value(s: Seq<char>, i: int) -> Seq<char> {
    strip_seps(s.subrange(i, num_end(s, i)))
}

// ---------------------------------------------------------------------------
// Location bookkeeping, stated over the consumed prefix.
// ---------------------------------------------------------------------------
/// How consuming one character moves the (line, column) coordinate:
/// a newline starts the next line at column 1, anything else moves one
/// column to the right.
pub open spec fn loc_step(l: LocV, c: char) -> LocV {
    if c == '\n' {
        LocV { line: l.line + 1, column: 1 }
    } else {
        LocV { line: l.line, column: l.column + 1 }
    }
}

/// The coordinate reached after consuming all of `s`, starting from
/// line 1, column 1.
pub open spec fn loc_after(s: Seq<char>) -> LocV
    decreases s.len(),
{
    if s.len() == 0 {
        LocV { line: 1, column: 1 }
    } else {
        loc_step(loc_after(s.drop_last()), s.last())
    }
}

// ---------------------------------------------------------------------------
// One scan step: the token (or fault) found at a position.
// ---------------------------------------------------------------------------
/// The outcome of scanning one token starting at some position: either a
/// token together with the position just past it, or an unknown-token
/// fault carrying the offending character, its location, and the position
/// just past it.
pub ghost enum Scan {
    Token { token: TokenV, end: int },
    Fault { location: LocV, bad: char, after: int },
}

/// The token produced by a scan starting at `i`: skip whitespace, then try
/// in order a numeric scan, an identifier scan, and an operator scan; at
/// the end of the text the scan yields the `EndOfFile` sentinel. A
/// character matching no scanner is an unknown-token fault. The token's
/// location is captured at its first character, before the scan.
pub open spec fn scan_at(s: Seq<char>, i: int) -> Scan {
    let j = skip_ws_from(s, i);
    let loc = loc_after(s.take(j));
    if j == s.len() {
        Scan::Token { token: TokenV { location: loc, kind: TokenKindV::EndOfFile }, end: j }
    } else if is_digit_char(s[j]) {
        Scan::Token {
            token: TokenV {
                location: loc,
                kind: TokenKindV::Integer { value: num_value(s, j), radix: 10u8 },
            },
            end: num_end(s, j),
        }
    } else if is_word_char(s[j]) {
        Scan::Token {
            token: TokenV {
                location: loc,
                kind: TokenKindV::Identifier { text: s.subrange(j, word_end(s, j)) },
            },
            end: word_end(s, j),
        }
    } else if operator_for(s[j]) is Some {
        Scan::Token {
            token: TokenV {
                location: loc,
                kind: TokenKindV::Operator(operator_for(s[j]).unwrap()),
            },
            end: j + 1,
        }
    } else {
        Scan::Fault { location: loc, bad: s[j], after: j + 1 }
    }
}

// ---------------------------------------------------------------------------
// Facts about the scanning functions.
// ---------------------------------------------------------------------------
pub proof fn lemma_skip_ws_bounds(s: Seq<char>, i: int)
    requires
        0 <= i <= s.len(),
    ensures
        i <= skip_ws_from(s, i) <= s.len(),
        skip_ws_from(s, i) < s.len() ==> !is_space_char(s[skip_ws_from(s, i)]),
        forall|k: int| i <= k < skip_ws_from(s, i) ==> is_space_char(#[trigger] s[k]),
    decreases s.len() - i,
{
    if i < s.len() && is_space_char(s[i]) {
        lemma_skip_ws_bounds(s, i + 1);
    }
}

pub proof fn lemma_num_end_bounds(s: Seq<char>, i: int)
    requires
        0 <= i <= s.len(),
    ensures
        i <= num_end(s, i) <= s.len(),
        num_end(s, i) < s.len() ==> !is_num_char(s[num_end(s, i)]),
        forall|k: int| i <= k < num_end(s, i) ==> is_num_char(#[trigger] s[k]),
    decreases s.len() - i,
{
    if i < s.len() && is_num_char(s[i]) {
        lemma_num_end_bounds(s, i + 1);
    }
}

pub proof fn lemma_word_end_bounds(s: Seq<char>, i: int)
    requires
        0 <= i <= s.len(),
    ensures
        i <= word_end(s, i) <= s.len(),
        word_end(s, i) < s.len() ==> !is_word_char(s[word_end(s, i)]),
        forall|k: int| i <= k < word_end(s, i) ==> is_word_char(#[trigger] s[k]),
    decreases s.len() - i,
{
    if i < s.len() && is_word_char(s[i]) {
        lemma_word_end_bounds(s, i + 1);
    }
}

pub proof fn lemma_loc_after_bounds(s: Seq<char>)
    ensures
        1 <= loc_after(s).line <= s.len() + 1,
        1 <= loc_after(s).column <= s.len() + 1,
    decreases s.len(),
{
    if s.len() > 0 {
        lemma_loc_after_bounds(s.drop_last());
    }
}

/// Consuming one more character steps the coordinate by that character.
pub proof fn lemma_loc_after_snoc(s: Seq<char>, i: int)
    requires
        0 <= i < s.len(),
    ensures
        loc_after(s.take(i + 1)) == loc_step(loc_after(s.take(i)), s[i]),
{
    let t = s.take(i + 1);
    assert(t.drop_last() =~= s.take(i));
    assert(t.last() == s[i]);
}

/// Where the scan's result lies relative to its start: a scan never moves
/// backwards, stays within the text, ends exactly at the end of the text
/// for the sentinel, and consumes at least one character otherwise.
pub proof fn lemma_scan_bounds(s: Seq<char>, i: int)
    requires
        0 <= i <= s.len(),
    ensures
        scan_at(s, i) matches Scan::Token { token, end } ==> {
            &&& i <= end <= s.len()
            &&& token.kind is EndOfFile ==> end == s.len()
            &&& !(token.kind is EndOfFile) ==> i < end
        },
        scan_at(s, i) matches Scan::Fault { after, .. } ==> i < after <= s.len(),
{
    lemma_skip_ws_bounds(s, i);
    let j = skip_ws_from(s, i);
    if j < s.len() {
        if is_digit_char(s[j]) {
            lemma_num_end_bounds(s, j);
            assert(num_end(s, j) > j);
        } else if is_word_char(s[j]) {
            lemma_word_end_bounds(s, j);
            assert(word_end(s, j) > j);
        }
    }
}

proof fn lemma_num_end_all(s: Seq<char>, i: int)
    requires
        0 <= i <= s.len(),
        forall|k: int| i <= k < s.len() ==> is_num_char(#[trigger] s[k]),
    ensures
        num_end(s, i) == s.len(),
    decreases s.len() - i,
{
    if i < s.len() {
        lemma_num_end_all(s, i + 1);
    }
}

proof fn lemma_skip_ws_all(s: Seq<char>, i: int)
    requires
        0 <= i <= s.len(),
        forall|k: int| i <= k < s.len() ==> is_space_char(#[trigger] s[k]),
    ensures
        skip_ws_from(s, i) == s.len(),
    decreases s.len() - i,
{
    if i < s.len() {
        lemma_skip_ws_all(s, i + 1);
    }
}

/// Law: scanning a digit-and-separator sequence with a leading digit
/// yields an integer token whose text is the input with the separators
/// removed, located at its first character, consuming the whole sequence.
pub proof fn lemma_numeric_token(s: Seq<char>)
    requires
        s.len() > 0,
        is_digit_char(s[0]),
        forall|k: int| 0 <= k < s.len() ==> is_num_char(#[trigger] s[k]),
    ensures
        scan_at(s, 0) == (Scan::Token {
            token: TokenV {
                location: LocV { line: 1, column: 1 },
                kind: TokenKindV::Integer { value: strip_seps(s), radix: 10u8 },
            },
            end: s.len() as int,
        }),
{
    lemma_num_end_all(s, 0);
    assert(s.subrange(0, s.len() as int) =~= s);
    assert(s.take(0) =~= Seq::<char>::empty());
}

/// Law: whitespace-only input scans straight to the end-of-file sentinel,
/// with no fault.
pub proof fn lemma_whitespace_only_eof(s: Seq<char>)
    requires
        forall|k: int| 0 <= k < s.len() ==> is_space_char(#[trigger] s[k]),
    ensures
        scan_at(s, 0) matches Scan::Token { token, end } && token.kind is EndOfFile && end
            == s.len(),
{
    lemma_skip_ws_all(s, 0);
}

/// One coordinate lies at or before another: on an earlier line, or on the
/// same line at or before the same column.
pub open spec fn loc_le(a: LocV, b: LocV) -> bool {
    a.line < b.line || (a.line == b.line && a.column <= b.column)
}

/// Law: within one scan of a text, the (line, column) coordinate is
/// monotonically nondecreasing — a longer consumed prefix never lies
/// before a shorter one.
pub proof fn lemma_loc_after_monotone(s: Seq<char>, i: int, j: int)
    requires
        0 <= i <= j <= s.len(),
    ensures
        loc_le(loc_after(s.take(i)), loc_after(s.take(j))),
    decreases j - i,
{
    if i < j {
        lemma_loc_after_monotone(s, i, j - 1);
        lemma_loc_after_snoc(s, j - 1);
        lemma_loc_after_bounds(s.take(j - 1));
    }
}

proof fn lemma_strip_seps_keeps(t: Seq<char>, k: int)
    requires
        0 <= k < t.len(),
        t[k] != '_',
    ensures
        strip_seps(t).len() > 0,
    decreases t.len(),
{
    if t.last() == '_' {
        lemma_strip_seps_keeps(t.drop_last(), k);
    }
}

/// Law: every non-sentinel token has a nonempty lexeme — an integer
/// token's text keeps at least its leading digit, and an identifier
/// token's text holds at least one character.
pub proof fn lemma_token_lexeme_nonempty(s: Seq<char>, i: int)
    requires
        0 <= i <= s.len(),
    ensures
        scan_at(s, i) matches Scan::Token { token, .. } ==> {
            &&& token.kind matches TokenKindV::Integer { value, .. } ==> value.len() > 0
            &&& token.kind matches TokenKindV::Identifier { text } ==> text.len() > 0
        },
{
    lemma_skip_ws_bounds(s, i);
    let j = skip_ws_from(s, i);
    if j < s.len() {
        if is_digit_char(s[j]) {
            lemma_num_end_bounds(s, j);
            let t = s.subrange(j, num_end(s, j));
            assert(t[0] == s[j]);
            lemma_strip_seps_keeps(t, 0);
        } else if is_word_char(s[j]) {
            lemma_word_end_bounds(s, j);
        }
    }
}

// ---------------------------------------------------------------------------
// The faults the tokenizer can raise.
// ---------------------------------------------------------------------------
/// A character matched none of the lexical scanners. Carries the location
/// of the character and the character itself. The tokenizer does not skip
/// or resynchronize; the caller decides whether to continue past it.
#[derive(Clone, Copy, Debug, PartialEq)]
pub enum TokenizerError {
    UnknownToken(Location, char),
}

// ---------------------------------------------------------------------------
// The tokenizer.
// ---------------------------------------------------------------------------
/// Converts in-memory source text into a single-lookahead stream of located
/// tokens. `peek` and `next` produce tokens on demand; at most one
/// produced-but-unconsumed token is buffered, so `peek` never re-scans.
pub struct Tokenizer {
    /// The source text.
    pub source: Vec<char>,
    /// How many characters have been consumed.
    pub pos: usize,
    /// The buffer of at most one produced-but-unconsumed token.
    pub queue: Option<Token>,
    /// Current location (line, column) in the stream.
    pub location: Location,
    /// Where the scan of the buffered token began.
    pub scan_start: Ghost<int>,
}

impl Tokenizer {
    /// The source text, as the model sees it.
    pub open spec fn src(&self) -> Seq<char> {
        self.source@
    }

    /// The position the next scan starts from: the start of the buffered
    /// token if one is held, else the consumed prefix.
    pub open spec fn cur(&self) -> int {
        if self.queue is Some {
            self.scan_start@
        } else {
            self.pos as int
        }
    }

    /// Internal consistency: the consumed prefix lies within the text, the
    /// stored location is the coordinate reached after that prefix, and a
    /// buffered token is exactly what a scan from its recorded start yields,
    /// with the prefix ending just past it.
    pub open spec fn wf(&self) -> bool {
        &&& self.pos <= self.src().len()
        &&& self.src().len() < usize::MAX
        &&& self.location@ == loc_after(self.src().take(self.pos as int))
        &&& self.queue matches Some(t) ==> {
            &&& 0 <= self.scan_start@ <= self.pos
            &&& scan_at(self.src(), self.scan_start@) == (Scan::Token {
                token: t@,
                end: self.pos as int,
            })
        }
    }

    pub fn new(source: Vec<char>) -> (r: Self)
        requires
            source@.len() < usize::MAX,
        ensures
            r.wf(),
            r.src() == source@,
            r.cur() == 0,
            r.pos == 0,
            r.queue is None,
            r.location@ == (LocV { line: 1, column: 1 }),
    {
        let r = Self {
            source,
            pos: 0,
            queue: None,
            location: Location::new(1, 1),
            scan_start: Ghost(0),
        };
        proof {
            assert(r.src().take(0) =~= Seq::<char>::empty());
        }
        r
    }

    /// The next unconsumed character, if any, without consuming it.
    fn peek_char(&self) -> (r: Option<char>)
        requires
            self.wf(),
        ensures
            match r {
                Some(c) => self.pos < self.src().len() && c == self.src()[self.pos as int],
                None => self.pos == self.src().len(),
            },
    {
        if self.pos < self.source.len() {
            Some(self.source[self.pos])
        } else {
            None
        }
    }

    /// Consumes one character, keeping the location in step: a newline
    /// starts the next line at column 1, anything else moves one column.
    fn next_char(&mut self) -> (r: Option<char>)
        requires
            old(self).wf(),
            old(self).queue is None,
        ensures
            final(self).wf(),
            final(self).queue is None,
            final(self).source == old(self).source,
            final(self).scan_start == old(self).scan_start,
            match r {
                Some(c) => {
                    &&& old(self).pos < old(self).src().len()
                    &&& c == old(self).src()[old(self).pos as int]
                    &&& final(self).pos == old(self).pos + 1
                },
                None => {
                    &&& old(self).pos == old(self).src().len()
                    &&& *final(self) == *old(self)
                },
            },
    {
        if self.pos < self.source.len() {
            let c = self.source[self.pos];
            proof {
                lemma_loc_after_bounds(self.src().take(self.pos as int));
                lemma_loc_after_snoc(self.src(), self.pos as int);
            }
            if c == '\n' {
                self.location.line += 1;
                self.location.column = 1;
            } else {
                self.location.column += 1;
            }
            self.pos += 1;
            Some(c)
        } else {
            None
        }
    }

    /// Consumes the run of whitespace in front of the next lexeme.
    fn consume_whitespace(&mut self)
        requires
            old(self).wf(),
            old(self).queue is None,
        ensures
            final(self).wf(),
            final(self).queue is None,
            final(self).source == old(self).source,
            final(self).scan_start == old(self).scan_start,
            final(self).pos as int == skip_ws_from(old(self).src(), old(self).pos as int),
    {
        loop
            invariant
                self.wf(),
                self.queue is None,
                self.source == old(self).source,
                self.scan_start == old(self).scan_start,
                old(self).pos <= self.pos,
                skip_ws_from(self.src(), self.pos as int) == skip_ws_from(
                    old(self).src(),
                    old(self).pos as int,
                ),
            ensures
                self.pos as int == skip_ws_from(old(self).src(), old(self).pos as int),
            decreases self.src().len() - self.pos,
        {
            match self.peek_char() {
                Some(c) => {
                    if is_space(c) {
                        self.next_char();
                    } else {
                        break ;
                    }
                },
                None => {
                    break ;
                },
            }
        }
    }

    /// Scans a numeric lexeme, if the current character is a digit: greedily
    /// consumes digits and `_` separators and stores the digit string with
    /// the separators removed, radix fixed at 10. Consumes nothing and
    /// yields `None` otherwise.
    fn scan_numeric(&mut self) -> (r: Option<TokenKind>)
        requires
            old(self).wf(),
            old(self).queue is None,
        ensures
            final(self).wf(),
            final(self).queue is None,
            final(self).source == old(self).source,
            final(self).scan_start == old(self).scan_start,
            ({
                let s = old(self).src();
                let i = old(self).pos as int;
                if i < s.len() && is_digit_char(s[i]) {
                    &&& r matches Some(k)
                    &&& k@ == (TokenKindV::Integer { value: num_value(s, i), radix: 10u8 })
                    &&& final(self).pos as int == num_end(s, i)
                } else {
                    &&& r is None
                    &&& *final(self) == *old(self)
                }
            }),
    {
        let ghost s = self.src();
        let ghost i0 = self.pos as int;
        match self.peek_char() {
            Some(c) => {
                if !is_digit(c) {
                    return None;
                }
            },
            None => {
                return None;
            },
        }
        let mut value: String = String::new();
        proof {
            assert(s.subrange(i0, i0) =~= Seq::<char>::empty());
        }
        loop
            invariant
                self.wf(),
                self.queue is None,
                self.source == old(self).source,
                self.scan_start == old(self).scan_start,
                s == self.src(),
                0 <= i0 <= self.pos as int <= s.len(),
                num_end(s, i0) == num_end(s, self.pos as int),
                value@ == strip_seps(s.subrange(i0, self.pos as int)),
            ensures
                self.pos as int == num_end(s, i0),
                value@ == strip_seps(s.subrange(i0, self.pos as int)),
            decreases s.len() - self.pos,
        {
            let ghost p = self.pos as int;
            match self.peek_char() {
                Some(c) => {
                    if is_digit(c) {
                        push_char(&mut value, c);
                        self.next_char();
                    } else if c == '_' {
                        self.next_char();
                    } else {
                        break ;
                    }
                    proof {
                        lemma_strip_seps_snoc(s, i0, p);
                    }
                },
                None => {
                    break ;
                },
            }
        }
        Some(TokenKind::Integer { value, radix: 10 })
    }

    /// Scans an identifier lexeme, if the current character is ASCII
    /// alphanumeric or `_`: greedily consumes that character class.
    /// Consumes nothing and yields `None` otherwise.
    fn scan_identifier(&mut self) -> (r: Option<TokenKind>)
        requires
            old(self).wf(),
            old(self).queue is None,
        ensures
            final(self).wf(),
            final(self).queue is None,
            final(self).source == old(self).source,
            final(self).scan_start == old(self).scan_start,
            ({
                let s = old(self).src();
                let i = old(self).pos as int;
                if i < s.len() && is_word_char(s[i]) {
                    &&& r matches Some(k)
                    &&& k@ == (TokenKindV::Identifier { text: s.subrange(i, word_end(s, i)) })
                    &&& final(self).pos as int == word_end(s, i)
                } else {
                    &&& r is None
                    &&& *final(self) == *old(self)
                }
            }),
    {
        let ghost s = self.src();
        let ghost i0 = self.pos as int;
        match self.peek_char() {
            Some(c) => {
                if !is_word(c) {
                    return None;
                }
            },
            None => {
                return None;
            },
        }
        let mut text: String = String::new();
        proof {
            assert(s.subrange(i0, i0) =~= Seq::<char>::empty());
        }
        loop
            invariant
                self.wf(),
                self.queue is None,
                self.source == old(self).source,
                self.scan_start == old(self).scan_start,
                s == self.src(),
                0 <= i0 <= self.pos as int <= s.len(),
                word_end(s, i0) == word_end(s, self.pos as int),
                text@ == s.subrange(i0, self.pos as int),
            ensures
                self.pos as int == word_end(s, i0),
                text@ == s.subrange(i0, self.pos as int),
            decreases s.len() - self.pos,
        {
            let ghost p = self.pos as int;
            match self.peek_char() {
                Some(c) => {
                    if is_word(c) {
                        push_char(&mut text, c);
                        self.next_char();
                        proof {
                            assert(s.subrange(i0, p + 1) =~= s.subrange(i0, p).push(s[p]));
                        }
                    } else {
                        break ;
                    }
                },
                None => {
                    break ;
                },
            }
        }
        Some(TokenKind::Identifier { text })
    }

    /// Scans a single-character operator lexeme, if the current character
    /// is one of `+ - * /`. Consumes nothing and yields `None` otherwise.
    fn scan_operator(&mut self) -> (r: Option<TokenKind>)
        requires
            old(self).wf(),
            old(self).queue is None,
        ensures
            final(self).wf(),
            final(self).queue is None,
            final(self).source == old(self).source,
            final(self).scan_start == old(self).scan_start,
            ({
                let s = old(self).src();
                let i = old(self).pos as int;
                if i < s.len() && operator_for(s[i]) is Some {
                    &&& r matches Some(k)
                    &&& k@ == TokenKindV::Operator(operator_for(s[i]).unwrap())
                    &&& final(self).pos == old(self).pos + 1
                } else {
                    &&& r is None
                    &&& *final(self) == *old(self)
                }
            }),
    {
        let c = match self.peek_char() {
            Some(c) => c,
            None => {
                return None;
            },
        };
        let op = match c {
            '+' => Operator::Plus,
            '-' => Operator::Minus,
            '*' => Operator::Star,
            '/' => Operator::Slash,
            _ => {
                return None;
            },
        };
        self.next_char();
        Some(TokenKind::Operator(op))
    }

    /// Produces the next token into the buffer: skip whitespace, then try
    /// the numeric, identifier, and operator scans in that order; at the
    /// end of the text the sentinel is buffered. A character matching no
    /// scanner is consumed and reported as an unknown-token fault.
    fn advance(&mut self) -> (r: Result<(), TokenizerError>)
        requires
            old(self).wf(),
            old(self).queue is None,
        ensures
            final(self).wf(),
            final(self).source == old(self).source,
            match r {
                Ok(()) => {
                    &&& final(self).queue matches Some(t)
                    &&& scan_at(old(self).src(), old(self).pos as int) == (Scan::Token {
                        token: t@,
                        end: final(self).pos as int,
                    })
                    &&& final(self).cur() == old(self).pos
                },
                Err(TokenizerError::UnknownToken(l, c)) => {
                    &&& final(self).queue is None
                    &&& scan_at(old(self).src(), old(self).pos as int) == (Scan::Fault {
                        location: l@,
                        bad: c,
                        after: final(self).pos as int,
                    })
                },
            },
    {
        let ghost s = self.src();
        let ghost i0 = self.pos as int;
        self.consume_whitespace();
        proof {
            lemma_skip_ws_bounds(s, i0);
        }
        let ghost j = self.pos as int;
        let location = self.location;
        let kind = if let Some(kind) = self.scan_numeric() {
            proof {
                lemma_num_end_bounds(s, j);
            }
            kind
        } else if let Some(kind) = self.scan_identifier() {
            proof {
                lemma_word_end_bounds(s, j);
            }
            kind
        } else if let Some(kind) = self.scan_operator() {
            kind
        } else if let Some(ch) = self.next_char() {
            return Err(TokenizerError::UnknownToken(location, ch));
        } else {
            TokenKind::EndOfFile
        };
        self.scan_start = Ghost(i0);
        self.queue = Some(Token::new(location, kind));
        proof {
            assert(scan_at(s, i0) == (Scan::Token {
                token: TokenV { location: location@, kind: kind@ },
                end: self.pos as int,
            }));
        }
        Ok(())
    }

    /// Returns the next token without consuming it. Repeated calls without
    /// an intervening `next` return the identical buffered token and leave
    /// the tokenizer untouched. At the end of input it returns the
    /// `EndOfFile` sentinel forever.
    pub fn peek(&mut self) -> (r: Result<Token, TokenizerError>)
        requires
            old(self).wf(),
        ensures
            final(self).wf(),
            final(self).source == old(self).source,
            match r {
                Ok(t) => {
                    &&& scan_at(old(self).src(), old(self).cur()) matches Scan::Token {
                        token,
                        end,
                    } && token == t@ && end == final(self).pos as int
                    &&& final(self).queue == Some(t)
                    &&& final(self).cur() == old(self).cur()
                    &&& old(self).queue matches Some(q) ==> *final(self) == *old(self) && t == q
                },
                Err(TokenizerError::UnknownToken(l, c)) => {
                    &&& final(self).queue is None
                    &&& scan_at(old(self).src(), old(self).cur()) == (Scan::Fault {
                        location: l@,
                        bad: c,
                        after: final(self).pos as int,
                    })
                },
            },
    {
        if self.queue.is_none() {
            self.advance()?;
        }
        match &self.queue {
            Some(token) => Ok(token.clone()),
            None => {
                // advance always buffers a token (the sentinel at the end of
                // the text), so this arm is unreachable; return the sentinel
                // to keep the function total.
                Ok(Token::new(self.location, TokenKind::EndOfFile))
            },
        }
    }

    /// Returns and consumes the next token, advancing the position. At the
    /// end of input it returns the `EndOfFile` sentinel forever.
    pub fn next(&mut self) -> (r: Result<Token, TokenizerError>)
        requires
            old(self).wf(),
        ensures
            final(self).wf(),
            final(self).source == old(self).source,
            match r {
                Ok(t) => {
                    &&& final(self).queue is None
                    &&& scan_at(old(self).src(), old(self).cur()) == (Scan::Token {
                        token: t@,
                        end: final(self).cur(),
                    })
                    &&& old(self).queue matches Some(q) ==> t == q
                },
                Err(TokenizerError::UnknownToken(l, c)) => {
                    &&& final(self).queue is None
                    &&& scan_at(old(self).src(), old(self).cur()) == (Scan::Fault {
                        location: l@,
                        bad: c,
                        after: final(self).cur(),
                    })
                },
            },
    {
        if self.queue.is_none() {
            self.advance()?;
        }
        match self.queue.take() {
            Some(token) => Ok(token),
            None => {
                // advance always buffers a token (the sentinel at the end of
                // the text), so this arm is unreachable; return the sentinel
                // to keep the function total.
                Ok(Token::new(self.location, TokenKind::EndOfFile))
            },
        }
    }
}

// ---------------------------------------------------------------------------
// Executable character classes.
// ---------------------------------------------------------------------------
fn is_space(c: char) -> (r: bool)
    ensures
        r == is_space_char(c),
{
    c == ' ' || c == '\t' || c == '\n' || c == '\r' || c == '\x0c'
}

fn is_digit(c: char) -> (r: bool)
    ensures
        r == is_digit_char(c),
{
    let u = c as u32;
    48 <= u && u <= 57
}

fn is_word(c: char) -> (r: bool)
    ensures
        r == is_word_char(c),
{
    let u = c as u32;
    (48 <= u && u <= 57) || (65 <= u && u <= 90) || (97 <= u && u <= 122) || c == '_'
}

/// Stepping the consumed prefix by one number-class character keeps the
/// stripped value in step.
proof fn lemma_strip_seps_snoc(s: Seq<char>, i: int, p: int)
    requires
        0 <= i <= p < s.len(),
    ensures
        strip_seps(s.subrange(i, p + 1)) == if s[p] == '_' {
            strip_seps(s.subrange(i, p))
        } else {
            strip_seps(s.subrange(i, p)).push(s[p])
        },
{
    let t = s.subrange(i, p + 1);
    assert(t.drop_last() =~= s.subrange(i, p));
    assert(t.last() == s[p]);
}

} // verus!
