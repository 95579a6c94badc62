//! The scanner: source text to positioned tokens, one at a time.
use vstd::prelude::*;

use crate::number::{fits, Ratio};
use crate::Position;

verus! {

/// A name in the source, as the range `start..end` of character offsets.
#[derive(Clone, Copy, Debug, PartialEq, Eq, Structural)]
pub struct Ident {
    pub start: usize,
    pub end: usize,
}

#[derive(Clone, Copy, Debug, PartialEq, Eq, Structural)]
pub enum Token {
    /// A character or literal that no token starts with.
    Error,
    Name(Ident),
    Number(Ratio),
    Plus,
    Minus,
    Star,
    Slash,
    Caret,
    Equal,
    Comma,
    LParen,
    RParen,
    /// The derivative marker `'`.
    Prime,
    Newline,
}

pub open spec fn is_blank(c: char) -> bool {
    c == ' ' || c == '\t'
}

pub open spec fn is_digit(c: char) -> bool {
    '0' <= c && c <= '9'
}

pub open spec fn is_alpha(c: char) -> bool {
    ('a' <= c && c <= 'z') || ('A' <= c && c <= 'Z')
}

pub open spec fn is_name_char(c: char) -> bool {
    is_alpha(c) || is_digit(c) || c == '_'
}

pub open spec fn digit_value(c: char) -> int {
    c as int - '0' as int
}

/// The first offset at or after `i` that does not hold a blank.
pub open spec fn skip_blanks(s: Seq<char>, i: int) -> int
    decreases s.len() - i,
{
    if 0 <= i < s.len() && is_blank(s[i]) {
        skip_blanks(s, i + 1)
    } else {
        i
    }
}

/// The first offset at or after `i` that does not hold a digit.
pub open spec fn digits_end(s: Seq<char>, i: int) -> int
    decreases s.len() - i,
{
    if 0 <= i < s.len() && is_digit(s[i]) {
        digits_end(s, i + 1)
    } else {
        i
    }
}

/// The first offset at or after `i` that does not hold a name character.
pub open spec fn name_end(s: Seq<char>, i: int) -> int
    decreases s.len() - i,
{
    if 0 <= i < s.len() && is_name_char(s[i]) {
        name_end(s, i + 1)
    } else {
        i
    }
}

/// The end of a numeric literal that starts with a digit at `start`:
/// digits, then optionally a point and more digits.
pub open spec fn number_end(s: Seq<char>, start: int) -> int {
    let j = digits_end(s, start + 1);
    if j < s.len() && s[j] == '.' {
        digits_end(s, j + 1)
    } else {
        j
    }
}

/// The digits of `s[a..b]` read as one decimal integer, points left out.
pub open spec fn mantissa(s: Seq<char>, a: int, b: int) -> int
    decreases b - a,
{
    if b <= a {
        0
    } else if s[b - 1] == '.' {
        mantissa(s, a, b - 1)
    } else {
        mantissa(s, a, b - 1) * 10 + digit_value(s[b - 1])
    }
}

pub open spec fn pow10(k: nat) -> int
    decreases k,
{
    if k == 0 {
        1
    } else {
        10 * pow10((k - 1) as nat)
    }
}

/// How many digits of the literal `s[start..end]` follow its point.
pub open spec fn fraction_len(s: Seq<char>, start: int, end: int) -> nat {
    let j = digits_end(s, start + 1);
    if j < end {
        (end - j - 1) as nat
    } else {
        0
    }
}

/// The token of the literal `s[start..end]`: its exact value, or `Error`
/// where the digits or the scale do not fit in 64 bits.
pub open spec fn number_token(s: Seq<char>, start: int, end: int) -> Token {
    let m = mantissa(s, start, end);
    let d = pow10(fraction_len(s, start, end));
    if fits(m) && fits(d) {
        Token::Number(Ratio { num: m as i64, den: d as i64 })
    } else {
        Token::Error
    }
}

/// The token that starts at offset `j < s.len()`, and the offset after it.
pub open spec fn token_at(s: Seq<char>, j: int) -> (Token, int) {
    let c = s[j];
    if c == '\n' {
        (Token::Newline, j + 1)
    } else if c == '+' {
        (Token::Plus, j + 1)
    } else if c == '-' {
        (Token::Minus, j + 1)
    } else if c == '*' {
        (Token::Star, j + 1)
    } else if c == '/' {
        (Token::Slash, j + 1)
    } else if c == '^' {
        (Token::Caret, j + 1)
    } else if c == '=' {
        (Token::Equal, j + 1)
    } else if c == ',' {
        (Token::Comma, j + 1)
    } else if c == '(' {
        (Token::LParen, j + 1)
    } else if c == ')' {
        (Token::RParen, j + 1)
    } else if c == '\'' {
        (Token::Prime, j + 1)
    } else if is_digit(c) {
        (number_token(s, j, number_end(s, j)), number_end(s, j))
    } else if is_alpha(c) {
        (Token::Name(Ident { start: j as usize, end: name_end(s, j + 1) as usize }), name_end(s, j + 1))
    } else {
        (Token::Error, j + 1)
    }
}

/// How many newlines `s[0..i]` holds.
pub open spec fn newlines(s: Seq<char>, i: int) -> int
    decreases i,
{
    if i <= 0 {
        0
    } else if s[i - 1] == '\n' {
        newlines(s, i - 1) + 1
    } else {
        newlines(s, i - 1)
    }
}

/// The offset at which the line holding offset `i` starts.
pub open spec fn line_start(s: Seq<char>, i: int) -> int
    decreases i,
{
    if i <= 0 {
        0
    } else if s[i - 1] == '\n' {
        i
    } else {
        line_start(s, i - 1)
    }
}

/// The position of offset `i`: lines and columns count from 1.
pub open spec fn position_at(s: Seq<char>, i: int) -> Position {
    Position {
        pos: i as usize,
        line: (newlines(s, i) + 1) as usize,
        col: (i - line_start(s, i) + 1) as usize,
    }
}

/// The next token at or after offset `i`, with its position and the offset after it.
pub open spec fn scan(s: Seq<char>, i: int) -> Option<(Position, Token, int)> {
    let j = skip_blanks(s, i);
    if j >= s.len() {
        None
    } else {
        Some((position_at(s, j), token_at(s, j).0, token_at(s, j).1))
    }
}

/// Every token from offset `i` on.
pub open spec fn tokens_from(s: Seq<char>, i: int) -> Seq<(Position, Token)>
    decreases s.len() - i,
{
    match scan(s, i) {
        None => seq![],
        Some((p, t, e)) => if i < e <= s.len() {
            seq![(p, t)] + tokens_from(s, e)
        } else {
            seq![]
        },
    }
}

proof fn lemma_newlines_bound(s: Seq<char>, i: int)
    requires
        0 <= i <= s.len(),
    ensures
        0 <= newlines(s, i) <= i,
        0 <= line_start(s, i) <= i,
    decreases i,
{
    if i > 0 {
        lemma_newlines_bound(s, i - 1);
    }
}

proof fn lemma_skip_blanks(s: Seq<char>, i: int)
    requires
        0 <= i <= s.len(),
    ensures
        i <= skip_blanks(s, i) <= s.len(),
    decreases s.len() - i,
{
    if i < s.len() && is_blank(s[i]) {
        lemma_skip_blanks(s, i + 1);
    }
}

proof fn lemma_runs(s: Seq<char>, i: int)
    requires
        0 <= i <= s.len(),
    ensures
        i <= digits_end(s, i) <= s.len(),
        i <= name_end(s, i) <= s.len(),
    decreases s.len() - i,
{
    if i < s.len() {
        lemma_runs(s, i + 1);
    }
}

/// Scanning always moves forward and stays within the source.
pub proof fn lemma_scan_advances(s: Seq<char>, i: int)
    requires
        0 <= i <= s.len(),
    ensures
        scan(s, i) matches Some((p, t, e)) ==> i < e <= s.len(),
{
    lemma_skip_blanks(s, i);
    let j = skip_blanks(s, i);
    if j < s.len() {
        lemma_runs(s, j + 1);
        let d = digits_end(s, j + 1);
        if d < s.len() {
            lemma_runs(s, d + 1);
        }
    }
}

proof fn lemma_mantissa_nonneg(s: Seq<char>, a: int, b: int)
    requires
        a <= b,
        forall|k: int| a <= k < b ==> is_digit(#[trigger] s[k]) || s[k] == '.',
    ensures
        0 <= mantissa(s, a, b),
    decreases b - a,
{
    if a < b {
        lemma_mantissa_nonneg(s, a, b - 1);
    }
}

pub proof fn lemma_pow10_positive(k: nat)
    ensures
        pow10(k) >= 1,
    decreases k,
{
    if k > 0 {
        lemma_pow10_positive((k - 1) as nat);
    }
}

/// Produces the tokens of a source one at a time.
pub struct Scanner {
    chars: Vec<char>,
    idx: usize,
    newlines: usize,
    line_start: usize,
}

impl Scanner {
    pub closed spec fn source(&self) -> Seq<char> {
        self.chars@
    }

    /// The offset of the next character to read.
    pub closed spec fn offset(&self) -> int {
        self.idx as int
    }

    pub closed spec fn wf(&self) -> bool {
        &&& self.idx <= self.chars.len()
        &&& self.newlines == newlines(self.chars@, self.idx as int)
        &&& self.line_start == line_start(self.chars@, self.idx as int)
    }

    pub fn new(src: &str) -> (r: Scanner)
        ensures
            r.wf(),
            r.source() == src@,
            r.offset() == 0,
    {
        Scanner { chars: chars_of(src), idx: 0, newlines: 0, line_start: 0 }
    }

    /// Steps over one character, keeping the line count.
    fn advance(&mut self)
        requires
            old(self).wf(),
            old(self).idx < old(self).chars.len(),
        ensures
            final(self).wf(),
            final(self).chars == old(self).chars,
            final(self).idx == old(self).idx + 1,
    {
        proof {
            lemma_newlines_bound(self.chars@, self.idx as int);
        }
        if self.chars[self.idx] == '\n' {
            self.newlines = self.newlines + 1;
            self.idx = self.idx + 1;
            self.line_start = self.idx;
        } else {
            self.idx = self.idx + 1;
        }
    }

    fn here(&self) -> (r: Position)
        requires
            self.wf(),
            self.idx < self.chars.len(),
        ensures
            r == position_at(self.chars@, self.idx as int),
    {
        proof {
            lemma_newlines_bound(self.chars@, self.idx as int);
        }
        Position { pos: self.idx, line: self.newlines + 1, col: self.idx - self.line_start + 1 }
    }

    fn next_number(&mut self, start: usize) -> (r: Token)
        requires
            old(self).wf(),
            start < old(self).idx <= old(self).chars.len(),
            old(self).idx == start + 1,
            is_digit(old(self).chars@[start as int]),
        ensures
            final(self).wf(),
            final(self).chars@ == old(self).chars@,
            final(self).idx == number_end(old(self).chars@, start as int),
            r == number_token(old(self).chars@, start as int, final(self).idx as int),
    {
        let ghost s = self.chars@;
        let mut m: i64 = (self.chars[start] as u32 - '0' as u32) as i64;
        let mut m_ok = true;
        let mut d: i64 = 1;
        let mut d_ok = true;
        assert(mantissa(s, start as int, start as int + 1) == digit_value(s[start as int])) by {
            assert(mantissa(s, start as int, start as int) == 0);
        }
        while self.idx < self.chars.len() && self.chars[self.idx] >= '0' && self.chars[self.idx] <= '9'
            invariant
                self.wf(),
                self.chars@ == s,
                start < self.idx <= s.len(),
                digits_end(s, start as int + 1) == digits_end(s, self.idx as int),
                forall|k: int| start <= k < self.idx ==> is_digit(#[trigger] s[k]) || s[k] == '.',
                m_ok ==> m == mantissa(s, start as int, self.idx as int),
                !m_ok ==> !fits(mantissa(s, start as int, self.idx as int)),
            decreases s.len() - self.idx,
        {
            proof {
                lemma_mantissa_nonneg(s, start as int, self.idx as int);
            }
            self.push_digit(&mut m, &mut m_ok);
            self.advance();
        }
        let ghost j = self.idx as int;
        if self.idx < self.chars.len() && self.chars[self.idx] == '.' {
            assert(mantissa(s, start as int, j + 1) == mantissa(s, start as int, j));
            self.advance();
            while self.idx < self.chars.len() && self.chars[self.idx] >= '0' && self.chars[self.idx] <= '9'
                invariant
                    self.wf(),
                    self.chars@ == s,
                    start < j < self.idx <= s.len(),
                    j == digits_end(s, start as int + 1),
                    s[j] == '.',
                    digits_end(s, j + 1) == digits_end(s, self.idx as int),
                    forall|k: int| start <= k < self.idx ==> is_digit(#[trigger] s[k]) || s[k] == '.',
                    m_ok ==> m == mantissa(s, start as int, self.idx as int),
                    !m_ok ==> !fits(mantissa(s, start as int, self.idx as int)),
                    d_ok ==> d == pow10((self.idx - j - 1) as nat),
                    !d_ok ==> !fits(pow10((self.idx - j - 1) as nat)),
                decreases s.len() - self.idx,
            {
                proof {
                    lemma_mantissa_nonneg(s, start as int, self.idx as int);
                    lemma_pow10_positive((self.idx - j - 1) as nat);
                    assert(pow10((self.idx + 1 - j - 1) as nat) == 10 * pow10((self.idx - j - 1) as nat));
                }
                self.push_digit(&mut m, &mut m_ok);
                if d_ok {
                    match d.checked_mul(10) {
                        Some(e) => { d = e; },
                        None => { d_ok = false; },
                    }
                }
                self.advance();
            }
        }
        if m_ok && d_ok {
            Token::Number(Ratio { num: m, den: d })
        } else {
            Token::Error
        }
    }

    /// Takes the digit at the current offset into the mantissa `m`, or marks
    /// it as too large.
    fn push_digit(&self, m: &mut i64, ok: &mut bool)
        requires
            self.wf(),
            self.idx < self.chars.len(),
            is_digit(self.chars@[self.idx as int]),
            *old(ok) ==> 0 <= *old(m),
        ensures
            *old(ok) && fits(*old(m) * 10 + digit_value(self.chars@[self.idx as int])) ==> *final(ok)
                && *final(m) == *old(m) * 10 + digit_value(self.chars@[self.idx as int]),
            !(*old(ok) && fits(*old(m) * 10 + digit_value(self.chars@[self.idx as int])))
                ==> !*final(ok),
    {
        if *ok {
            let v = (self.chars[self.idx] as u32 - '0' as u32) as i64;
            match m.checked_mul(10) {
                Some(t) => match t.checked_add(v) {
                    Some(u) => { *m = u; },
                    None => { *ok = false; },
                },
                None => { *ok = false; },
            }
        }
    }

    fn next_name(&mut self, start: usize) -> (r: Token)
        requires
            old(self).wf(),
            old(self).idx == start + 1,
            start < old(self).chars.len(),
        ensures
            final(self).wf(),
            final(self).chars@ == old(self).chars@,
            final(self).idx == name_end(old(self).chars@, start as int + 1),
            r == Token::Name(Ident { start, end: final(self).idx }),
    {
        let ghost s = self.chars@;
        while self.idx < self.chars.len() && is_name_char_exec(self.chars[self.idx])
            invariant
                self.wf(),
                self.chars@ == s,
                start < self.idx <= s.len(),
                name_end(s, start as int + 1) == name_end(s, self.idx as int),
            decreases s.len() - self.idx,
        {
            self.advance();
        }
        Token::Name(Ident { start, end: self.idx })
    }

    /// The next token with its position, or `None` at the end of the source.
    pub fn next_token(&mut self) -> (r: Option<(Position, Token)>)
        requires
            old(self).wf(),
        ensures
            final(self).wf(),
            final(self).source() == old(self).source(),
            match scan(old(self).source(), old(self).offset()) {
                None => r is None,
                Some((p, t, e)) => r == Some((p, t)) && final(self).offset() == e,
            },
    {
        let ghost s = self.chars@;
        while self.idx < self.chars.len() && (self.chars[self.idx] == ' ' || self.chars[self.idx] == '\t')
            invariant
                self.wf(),
                self.chars@ == s,
                old(self).idx <= self.idx <= s.len(),
                skip_blanks(s, old(self).idx as int) == skip_blanks(s, self.idx as int),
            decreases s.len() - self.idx,
        {
            self.advance();
        }
        if self.idx >= self.chars.len() {
            return None;
        }
        let start = self.idx;
        let pos = self.here();
        let c = self.chars[self.idx];
        self.advance();
        let tok = if c == '\n' {
            Token::Newline
        } else if c == '+' {
            Token::Plus
        } else if c == '-' {
            Token::Minus
        } else if c == '*' {
            Token::Star
        } else if c == '/' {
            Token::Slash
        } else if c == '^' {
            Token::Caret
        } else if c == '=' {
            Token::Equal
        } else if c == ',' {
            Token::Comma
        } else if c == '(' {
            Token::LParen
        } else if c == ')' {
            Token::RParen
        } else if c == '\'' {
            Token::Prime
        } else if '0' <= c && c <= '9' {
            self.next_number(start)
        } else if ('a' <= c && c <= 'z') || ('A' <= c && c <= 'Z') {
            self.next_name(start)
        } else {
            Token::Error
        };
        Some((pos, tok))
    }
}

/// The characters of a text.
pub fn chars_of(src: &str) -> (r: Vec<char>)
    ensures
        r@ == src@,
{
    let n = src.unicode_len();
    let mut chars: Vec<char> = Vec::new();
    let mut i: usize = 0;
    while i < n
        invariant
            n == src@.len(),
            i <= n,
            chars@ == src@.subrange(0, i as int),
        decreases n - i,
    {
        chars.push(src.get_char(i));
        i = i + 1;
    }
    assert(chars@ == src@);
    chars
}

fn is_name_char_exec(c: char) -> (r: bool)
    ensures
        r == is_name_char(c),
{
    ('a' <= c && c <= 'z') || ('A' <= c && c <= 'Z') || ('0' <= c && c <= '9') || c == '_'
}

/// Every token of a source, in order.
pub fn tokenize(src: &str) -> (r: Vec<(Position, Token)>)
    ensures
        r@ == tokens_from(src@, 0),
{
    let mut sc = Scanner::new(src);
    let mut out: Vec<(Position, Token)> = Vec::new();
    loop
        invariant
            sc.wf(),
            sc.source() == src@,
            0 <= sc.offset() <= src@.len(),
            out@ + tokens_from(src@, sc.offset()) == tokens_from(src@, 0),
        decreases src@.len() - sc.offset(),
    {
        let ghost i = sc.offset();
        proof {
            lemma_scan_advances(src@, i);
        }
        match sc.next_token() {
            None => {
                assert(tokens_from(src@, i) == Seq::<(Position, Token)>::empty());
                assert(out@ + tokens_from(src@, i) == out@);
                return out;
            },
            Some(pt) => {
                let ghost e = sc.offset();
                assert(tokens_from(src@, i) == seq![pt] + tokens_from(src@, e));
                let ghost before = out@;
                out.push(pt);
                assert(out@ + tokens_from(src@, e) == before + tokens_from(src@, i)) by {
                    assert(out@ == before.push(pt));
                }
            },
        }
    }
}

} // verus!
