use vstd::prelude::*;
use vstd::slice::slice_to_vec;
use vstd::utf8::encode_utf8;

use crate::token::{Token, TokenKind};

verus! {

// ---------------------------------------------------------------------------
// Byte classes
// ---------------------------------------------------------------------------

/// Space, tab, newline or carriage return.
pub open spec fn is_whitespace(b: u8) -> bool {
    b == 32 || b == 9 || b == 10 || b == 13
}

/// An ASCII letter or an underscore: a byte that may start an identifier.
pub open spec fn is_letter(b: u8) -> bool {
    (97 <= b && b <= 122) || (65 <= b && b <= 90) || b == 95
}

/// An ASCII decimal digit.
pub open spec fn is_digit(b: u8) -> bool {
    48 <= b && b <= 57
}

/// A byte that may continue an identifier.
pub open spec fn is_word_byte(b: u8) -> bool {
    is_letter(b) || is_digit(b)
}

fn is_whitespace_byte(b: u8) -> (r: bool)
    ensures
        r == is_whitespace(b),
{
    b == 32 || b == 9 || b == 10 || b == 13
}

fn is_letter_byte(b: u8) -> (r: bool)
    ensures
        r == is_letter(b),
{
    (97 <= b && b <= 122) || (65 <= b && b <= 90) || b == 95
}

fn is_digit_byte(b: u8) -> (r: bool)
    ensures
        r == is_digit(b),
{
    48 <= b && b <= 57
}

// ---------------------------------------------------------------------------
// The scanning model: where each token starts and ends, and what it is
// ---------------------------------------------------------------------------

/// The byte at `p`, or 0 past either end of the input.
pub open spec fn byte_at(s: Seq<u8>, p: int) -> u8 {
    if 0 <= p < s.len() {
        s[p]
    } else {
        0
    }
}

/// The text of a run of bytes, one char per byte.
pub open spec fn as_chars(s: Seq<u8>) -> Seq<char> {
    s.map_values(|b: u8| b as char)
}

/// The input with every whitespace byte removed.
pub open spec fn strip_whitespace(s: Seq<u8>) -> Seq<u8> {
    s.filter(|b: u8| !is_whitespace(b))
}

/// The first position at or after `p` that does not hold whitespace.
pub open spec fn skip_whitespace(s: Seq<u8>, p: int) -> int
    decreases s.len() - p,
{
    if 0 <= p < s.len() && is_whitespace(s[p]) {
        skip_whitespace(s, p + 1)
    } else {
        p
    }
}

/// The end of the maximal run of identifier bytes that starts at `p`.
pub open spec fn word_end(s: Seq<u8>, p: int) -> int
    decreases s.len() - p,
{
    if 0 <= p < s.len() && is_word_byte(s[p]) {
        word_end(s, p + 1)
    } else {
        p
    }
}

/// The end of the maximal run of digits that starts at `p`.
pub open spec fn digits_end(s: Seq<u8>, p: int) -> int
    decreases s.len() - p,
{
    if 0 <= p < s.len() && is_digit(s[p]) {
        digits_end(s, p + 1)
    } else {
        p
    }
}

/// The keyword spelled by a word, or `Identifier` if it is none.
pub open spec fn keyword_kind(w: Seq<u8>) -> TokenKind {
    if w == seq![102u8, 110u8] {
        TokenKind::Function
    } else if w == seq![108u8, 101u8, 116u8] {
        TokenKind::Let
    } else if w == seq![116u8, 114u8, 117u8, 101u8] {
        TokenKind::True
    } else if w == seq![102u8, 97u8, 108u8, 115u8, 101u8] {
        TokenKind::False
    } else if w == seq![105u8, 102u8] {
        TokenKind::If
    } else if w == seq![101u8, 108u8, 115u8, 101u8] {
        TokenKind::Else
    } else if w == seq![114u8, 101u8, 116u8, 117u8, 114u8, 110u8] {
        TokenKind::Return
    } else {
        TokenKind::Identifier
    }
}

/// The kind of an operator or delimiter that starts with byte `b` and is
/// followed by byte `next`; `Illegal` for a byte that starts none.
pub open spec fn symbol_kind(b: u8, next: u8) -> TokenKind {
    if b == 61 {
        if next == 61 {
            TokenKind::Eq
        } else {
            TokenKind::Assign
        }
    } else if b == 33 {
        if next == 61 {
            TokenKind::NotEq
        } else {
            TokenKind::Bang
        }
    } else if b == 60 {
        TokenKind::Lt
    } else if b == 62 {
        TokenKind::Gt
    } else if b == 43 {
        TokenKind::Plus
    } else if b == 45 {
        TokenKind::Minus
    } else if b == 42 {
        TokenKind::Asterisk
    } else if b == 47 {
        TokenKind::Slash
    } else if b == 44 {
        TokenKind::Comma
    } else if b == 59 {
        TokenKind::Semicolon
    } else if b == 40 {
        TokenKind::Lparen
    } else if b == 41 {
        TokenKind::Rparen
    } else if b == 123 {
        TokenKind::Lbrace
    } else if b == 125 {
        TokenKind::Rbrace
    } else {
        TokenKind::Illegal
    }
}

/// The number of bytes of an operator, delimiter or illegal byte: two for
/// `==` and `!=`, one for everything else.
pub open spec fn symbol_len(b: u8, next: u8) -> int {
    if (b == 61 || b == 33) && next == 61 {
        2
    } else {
        1
    }
}

/// Where the token that starts at `start` ends (`start` itself at the end).
pub open spec fn token_end(s: Seq<u8>, start: int) -> int {
    if !(0 <= start < s.len()) {
        start
    } else if is_letter(s[start]) {
        word_end(s, start)
    } else if is_digit(s[start]) {
        digits_end(s, start)
    } else {
        start + symbol_len(s[start], byte_at(s, start + 1))
    }
}

/// The kind of the token that starts at `start`.
pub open spec fn token_kind(s: Seq<u8>, start: int) -> TokenKind {
    if !(0 <= start < s.len()) {
        TokenKind::EndOfInput
    } else if is_letter(s[start]) {
        keyword_kind(s.subrange(start, word_end(s, start)))
    } else if is_digit(s[start]) {
        TokenKind::Integer
    } else {
        symbol_kind(s[start], byte_at(s, start + 1))
    }
}

/// The kind of the token that a scan from cursor `p` returns.
pub open spec fn kind_at(s: Seq<u8>, p: int) -> TokenKind {
    token_kind(s, skip_whitespace(s, p))
}

/// Where the cursor stands after a scan from cursor `p`.
pub open spec fn advance(s: Seq<u8>, p: int) -> int {
    token_end(s, skip_whitespace(s, p))
}

/// The source bytes of the token that a scan from cursor `p` returns
/// (empty at the end of input).
pub open spec fn lexeme_at(s: Seq<u8>, p: int) -> Seq<u8> {
    s.subrange(skip_whitespace(s, p), advance(s, p))
}

/// Where the cursor stands after `n` scans from cursor `p`.
pub open spec fn advance_n(s: Seq<u8>, p: int, n: nat) -> int
    decreases n,
{
    if n == 0 {
        p
    } else {
        advance_n(s, advance(s, p), (n - 1) as nat)
    }
}

/// The number of scans from cursor `p` that return a token other than the end
/// of input before the end of input is reported.
pub open spec fn calls_to_end(s: Seq<u8>, p: int) -> nat
    decreases s.len() - p,
    via calls_to_end_decreases
{
    let start = skip_whitespace(s, p);
    if 0 <= start < s.len() {
        1 + calls_to_end(s, token_end(s, start))
    } else {
        0
    }
}

#[via_fn]
proof fn calls_to_end_decreases(s: Seq<u8>, p: int) {
    let start = skip_whitespace(s, p);
    if 0 <= start < s.len() {
        lemma_skip_whitespace(s, p);
        lemma_token_end(s, start);
    }
}

/// The source bytes of all tokens that scans from cursor `p` return, in order.
pub open spec fn lexemes_from(s: Seq<u8>, p: int) -> Seq<u8>
    decreases s.len() - p,
    via lexemes_from_decreases
{
    let start = skip_whitespace(s, p);
    if 0 <= start < s.len() {
        s.subrange(start, token_end(s, start)) + lexemes_from(s, token_end(s, start))
    } else {
        Seq::empty()
    }
}

#[via_fn]
proof fn lexemes_from_decreases(s: Seq<u8>, p: int) {
    let start = skip_whitespace(s, p);
    if 0 <= start < s.len() {
        lemma_skip_whitespace(s, p);
        lemma_token_end(s, start);
    }
}

// ---------------------------------------------------------------------------
// Facts about the model
// ---------------------------------------------------------------------------

proof fn lemma_skip_whitespace(s: Seq<u8>, p: int)
    ensures
        p <= skip_whitespace(s, p),
        0 <= p <= s.len() ==> skip_whitespace(s, p) <= s.len(),
        forall|i: int| p <= i < skip_whitespace(s, p) ==> is_whitespace(#[trigger] s[i]),
        0 <= skip_whitespace(s, p) < s.len() ==> !is_whitespace(s[skip_whitespace(s, p)]),
        !(0 <= p < s.len()) ==> skip_whitespace(s, p) == p,
    decreases s.len() - p,
{
    if 0 <= p < s.len() && is_whitespace(s[p]) {
        lemma_skip_whitespace(s, p + 1);
    }
}

proof fn lemma_word_end(s: Seq<u8>, p: int)
    requires
        0 <= p <= s.len(),
    ensures
        p <= word_end(s, p) <= s.len(),
        forall|i: int| p <= i < word_end(s, p) ==> is_word_byte(#[trigger] s[i]),
        word_end(s, p) < s.len() ==> !is_word_byte(s[word_end(s, p)]),
    decreases s.len() - p,
{
    if 0 <= p < s.len() && is_word_byte(s[p]) {
        lemma_word_end(s, p + 1);
    }
}

proof fn lemma_digits_end(s: Seq<u8>, p: int)
    requires
        0 <= p <= s.len(),
    ensures
        p <= digits_end(s, p) <= s.len(),
        forall|i: int| p <= i < digits_end(s, p) ==> is_digit(#[trigger] s[i]),
        digits_end(s, p) < s.len() ==> !is_digit(s[digits_end(s, p)]),
    decreases s.len() - p,
{
    if 0 <= p < s.len() && is_digit(s[p]) {
        lemma_digits_end(s, p + 1);
    }
}

/// A token that starts inside the input ends after its start and inside the input.
proof fn lemma_token_end(s: Seq<u8>, start: int)
    requires
        0 <= start < s.len(),
    ensures
        start < token_end(s, start) <= s.len(),
        !is_whitespace(s[start]) ==> forall|i: int|
            start <= i < token_end(s, start) ==> !is_whitespace(#[trigger] s[i]),
{
    lemma_word_end(s, start);
    lemma_digits_end(s, start);
    lemma_word_end(s, start + 1);
    lemma_digits_end(s, start + 1);
    if !is_letter(s[start]) && !is_digit(s[start]) && symbol_len(s[start], byte_at(s, start + 1)) == 2 {
        assert(start + 1 < s.len());
    }
}

proof fn lemma_strip_all_whitespace(x: Seq<u8>)
    requires
        forall|i: int| 0 <= i < x.len() ==> is_whitespace(#[trigger] x[i]),
    ensures
        strip_whitespace(x) == Seq::<u8>::empty(),
    decreases x.len(),
{
    reveal(Seq::filter);
    if x.len() > 0 {
        lemma_strip_all_whitespace(x.drop_last());
    }
}

proof fn lemma_strip_no_whitespace(x: Seq<u8>)
    requires
        forall|i: int| 0 <= i < x.len() ==> !is_whitespace(#[trigger] x[i]),
    ensures
        strip_whitespace(x) == x,
    decreases x.len(),
{
    reveal(Seq::filter);
    if x.len() > 0 {
        lemma_strip_no_whitespace(x.drop_last());
        assert(x.drop_last().push(x.last()) =~= x);
    }
}

proof fn lemma_stream_from(s: Seq<u8>, p: int)
    requires
        0 <= p <= s.len(),
    ensures
        calls_to_end(s, p) <= s.len() - p,
        kind_at(s, advance_n(s, p, calls_to_end(s, p))) == TokenKind::EndOfInput,
        forall|k: nat|
            k < calls_to_end(s, p) ==> kind_at(s, #[trigger] advance_n(s, p, k))
                != TokenKind::EndOfInput,
        lexemes_from(s, p) == strip_whitespace(s.subrange(p, s.len() as int)),
    decreases s.len() - p,
{
    broadcast use Seq::filter_distributes_over_add;

    lemma_skip_whitespace(s, p);
    let start = skip_whitespace(s, p);
    lemma_strip_all_whitespace(s.subrange(p, start));
    if start < s.len() {
        lemma_token_end(s, start);
        let e = token_end(s, start);
        lemma_stream_from(s, e);
        assert forall|k: nat| k < calls_to_end(s, p) implies kind_at(s, #[trigger] advance_n(s, p, k))
            != TokenKind::EndOfInput by {
            if k > 0 {
                assert(advance_n(s, p, k) == advance_n(s, e, (k - 1) as nat));
            }
        }
        assert(advance_n(s, p, calls_to_end(s, p)) == advance_n(s, e, calls_to_end(s, e)));
        lemma_strip_no_whitespace(s.subrange(start, e));
        assert(s.subrange(p, s.len() as int) =~= s.subrange(p, start) + (s.subrange(start, e)
            + s.subrange(e, s.len() as int)));
    } else {
        assert(s.subrange(p, s.len() as int) =~= s.subrange(p, start));
    }
}

/// Once a scan reports the end of input, every later scan reports it again,
/// with an empty text, and from the second such scan on the cursor stays at
/// the end of the input.
pub proof fn lemma_end_of_input_repeats(s: Seq<u8>, p: int, n: nat)
    requires
        0 <= p <= s.len(),
        kind_at(s, p) == TokenKind::EndOfInput,
    ensures
        kind_at(s, advance_n(s, p, n)) == TokenKind::EndOfInput,
        lexeme_at(s, advance_n(s, p, n)) == Seq::<u8>::empty(),
        n >= 1 ==> advance_n(s, p, n) == s.len(),
    decreases n,
{
    lemma_skip_whitespace(s, p);
    lemma_skip_whitespace(s, s.len() as int);
    assert(s.subrange(s.len() as int, s.len() as int) =~= Seq::<u8>::empty());
    if n > 0 {
        lemma_end_of_input_repeats(s, s.len() as int, (n - 1) as nat);
    }
}

/// Scanning any input from the start reports the end of input after at most
/// one token per byte: every scan before that returns some other token, and
/// the texts of those tokens, in order, spell the input with its whitespace
/// removed.
pub proof fn lemma_stream_spells_input(s: Seq<u8>)
    ensures
        calls_to_end(s, 0) <= s.len(),
        kind_at(s, advance_n(s, 0, calls_to_end(s, 0))) == TokenKind::EndOfInput,
        forall|k: nat|
            k < calls_to_end(s, 0) ==> kind_at(s, #[trigger] advance_n(s, 0, k))
                != TokenKind::EndOfInput,
        lexemes_from(s, 0) == strip_whitespace(s),
{
    lemma_stream_from(s, 0);
    assert(s.subrange(0, s.len() as int) =~= s);
}

/// A word or a run of digits that reaches the end of the input is returned
/// whole, and the scan after it reports the end of input.
pub proof fn lemma_run_closes_at_end(s: Seq<u8>, p: int)
    requires
        0 <= p <= s.len(),
        skip_whitespace(s, p) < s.len(),
        is_letter(s[skip_whitespace(s, p)]) || is_digit(s[skip_whitespace(s, p)]),
        forall|i: int|
            skip_whitespace(s, p) <= i < s.len() ==> (if is_letter(s[skip_whitespace(s, p)]) {
                is_word_byte(#[trigger] s[i])
            } else {
                is_digit(s[i])
            }),
    ensures
        advance(s, p) == s.len(),
        lexeme_at(s, p) == s.subrange(skip_whitespace(s, p), s.len() as int),
        kind_at(s, advance(s, p)) == TokenKind::EndOfInput,
{
    lemma_skip_whitespace(s, p);
    let start = skip_whitespace(s, p);
    lemma_word_end(s, start);
    lemma_digits_end(s, start);
    lemma_skip_whitespace(s, s.len() as int);
}

// ---------------------------------------------------------------------------
// Building tokens
// ---------------------------------------------------------------------------

/// Relies on String::push: appends one char to the end of the string.
#[verifier::external_body]
fn push_char(s: &mut String, c: char)
    ensures
        final(s)@ == old(s)@.push(c),
{
    s.push(c)
}

/// The text of `input[start..end]`, one char per byte.
fn text_of(input: &Vec<u8>, start: usize, end: usize) -> (r: String)
    requires
        start <= end <= input.len(),
    ensures
        r@ == as_chars(input@.subrange(start as int, end as int)),
{
    let mut r = String::new();
    let mut i: usize = start;
    while i < end
        invariant
            start <= i <= end,
            end <= input.len(),
            r@ == as_chars(input@.subrange(start as int, i as int)),
        decreases end - i,
    {
        push_char(&mut r, input[i] as char);
        proof {
            assert(input@.subrange(start as int, i + 1) =~= input@.subrange(start as int, i as int).push(
                input@[i as int],
            ));
            assert(as_chars(input@.subrange(start as int, i + 1)) =~= r@);
        }
        i = i + 1;
    }
    r
}

/// The token for the word `input[start..end]`: its keyword, or an identifier.
fn word_token(input: &Vec<u8>, start: usize, end: usize) -> (r: Token)
    requires
        start < end <= input.len(),
    ensures
        r.kind() == keyword_kind(input@.subrange(start as int, end as int)),
        r.text() == as_chars(input@.subrange(start as int, end as int)),
{
    let ghost w = input@.subrange(start as int, end as int);
    let n = end - start;
    if n == 2 && input[start] == 102 && input[start + 1] == 110 {
        proof {
            assert(w =~= seq![102u8, 110u8]);
            assert(as_chars(w) =~= seq!['f', 'n']);
        }
        return Token::Function;
    }
    if n == 3 && input[start] == 108 && input[start + 1] == 101 && input[start + 2] == 116 {
        proof {
            assert(w =~= seq![108u8, 101u8, 116u8]);
            assert(as_chars(w) =~= seq!['l', 'e', 't']);
        }
        return Token::Let;
    }
    if n == 4 && input[start] == 116 && input[start + 1] == 114 && input[start + 2] == 117 && input[start + 3] == 101 {
        proof {
            assert(w =~= seq![116u8, 114u8, 117u8, 101u8]);
            assert(as_chars(w) =~= seq!['t', 'r', 'u', 'e']);
        }
        return Token::True;
    }
    if n == 5 && input[start] == 102 && input[start + 1] == 97 && input[start + 2] == 108 && input[start + 3] == 115 && input[start + 4] == 101 {
        proof {
            assert(w =~= seq![102u8, 97u8, 108u8, 115u8, 101u8]);
            assert(as_chars(w) =~= seq!['f', 'a', 'l', 's', 'e']);
        }
        return Token::False;
    }
    if n == 2 && input[start] == 105 && input[start + 1] == 102 {
        proof {
            assert(w =~= seq![105u8, 102u8]);
            assert(as_chars(w) =~= seq!['i', 'f']);
        }
        return Token::If;
    }
    if n == 4 && input[start] == 101 && input[start + 1] == 108 && input[start + 2] == 115 && input[start + 3] == 101 {
        proof {
            assert(w =~= seq![101u8, 108u8, 115u8, 101u8]);
            assert(as_chars(w) =~= seq!['e', 'l', 's', 'e']);
        }
        return Token::Else;
    }
    if n == 6 && input[start] == 114 && input[start + 1] == 101 && input[start + 2] == 116 && input[start + 3] == 117 && input[start + 4] == 114 && input[start + 5] == 110 {
        proof {
            assert(w =~= seq![114u8, 101u8, 116u8, 117u8, 114u8, 110u8]);
            assert(as_chars(w) =~= seq!['r', 'e', 't', 'u', 'r', 'n']);
        }
        return Token::Return;
    }
    proof {
        assert(keyword_kind(w) == TokenKind::Identifier) by {
            if w.len() >= 1 {
                assert(w[0] == input@[start as int]);
            }
            if w.len() >= 2 {
                assert(w[1] == input@[start + 1]);
            }
            if w.len() >= 3 {
                assert(w[2] == input@[start + 2]);
            }
            if w.len() >= 4 {
                assert(w[3] == input@[start + 3]);
            }
            if w.len() >= 5 {
                assert(w[4] == input@[start + 4]);
            }
            if w.len() >= 6 {
                assert(w[5] == input@[start + 5]);
            }
        }
    }
    Token::Identifier(text_of(input, start, end))
}

// ---------------------------------------------------------------------------
// The lexer
// ---------------------------------------------------------------------------

/// A scanner over an owned input buffer, with a cursor that only moves forward.
#[derive(Debug)]
pub struct Lexer {
    ch: u8,
    input: Vec<u8>,
    position: usize,
    read_position: usize,
}

impl Lexer {
    /// The bytes being scanned.
    pub closed spec fn source(&self) -> Seq<u8> {
        self.input@
    }

    /// The cursor: the position of the byte under it.
    pub closed spec fn pos(&self) -> int {
        self.position as int
    }

    /// The cursor lies within the input (or just past it), the next read
    /// follows it, and the byte under it is the input's byte there, or 0 at the
    /// end.
    pub closed spec fn wf(&self) -> bool {
        &&& self.input.len() < usize::MAX
        &&& self.position <= self.input.len()
        &&& self.read_position == self.position + 1
        &&& self.ch == byte_at(self.input@, self.position as int)
    }

    /// A lexer over the UTF-8 bytes of `input`, with the cursor on the first byte.
    pub fn new(input: String) -> (l: Lexer)
        requires
            encode_utf8(input@).len() < usize::MAX,
        ensures
            l.wf(),
            l.source() == encode_utf8(input@),
            l.pos() == 0,
    {
        let bytes = slice_to_vec(input.as_str().as_bytes());
        let mut l = Lexer { ch: 0, input: bytes, position: 0, read_position: 0 };
        l.read_char();
        l
    }

    /// The byte after the cursor, or 0 past the end.
    fn peek_char(&self) -> (r: u8)
        requires
            self.wf(),
        ensures
            r == byte_at(self.input@, self.position + 1),
    {
        if self.read_position >= self.input.len() {
            return 0;
        }
        self.input[self.read_position]
    }

    /// Moves the cursor to the next read position and loads the byte there.
    fn read_char(&mut self)
        requires
            old(self).read_position < usize::MAX,
        ensures
            final(self).input == old(self).input,
            final(self).position == old(self).read_position,
            final(self).read_position == old(self).read_position + 1,
            final(self).ch == byte_at(old(self).input@, old(self).read_position as int),
    {
        if self.read_position >= self.input.len() {
            self.ch = 0;
        } else {
            self.ch = self.input[self.read_position];
        }
        self.position = self.read_position;
        self.read_position = self.read_position + 1;
    }

    fn skip_whitespace(&mut self)
        requires
            old(self).wf(),
        ensures
            final(self).wf(),
            final(self).input@ == old(self).input@,
            final(self).position == skip_whitespace(old(self).input@, old(self).position as int),
    {
        let ghost s = self.input@;
        let ghost p0 = self.position as int;
        while self.position < self.input.len() && is_whitespace_byte(self.ch)
            invariant
                self.wf(),
                self.input@ == s,
                skip_whitespace(s, self.position as int) == skip_whitespace(s, p0),
            decreases self.input.len() - self.position,
        {
            self.read_char();
        }
    }

    fn read_identifier(&mut self)
        requires
            old(self).wf(),
        ensures
            final(self).wf(),
            final(self).input@ == old(self).input@,
            final(self).position == word_end(old(self).input@, old(self).position as int),
    {
        let ghost s = self.input@;
        let ghost p0 = self.position as int;
        while self.position < self.input.len() && (is_letter_byte(self.ch) || is_digit_byte(self.ch))
            invariant
                self.wf(),
                self.input@ == s,
                word_end(s, self.position as int) == word_end(s, p0),
            decreases self.input.len() - self.position,
        {
            self.read_char();
        }
    }

    fn read_number(&mut self)
        requires
            old(self).wf(),
        ensures
            final(self).wf(),
            final(self).input@ == old(self).input@,
            final(self).position == digits_end(old(self).input@, old(self).position as int),
    {
        let ghost s = self.input@;
        let ghost p0 = self.position as int;
        while self.position < self.input.len() && is_digit_byte(self.ch)
            invariant
                self.wf(),
                self.input@ == s,
                digits_end(s, self.position as int) == digits_end(s, p0),
            decreases self.input.len() - self.position,
        {
            self.read_char();
        }
    }
    /// Scans the next token and moves the cursor past it.
    ///
    /// Whitespace before the token is skipped. At the end of input the result
    /// is `EndOfInput` and the cursor stays at the end. A word is a keyword if
    /// it spells one exactly, else an identifier; a run of digits is an
    /// integer; `==` and `!=` are read as one token each; any other byte that
    /// starts no token, a 0 byte inside the input included, is returned alone
    /// as `Illegal`. The end is decided by the cursor's position alone.
    pub fn next_token(&mut self) -> (r: Token)
        requires
            old(self).wf(),
        ensures
            final(self).wf(),
            final(self).source() == old(self).source(),
            r.kind() == kind_at(old(self).source(), old(self).pos()),
            r.text() == as_chars(lexeme_at(old(self).source(), old(self).pos())),
            final(self).pos() == advance(old(self).source(), old(self).pos()),
            final(self).pos() >= old(self).pos(),
            r.kind() != TokenKind::EndOfInput ==> final(self).pos() > old(self).pos(),
            r.kind() == TokenKind::EndOfInput ==> final(self).pos() == old(self).source().len()
                && kind_at(final(self).source(), final(self).pos()) == TokenKind::EndOfInput,
    {
        let ghost s = self.input@;
        let ghost p0 = self.position as int;
        self.skip_whitespace();
        proof {
            lemma_skip_whitespace(s, p0);
        }
        let start = self.position;
        if start >= self.input.len() {
            proof {
                lemma_end_of_input_repeats(s, p0, 1);
                assert(s.subrange(start as int, start as int) =~= Seq::<u8>::empty());
                assert(as_chars(Seq::<u8>::empty()) =~= Seq::<char>::empty());
            }
            return Token::EndOfInput;
        }
        let c = self.ch;
        if is_letter_byte(c) {
            self.read_identifier();
            proof {
                lemma_word_end(s, start as int);
                lemma_word_end(s, start + 1);
            }
            return word_token(&self.input, start, self.position);
        }
        if is_digit_byte(c) {
            self.read_number();
            proof {
                lemma_digits_end(s, start as int);
                lemma_digits_end(s, start + 1);
            }
            return Token::Integer(text_of(&self.input, start, self.position));
        }
        let next = self.peek_char();
        proof {
            assert(as_chars(s.subrange(start as int, start + 1)) =~= seq![c as char]);
        }
        let tok = if c == 61 {
            if next == 61 {
                self.read_char();
                proof {
                    assert(as_chars(s.subrange(start as int, start + 2)) =~= seq![c as char, next as char]);
                }
                Token::Eq
            } else {
                Token::Assign
            }
        } else if c == 33 {
            if next == 61 {
                self.read_char();
                proof {
                    assert(as_chars(s.subrange(start as int, start + 2)) =~= seq![c as char, next as char]);
                }
                Token::NotEq
            } else {
                Token::Bang
            }
        } else if c == 60 {
            Token::Lt
        } else if c == 62 {
            Token::Gt
        } else if c == 43 {
            Token::Plus
        } else if c == 45 {
            Token::Minus
        } else if c == 42 {
            Token::Asterisk
        } else if c == 47 {
            Token::Slash
        } else if c == 44 {
            Token::Comma
        } else if c == 59 {
            Token::Semicolon
        } else if c == 40 {
            Token::Lparen
        } else if c == 41 {
            Token::Rparen
        } else if c == 123 {
            Token::Lbrace
        } else if c == 125 {
            Token::Rbrace
        } else {
            Token::Illegal(text_of(&self.input, start, start + 1))
        };
        self.read_char();
        tok
    }
}

} // verus!
