//! The assembler's lexer: source text in, tokens out.
//!
//! The scanner works on the character sequence with an explicit cursor.  A
//! float literal's bit pattern depends on IEEE arithmetic, which the library
//! does not compute: the lexer records such a literal's parts as a
//! [`PendingFloat`] and leaves a placeholder in the token; the host converts
//! the parts and fills the bits in through [`apply_float_bits`].

use vstd::prelude::*;
use vstd::string::StrSliceExecFns;
use vstd::string::StringExecFns;

use crate::errors::{CompilerError, Error};
use crate::operators::{operator_token, Literal, OperatorToken, PrettyPrint};
use crate::symbols::{SourceRange, SymbolIndex, SymbolMap};
use crate::text::{chars_to_string, str_eq, str_to_chars};

verus! {

broadcast use vstd::std_specs::vec::group_vec_axioms;

/// One token with the source span it came from.
#[derive(Debug, PartialEq, Eq, Structural, Clone, Copy)]
pub struct Token {
    pub token_kind: TokenKind,
    pub source_range: SourceRange,
}

/// The kinds of token the lexer produces.
#[derive(Debug, PartialEq, Eq, Structural, Clone, Copy)]
pub enum TokenKind {
    /// '@'
    At,
    /// '$'
    DollarSign,
    /// ':'
    Colon,
    /// '~'
    SquigglyDash,
    Literal(Literal),
    Keyword(Keyword),
    Identifier(SymbolIndex),
    Operator(OperatorToken),
    /// end of input
    EndOfFile,
}

/// The reserved words.
#[derive(Debug, PartialEq, Eq, Structural, Clone, Copy)]
pub enum Keyword {
    Fn,
}

/// A float literal waiting for its bit pattern: the token it belongs to,
/// the numeral's base, the integer part's value, and the fraction digits in
/// order.
#[derive(Debug, Clone)]
pub struct PendingFloat {
    pub token_index: usize,
    pub base: u32,
    pub int_part: i64,
    pub frac_digits: Vec<u8>,
}

/// The scanner state: the characters of the input and a cursor.
#[derive(Debug)]
pub struct Lexer {
    pub chars: Vec<char>,
    pub pos: usize,
    pub file: SymbolIndex,
}

/// The numeric value of a hexadecimal digit character (uppercase), if it is
/// one.
pub open spec fn spec_map_to_hex(character: char) -> Option<u8> {
    if character == '0' {
        Some(0u8)
    } else if character == '1' {
        Some(1u8)
    } else if character == '2' {
        Some(2u8)
    } else if character == '3' {
        Some(3u8)
    } else if character == '4' {
        Some(4u8)
    } else if character == '5' {
        Some(5u8)
    } else if character == '6' {
        Some(6u8)
    } else if character == '7' {
        Some(7u8)
    } else if character == '8' {
        Some(8u8)
    } else if character == '9' {
        Some(9u8)
    } else if character == 'A' {
        Some(10u8)
    } else if character == 'B' {
        Some(11u8)
    } else if character == 'C' {
        Some(12u8)
    } else if character == 'D' {
        Some(13u8)
    } else if character == 'E' {
        Some(14u8)
    } else if character == 'F' {
        Some(15u8)
    } else {
        None
    }
}

/// Map a digit character (0-9, A-F) to its value.
pub fn map_to_hex(character: char) -> (r: Option<u8>)
    ensures
        r == spec_map_to_hex(character),
{
    match character {
        '0' => Some(0),
        '1' => Some(1),
        '2' => Some(2),
        '3' => Some(3),
        '4' => Some(4),
        '5' => Some(5),
        '6' => Some(6),
        '7' => Some(7),
        '8' => Some(8),
        '9' => Some(9),
        'A' => Some(10),
        'B' => Some(11),
        'C' => Some(12),
        'D' => Some(13),
        'E' => Some(14),
        'F' => Some(15),
        _ => None,
    }
}

/// The value of a digit string read left to right in `base`.
pub open spec fn digits_val(s: Seq<u8>, base: int) -> int
    decreases s.len(),
{
    if s.len() == 0 {
        0
    } else {
        digits_val(s.drop_last(), base) * base + s.last()
    }
}

/// With nonnegative digits and a base of at least 1, a prefix never values
/// more than the whole string.
proof fn lemma_digits_val_monotone(s: Seq<u8>, base: int, k: int)
    requires
        1 <= base,
        0 <= k <= s.len(),
    ensures
        digits_val(s.subrange(0, k), base) <= digits_val(s, base),
        digits_val(s, base) >= 0,
    decreases s.len(),
{
    if s.len() == 0 {
        assert(s.subrange(0, k) =~= s);
    } else {
        lemma_digits_val_monotone(s.drop_last(), base, if k <= s.len() - 1 {
            k
        } else {
            (s.len() - 1) as int
        });
        if k <= s.len() - 1 {
            assert(s.subrange(0, k) =~= s.drop_last().subrange(0, k));
        } else {
            assert(s.subrange(0, k) =~= s);
        }
        assert(digits_val(s.drop_last(), base) * base >= digits_val(s.drop_last(), base)) by {
            assert(digits_val(s.drop_last(), base) >= 0);
            assert(digits_val(s.drop_last(), base) * base >= digits_val(s.drop_last(), base) * 1)
                by (nonlinear_arith)
                requires
                    digits_val(s.drop_last(), base) >= 0 && base >= 1,
            ;
        }
    }
}

/// The end of the maximal run of word characters starting at `i`.
pub open spec fn word_end(chars: Seq<char>, i: int) -> int
    decreases chars.len() - i,
{
    if 0 <= i < chars.len() && spec_is_word_char(chars[i]) {
        word_end(chars, i + 1)
    } else {
        i
    }
}

/// The end of the maximal run of hexadecimal digit characters at `i`.
pub open spec fn hex_run_end(chars: Seq<char>, i: int) -> int
    decreases chars.len() - i,
{
    if 0 <= i < chars.len() && spec_map_to_hex(chars[i]) is Some {
        hex_run_end(chars, i + 1)
    } else {
        i
    }
}

/// The digit values of a run of digit characters.
pub open spec fn digit_vals(digits: Seq<char>) -> Seq<u8> {
    Seq::new(digits.len(), |j: int| spec_map_to_hex(digits[j])->0 as u8)
}

/// Where a word's first occurrence sits in the table, or where interning
/// appends it.
pub open spec fn spec_intern_index(table: Seq<Seq<char>>, w: Seq<char>) -> int {
    match crate::symbols::spec_find_str(table, w) {
        Some(i) => i,
        None => table.len() as int,
    }
}

/// The table after interning `w`.
pub open spec fn spec_intern_table(table: Seq<Seq<char>>, w: Seq<char>) -> Seq<Seq<char>> {
    match crate::symbols::spec_find_str(table, w) {
        Some(_) => table,
        None => table.push(w),
    }
}

/// What an identifier-shaped word means: a boolean literal, the `fn`
/// keyword, an operator mnemonic, or an interned identifier.
pub open spec fn spec_classify_word(w: Seq<char>, table: Seq<Seq<char>>) -> TokenKind {
    if w == "true"@ {
        TokenKind::Literal(Literal::Bool(true))
    } else if w == "false"@ {
        TokenKind::Literal(Literal::Bool(false))
    } else if w == "fn"@ {
        TokenKind::Keyword(Keyword::Fn)
    } else {
        match crate::operators::spec_operator_token(w) {
            Some(op) => TokenKind::Operator(op),
            None => TokenKind::Identifier(
                crate::symbols::SymbolIndex(spec_intern_index(table, w) as usize),
            ),
        }
    }
}

/// The table after classifying `w`: only the identifier case interns.
pub open spec fn spec_word_table(w: Seq<char>, table: Seq<Seq<char>>) -> Seq<Seq<char>> {
    if w == "true"@ || w == "false"@ || w == "fn"@ {
        table
    } else {
        match crate::operators::spec_operator_token(w) {
            Some(_) => table,
            None => spec_intern_table(table, w),
        }
    }
}

/// The outcome of scanning a `u{..}` escape at `pos` (just after the
/// `u`): the decoded character and the next position, or the position the
/// scan failed at.
pub ghost enum UniScan {
    Found(char, int),
    Bad(int),
}

/// Scan a unicode escape: `{`, uppercase hexadecimal digits, `}`.  The
/// digits' value, truncated to 32 bits, must be a Unicode scalar.  An
/// unterminated brace consumes the digits to the end of input before
/// failing on the conversion's terms, as the scanner does.
pub open spec fn spec_unicode_escape(chars: Seq<char>, pos: int) -> UniScan {
    if !(0 <= pos < chars.len() && chars[pos] == '{') {
        UniScan::Bad(pos)
    } else {
        let e = hex_run_end(chars, pos + 1);
        if e < chars.len() && chars[e] != '}' {
            UniScan::Bad(e)
        } else {
            let close = if e < chars.len() {
                e + 1
            } else {
                e
            };
            let v = digits_val(digit_vals(chars.subrange(pos + 1, e)), 16);
            if v > i64::MAX {
                UniScan::Bad(close)
            } else if vstd::utf8::is_scalar(((v as i64) as u32)) {
                UniScan::Found(((v as i64) as u32) as char, close)
            } else {
                UniScan::Bad(close)
            }
        }
    }
}

/// A hexadecimal run neither retreats nor leaves the input.
pub proof fn lemma_hex_run_bounds(chars: Seq<char>, i: int)
    requires
        0 <= i <= chars.len(),
    ensures
        i <= hex_run_end(chars, i) <= chars.len(),
    decreases chars.len() - i,
{
    if 0 <= i < chars.len() && spec_map_to_hex(chars[i]) is Some {
        lemma_hex_run_bounds(chars, i + 1);
    }
}

/// The outcome of scanning a string body: the decoded text, the position
/// after the scan, whether a closing quote was found, and whether every
/// escape was well formed.
pub ghost struct StrScan {
    pub text: Seq<char>,
    pub end: int,
    pub closed: bool,
    pub ok: bool,
}

/// The decoded character of a simple escape.
pub open spec fn escape_char(c: char) -> char {
    if c == 'n' {
        '\n'
    } else if c == 'r' {
        '\r'
    } else if c == 't' {
        '\t'
    } else if c == '0' {
        '\0'
    } else {
        c
    }
}

/// Scan a string body from `pos` (just after the opening quote): plain
/// characters until an unescaped closing quote, with `\n \r \t \\ \0 \"`
/// and `\u{..}` escapes decoded; any other escaped character stands for
/// itself.  A bad unicode escape is skipped and recorded; input ending
/// before the closing quote leaves the string unterminated.
pub open spec fn spec_string_scan(chars: Seq<char>, pos: int) -> StrScan
    decreases chars.len() - pos,
    via spec_string_scan_decreases
{
    if pos < 0 || pos >= chars.len() {
        StrScan { text: Seq::empty(), end: pos, closed: false, ok: true }
    } else if chars[pos] == '"' {
        StrScan { text: Seq::empty(), end: pos + 1, closed: true, ok: true }
    } else if chars[pos] == '\\' {
        if pos + 1 >= chars.len() {
            StrScan { text: Seq::empty(), end: pos + 1, closed: false, ok: true }
        } else {
            let c = chars[pos + 1];
            if c == 'u' {
                match spec_unicode_escape(chars, pos + 2) {
                    UniScan::Found(ch, np) => {
                        let rest = spec_string_scan(chars, np);
                        StrScan { text: seq![ch] + rest.text, ..rest }
                    },
                    UniScan::Bad(np) => {
                        let np2 = if np < pos + 2 {
                            pos + 2
                        } else {
                            np
                        };
                        let rest = spec_string_scan(chars, np2);
                        StrScan { ok: false, ..rest }
                    },
                }
            } else {
                let rest = spec_string_scan(chars, pos + 2);
                StrScan { text: seq![escape_char(c)] + rest.text, ..rest }
            }
        }
    } else {
        let rest = spec_string_scan(chars, pos + 1);
        StrScan { text: seq![chars[pos]] + rest.text, ..rest }
    }
}

#[via_fn]
proof fn spec_string_scan_decreases(chars: Seq<char>, pos: int) {
    if 0 <= pos && pos + 1 < chars.len() && chars[pos] == '\\' && chars[pos + 1] == 'u' {
        if pos + 2 < chars.len() && chars[pos + 2] == '{' {
            lemma_hex_run_bounds(chars, pos + 3);
            let e = hex_run_end(chars, pos + 3);
            assert(pos + 3 <= e <= chars.len());
        }
    }
}

/// The outcome of scanning a numeral's digits: the position after the
/// scan, the integer and fraction digit values, how many dots were seen,
/// and whether a digit too big for the base stopped the scan.
pub ghost struct NumScan {
    pub end: int,
    pub int_digits: Seq<u8>,
    pub frac_digits: Seq<u8>,
    pub dots: int,
    pub bad: bool,
}

/// Scan digits in `base` from `i`: digit characters collect into the
/// integer part until a dot, then into the fraction; underscores are
/// skipped; a dot followed by another dot ends the numeral; a digit of
/// another base stops the scan as malformed.
pub open spec fn spec_num_scan(chars: Seq<char>, i: int, base: int, seen_dot: bool) -> NumScan
    decreases chars.len() - i,
{
    if i < 0 || i >= chars.len() {
        NumScan { end: i, int_digits: Seq::empty(), frac_digits: Seq::empty(), dots: 0, bad: false }
    } else {
        match spec_map_to_hex(chars[i]) {
            Some(n) => if n as int >= base {
                NumScan {
                    end: i,
                    int_digits: Seq::empty(),
                    frac_digits: Seq::empty(),
                    dots: 0,
                    bad: true,
                }
            } else {
                let rest = spec_num_scan(chars, i + 1, base, seen_dot);
                if seen_dot {
                    NumScan { frac_digits: seq![n] + rest.frac_digits, ..rest }
                } else {
                    NumScan { int_digits: seq![n] + rest.int_digits, ..rest }
                }
            },
            None => if chars[i] == '.' && !(i + 1 < chars.len() && chars[i + 1] == '.') {
                let rest = spec_num_scan(chars, i + 1, base, true);
                NumScan { dots: rest.dots + 1, ..rest }
            } else if chars[i] == '_' {
                spec_num_scan(chars, i + 1, base, seen_dot)
            } else {
                NumScan {
                    end: i,
                    int_digits: Seq::empty(),
                    frac_digits: Seq::empty(),
                    dots: 0,
                    bad: false,
                }
            },
        }
    }
}

/// Which base a numeral's prefix chooses, and where its digits begin.
pub open spec fn spec_number_base(chars: Seq<char>, pos: int) -> (int, int) {
    if 0 <= pos < chars.len() && chars[pos] == '0' && pos + 1 < chars.len() {
        if chars[pos + 1] == 'b' {
            (2, pos + 2)
        } else if chars[pos + 1] == 'o' {
            (8, pos + 2)
        } else if chars[pos + 1] == 'x' {
            (16, pos + 2)
        } else {
            (10, pos)
        }
    } else {
        (10, pos)
    }
}

impl Lexer {
    /// The character under the cursor, if any input is left.
    pub fn current_character(&self) -> (r: Option<char>)
        ensures
            r == (if self.pos < self.chars@.len() {
                Some(self.chars@[self.pos as int])
            } else {
                None::<char>
            }),
    {
        if self.pos < self.chars.len() {
            Some(self.chars[self.pos])
        } else {
            None
        }
    }

    /// The character after the cursor, if any.
    pub fn peek(&self) -> (r: Option<char>)
        ensures
            r == (if self.pos + 1 < self.chars@.len() {
                Some(self.chars@[self.pos + 1])
            } else {
                None::<char>
            }),
    {
        if self.pos < self.chars.len() && self.pos + 1 < self.chars.len() {
            Some(self.chars[self.pos + 1])
        } else {
            None
        }
    }

    /// Consume the character under the cursor and hand it back.
    pub fn advance(&mut self) -> (r: Option<char>)
        ensures
            final(self).chars@ == old(self).chars@,
            final(self).file == old(self).file,
            r == (if old(self).pos < old(self).chars@.len() {
                Some(old(self).chars@[old(self).pos as int])
            } else {
                None::<char>
            }),
            final(self).pos == (if old(self).pos < old(self).chars@.len() {
                old(self).pos + 1
            } else {
                old(self).pos as int
            }),
            final(self).pos <= final(self).chars@.len() || final(self).pos == old(self).pos,
    {
        if self.pos < self.chars.len() {
            let c = self.chars[self.pos];
            self.pos = self.pos + 1;
            Some(c)
        } else {
            None
        }
    }

    /// Convert a string of digit characters in `base`, read left to right.
    /// Fails exactly when the value does not fit a signed 64-bit integer.
    pub fn base_n_number_conversion(&self, base: u32, text: &Vec<char>, range: SourceRange) -> (r:
        Result<i64, Error>)
        requires
            2 <= base <= 16,
            forall|j: int|
                0 <= j < text@.len() ==> ((#[trigger] spec_map_to_hex(text@[j])) matches Some(d)
                    && d < base),
        ensures
            ({
                let vals = Seq::new(text@.len(), |j: int| spec_map_to_hex(text@[j])->0 as u8);
                match r {
                    Ok(v) => v == digits_val(vals, base as int) && digits_val(vals, base as int)
                        <= i64::MAX,
                    Err(_) => digits_val(vals, base as int) > i64::MAX,
                }
            }),
            r matches Err(e) ==> e.errors@.len() >= 1,
    {
        let ghost vals = Seq::new(text@.len(), |j: int| spec_map_to_hex(text@[j])->0 as u8);
        let mut number: i64 = 0;
        let mut i: usize = 0;
        while i < text.len()
            invariant
                2 <= base <= 16,
                i <= text@.len(),
                vals == Seq::new(text@.len(), |j: int| spec_map_to_hex(text@[j])->0 as u8),
                forall|j: int|
                    0 <= j < text@.len() ==> ((#[trigger] spec_map_to_hex(text@[j])) matches Some(d)
                        && d < base),
                number == digits_val(vals.subrange(0, i as int), base as int),
                number >= 0,
            decreases text@.len() - i,
        {
            let digit = match map_to_hex(text[i]) {
                Some(d) => d,
                None => {
                    // excluded by the digit precondition
                    assert(false);
                    0
                },
            };
            let scaled = match number.checked_mul(base as i64) {
                Some(v) => v,
                None => {
                    proof {
                        let pre = vals.subrange(0, i as int);
                        assert(vals.subrange(0, i + 1 as int).drop_last() =~= pre);
                        assert(digits_val(vals.subrange(0, i + 1 as int), base as int) == number
                            * base + vals[i as int]);
                        assert(number * base > i64::MAX);
                        assert(digits_val(vals.subrange(0, i + 1 as int), base as int)
                            > i64::MAX);
                        lemma_digits_val_monotone(vals, base as int, i + 1);
                        assert(vals.subrange(0, vals.len() as int) =~= vals);
                        lemma_prefix_bound(vals, base as int, i + 1);
                    }
                    return Err(
                        CompilerError::new(self.file, "number is too large").highlight(
                            range,
                        ).build(),
                    );
                },
            };
            let next = match scaled.checked_add(digit as i64) {
                Some(v) => v,
                None => {
                    proof {
                        let pre = vals.subrange(0, i as int);
                        assert(vals.subrange(0, i + 1 as int).drop_last() =~= pre);
                        assert(digits_val(vals.subrange(0, i + 1 as int), base as int) == number
                            * base + vals[i as int]);
                        lemma_prefix_bound(vals, base as int, i + 1);
                    }
                    return Err(
                        CompilerError::new(self.file, "number is too large").highlight(
                            range,
                        ).build(),
                    );
                },
            };
            proof {
                assert(vals.subrange(0, i + 1 as int).drop_last() =~= vals.subrange(0, i as int));
                assert(vals.subrange(0, i + 1 as int).last() == vals[i as int]);
            }
            number = next;
            i = i + 1;
        }
        assert(vals.subrange(0, i as int) =~= vals);
        Ok(number)
    }
}

/// If a prefix of the digits already values more than `i64::MAX`, so does
/// the whole string.
proof fn lemma_prefix_bound(vals: Seq<u8>, base: int, k: int)
    requires
        1 <= base,
        0 <= k <= vals.len(),
        digits_val(vals.subrange(0, k), base) > i64::MAX,
    ensures
        digits_val(vals, base) > i64::MAX,
{
    lemma_digits_val_monotone(vals, base, k);
}

/// A decimal digit character.
pub open spec fn spec_is_ascii_digit(c: char) -> bool {
    48 <= c as u32 && c as u32 <= 57
}

fn is_ascii_digit(c: char) -> (r: bool)
    ensures
        r == spec_is_ascii_digit(c),
{
    let v = c as u32;
    48 <= v && v <= 57
}

/// An ASCII letter.
pub open spec fn spec_is_letter(c: char) -> bool {
    (97 <= c as u32 && c as u32 <= 122) || (65 <= c as u32 && c as u32 <= 90)
}

fn is_letter(c: char) -> (r: bool)
    ensures
        r == spec_is_letter(c),
{
    let v = c as u32;
    (97 <= v && v <= 122) || (65 <= v && v <= 90)
}

/// A character that may continue an identifier.
pub open spec fn spec_is_word_char(c: char) -> bool {
    spec_is_letter(c) || spec_is_ascii_digit(c) || c == '-' || c == '_'
}

fn is_word_char(c: char) -> (r: bool)
    ensures
        r == spec_is_word_char(c),
{
    is_letter(c) || is_ascii_digit(c) || c == '-' || c == '_'
}

/// Relies on `char::from_u32`: `Some` exactly on Unicode scalar values, and
/// the produced character casts back to the argument.
#[verifier::external_body]
fn char_from_u32(x: u32) -> (r: Option<char>)
    ensures
        r matches Some(c) ==> c as u32 == x,
        r is Some <==> vstd::utf8::is_scalar(x),
{
    char::from_u32(x)
}

impl Lexer {
    /// Scan an identifier-shaped word and classify it: the word is the
    /// maximal run of word characters from the cursor, and the result and
    /// the table change are exactly what [`spec_classify_word`] and
    /// [`spec_word_table`] fix for it.
    #[verifier::loop_isolation(false)]
    fn identifier(&mut self, symbol_table: &mut SymbolMap) -> (r: TokenKind)
        requires
            old(self).pos < old(self).chars.len(),
        ensures
            final(self).chars@ == old(self).chars@,
            final(self).file == old(self).file,
            old(self).pos < final(self).pos <= final(self).chars@.len(),
            !(r is EndOfFile),
            ({
                let w = old(self).chars@.subrange(
                    old(self).pos as int,
                    word_end(old(self).chars@, old(self).pos + 1),
                );
                &&& final(self).pos == word_end(old(self).chars@, old(self).pos + 1)
                &&& r == spec_classify_word(w, old(symbol_table)@)
                &&& final(symbol_table)@ == spec_word_table(w, old(symbol_table)@)
            }),
    {
        let ghost chars = self.chars@;
        let ghost p0 = self.pos as int;
        let mut word: Vec<char> = Vec::new();
        word.push(self.chars[self.pos]);
        self.pos = self.pos + 1;
        while self.pos < self.chars.len() && is_word_char(self.chars[self.pos])
            invariant
                self.chars@ == chars,
                self.file == old(self).file,
                old(self).pos < self.pos <= self.chars@.len(),
                word@ == chars.subrange(p0, self.pos as int),
                word_end(chars, p0 + 1) == word_end(chars, self.pos as int),
            decreases self.chars@.len() - self.pos,
        {
            word.push(self.chars[self.pos]);
            assert(word@ =~= chars.subrange(p0, self.pos + 1));
            self.pos = self.pos + 1;
        }
        proof {
            assert(word_end(chars, self.pos as int) == self.pos);
            assert(word@ == chars.subrange(p0, word_end(chars, p0 + 1)));
        }
        let ghost w = word@;
        let s = chars_to_string(&word);
        if str_eq(s.as_str(), "true") {
            TokenKind::Literal(Literal::Bool(true))
        } else if str_eq(s.as_str(), "false") {
            TokenKind::Literal(Literal::Bool(false))
        } else if str_eq(s.as_str(), "fn") {
            TokenKind::Keyword(Keyword::Fn)
        } else {
            match operator_token(s.as_str()) {
                Some(op) => TokenKind::Operator(op),
                None => TokenKind::Identifier(symbol_table.push(s)),
            }
        }
    }

    /// Scan the body of a string literal (the opening quote is already
    /// consumed), decode escapes, and intern the text — exactly as
    /// [`spec_string_scan`] fixes: on success the interned text is the
    /// scanned span with escapes decoded, and the scan fails exactly when
    /// the input ends before the closing quote or an escape is malformed.
    #[verifier::rlimit(100)]
    #[verifier::spinoff_prover]
    #[verifier::loop_isolation(false)]
    fn string(&mut self, symbol_table: &mut SymbolMap) -> (r: Result<Literal, Error>)
        requires
            old(self).pos <= old(self).chars.len(),
        ensures
            final(self).chars@ == old(self).chars@,
            final(self).file == old(self).file,
            old(self).pos <= final(self).pos <= final(self).chars@.len(),
            ({
                let sc = spec_string_scan(old(self).chars@, old(self).pos as int);
                &&& final(self).pos == sc.end
                &&& if sc.closed && sc.ok {
                    r matches Ok(lit) && (lit matches Literal::Str(sym) && sym.0
                        == spec_intern_index(old(symbol_table)@, sc.text))
                        && final(symbol_table)@ == spec_intern_table(old(symbol_table)@, sc.text)
                } else {
                    r is Err && final(symbol_table)@ == old(symbol_table)@
                }
            }),
            r matches Err(e) ==> e.errors@.len() >= 1,
    {
        let ghost chars = self.chars@;
        let ghost p0 = self.pos as int;
        let ghost full = spec_string_scan(chars, p0);
        let mut out: Vec<char> = Vec::new();
        let start = self.pos;
        let mut errors: Vec<CompilerError> = Vec::new();
        let mut closed = false;
        while self.pos < self.chars.len() && !closed
            invariant
                self.chars@ == chars,
                self.file == old(self).file,
                old(self).pos <= self.pos <= self.chars@.len(),
                start == old(self).pos,
                symbol_table@ == old(symbol_table)@,
                ({
                    let tail = spec_string_scan(chars, self.pos as int);
                    &&& closed ==> full.text == out@ && full.end == self.pos && full.closed
                        && full.ok == (errors@.len() == 0)
                    &&& !closed ==> {
                        &&& full.text == out@ + tail.text
                        &&& full.end == tail.end
                        &&& full.closed == tail.closed
                        &&& full.ok == ((errors@.len() == 0) && tail.ok)
                    }
                }),
            decreases self.chars@.len() - self.pos + (if closed {
                0int
            } else {
                1int
            }),
        {
            let ghost pre = self.pos as int;
            let ghost preout = out@;
            let c = self.chars[self.pos];
            self.pos = self.pos + 1;
            if c == '"' {
                closed = true;
            } else if c == '\\' {
                if self.pos < self.chars.len() {
                    let e = self.chars[self.pos];
                    self.pos = self.pos + 1;
                    if e == 'u' {
                        match self.unicode_escape_character() {
                            Ok(v) => {
                                out.push(v);
                                proof {
                                    let tail2 = spec_string_scan(chars, self.pos as int);
                                    assert(preout + (seq![v] + tail2.text) =~= out@
                                        + tail2.text);
                                }
                            },
                            Err(err) => {
                                let mut j: usize = 0;
                                let inner = err.errors;
                                while j < inner.len()
                                    invariant
                                        j <= inner@.len(),
                                        errors@.len() >= 1 || inner@.len() > j,
                                    decreases inner@.len() - j,
                                {
                                    errors.push(inner[j].clone());
                                    j = j + 1;
                                }
                            },
                        }
                    } else {
                        let decoded = if e == 'n' {
                            '\n'
                        } else if e == 'r' {
                            '\r'
                        } else if e == 't' {
                            '\t'
                        } else if e == '0' {
                            '\0'
                        } else {
                            e
                        };
                        out.push(decoded);
                        proof {
                            let tail2 = spec_string_scan(chars, self.pos as int);
                            assert(preout + (seq![escape_char(e)] + tail2.text) =~= out@
                                + tail2.text);
                        }
                    }
                }
            } else {
                out.push(c);
                proof {
                    let tail2 = spec_string_scan(chars, self.pos as int);
                    assert(preout + (seq![c] + tail2.text) =~= out@ + tail2.text);
                }
            }
        }
        proof {
            if !closed {
                assert(spec_string_scan(chars, self.pos as int).text =~= Seq::<char>::empty());
                assert(out@ + Seq::<char>::empty() =~= out@);
            }
        }
        if !closed {
            let hi = if start <= self.pos {
                SourceRange::new(start, self.pos)
            } else {
                SourceRange::new(self.pos, self.pos)
            };
            errors.push(
                CompilerError::new(self.file, "unterminated string").highlight(hi).note(
                    "consider adding a quotation mark here".to_owned(),
                ),
            );
            return Err(Error { errors });
        }
        if errors.len() == 0 {
            let index = symbol_table.push(chars_to_string(&out));
            Ok(Literal::Str(index))
        } else {
            Err(Error { errors })
        }
    }

    /// Scan a `{..}` escape body (the cursor stands just after the `u`):
    /// uppercase hexadecimal digits between braces, naming a Unicode scalar
    /// value.  The outcome and the new cursor are exactly what
    /// [`spec_unicode_escape`] fixes.
    #[verifier::loop_isolation(false)]
    fn unicode_escape_character(&mut self) -> (r: Result<char, Error>)
        requires
            old(self).pos <= old(self).chars.len(),
        ensures
            final(self).chars@ == old(self).chars@,
            final(self).file == old(self).file,
            old(self).pos <= final(self).pos <= final(self).chars@.len(),
            match spec_unicode_escape(old(self).chars@, old(self).pos as int) {
                UniScan::Found(c, np) => r == Ok::<char, Error>(c) && final(self).pos == np,
                UniScan::Bad(np) => r is Err && final(self).pos == np,
            },
            r matches Err(e) ==> e.errors@.len() >= 1,
    {
        let ghost chars = self.chars@;
        let ghost p0 = self.pos as int;
        if self.pos < self.chars.len() && self.chars[self.pos] == '{' {
            self.pos = self.pos + 1;
        } else {
            let here = self.pos;
            return Err(
                CompilerError::new(self.file, "corrupt unicode escape").highlight(
                    SourceRange::new(here, here),
                ).note("unicode escapes are formatted like \\u{..}".to_owned()).build(),
            );
        }
        let start = self.pos;
        let mut digits: Vec<char> = Vec::new();
        let mut closed = false;
        while self.pos < self.chars.len() && !closed
            invariant
                self.chars@ == chars,
                self.file == old(self).file,
                old(self).pos <= self.pos <= self.chars@.len(),
                start <= self.pos,
                !closed ==> digits@ == chars.subrange(start as int, self.pos as int)
                    && hex_run_end(chars, start as int) == hex_run_end(chars, self.pos as int),
                closed ==> self.pos == hex_run_end(chars, start as int) + 1 && digits@
                    == chars.subrange(start as int, hex_run_end(chars, start as int))
                    && hex_run_end(chars, start as int) < chars.len() && chars[hex_run_end(
                    chars,
                    start as int,
                )] == '}',
                forall|j: int|
                    0 <= j < digits@.len() ==> ((#[trigger] spec_map_to_hex(digits@[j])) matches
                        Some(d) && d < 16),
            decreases self.chars@.len() - self.pos,
        {
            let c = self.chars[self.pos];
            if c == '}' {
                proof {
                    assert(hex_run_end(chars, self.pos as int) == self.pos);
                }
                self.pos = self.pos + 1;
                closed = true;
            } else {
            match map_to_hex(c) {
                Some(_) => {
                    digits.push(c);
                    assert(digits@ =~= chars.subrange(start as int, self.pos + 1));
                    self.pos = self.pos + 1;
                },
                None => {
                    proof {
                        assert(hex_run_end(chars, self.pos as int) == self.pos);
                    }
                    let here = self.pos;
                    return Err(
                        CompilerError::new(self.file, "invalid unicode value").highlight(
                            SourceRange::new(here, here),
                        ).note(
                            "unicode escape values must be written in base-16 (0-1-2-3-4-5-6-7-8-9-A-B-C-D-E-F)".to_owned(),
                        ).build(),
                    );
                },
            }
            }
        }
        proof {
            let e = hex_run_end(chars, p0 + 1);
            assert(digits@ == chars.subrange(p0 + 1, e));
            assert(digit_vals(chars.subrange(p0 + 1, e)) =~= Seq::new(
                digits@.len(),
                |j: int| spec_map_to_hex(digits@[j])->0 as u8,
            ));
            if closed {
                assert(self.pos == e + 1);
            } else {
                assert(self.pos == chars.len());
                assert(hex_run_end(chars, self.pos as int) == self.pos);
                assert(self.pos == e);
            }
        }
        let range = if start <= self.pos {
            SourceRange::new(start, self.pos)
        } else {
            SourceRange::new(self.pos, self.pos)
        };
        let number = match self.base_n_number_conversion(16, &digits, range) {
            Ok(v) => v,
            Err(e) => { return Err(e) },
        };
        let x = number as u32;
        match char_from_u32(x) {
            Some(value) => {
                proof {
                    vstd::utf8::char_u32_cast(value, x);
                }
                Ok(value)
            },
            None => Err(
                CompilerError::new(self.file, "isn't a valid unicode character").highlight(
                    range,
                ).build(),
            ),
        }
    }

    /// Scan a numeric literal: a base prefix (`0b`, `0o`, `0x`) chooses the
    /// base per [`spec_number_base`], then digits as [`spec_num_scan`]
    /// fixes, with [`Lexer::base_n_number`]'s exact outcome.
    fn number(&mut self) -> (r: Result<(Literal, Option<PendingFloat>), Error>)
        requires
            old(self).pos < old(self).chars.len(),
            spec_map_to_hex(old(self).chars@[old(self).pos as int]) matches Some(d) && d < 10,
        ensures
            final(self).chars@ == old(self).chars@,
            final(self).file == old(self).file,
            old(self).pos < final(self).pos <= final(self).chars@.len(),
            r matches Err(e) ==> e.errors@.len() >= 1,
            ({
                let (base, dstart) = spec_number_base(old(self).chars@, old(self).pos as int);
                let sc = spec_num_scan(old(self).chars@, dstart, base, false);
                &&& final(self).pos == sc.end
                &&& if sc.bad || sc.dots > 1 || digits_val(sc.int_digits, base) > i64::MAX {
                    r is Err
                } else if sc.frac_digits.len() > 0 {
                    r matches Ok((lit, pf)) && lit == Literal::Float(0u64) && (pf matches Some(p)
                        && p.token_index == 0 && p.base == base && p.int_part == digits_val(
                        sc.int_digits,
                        base,
                    ) && p.frac_digits@ == sc.frac_digits)
                } else {
                    r matches Ok((lit, pf)) && lit == Literal::Integer(
                        digits_val(sc.int_digits, base) as i64,
                    ) && pf is None
                }
            }),
    {
        if self.chars[self.pos] == '0' && self.chars.len() - self.pos > 1 {
            let p = self.chars[self.pos + 1];
            if p == 'b' {
                self.pos = self.pos + 2;
                return self.base_n_number(2);
            }
            if p == 'o' {
                self.pos = self.pos + 2;
                return self.base_n_number(8);
            }
            if p == 'x' {
                self.pos = self.pos + 2;
                return self.base_n_number(16);
            }
        }
        self.base_n_number(10)
    }

    /// Scan digits in `base`, splitting an integer part from an optional
    /// fraction, exactly as [`spec_num_scan`] fixes: on success the integer
    /// part's value, and for a fraction the pending-float parts, come from
    /// the consumed digits; a digit of another base, a second dot, or an
    /// integer part beyond `i64::MAX` fails.  A fraction cannot be valued
    /// without float arithmetic, so it comes back as a [`PendingFloat`]
    /// next to a placeholder literal.
    #[verifier::rlimit(100)]
    #[verifier::spinoff_prover]
    #[verifier::loop_isolation(false)]
    fn base_n_number(&mut self, base: u32) -> (r: Result<(Literal, Option<PendingFloat>), Error>)
        requires
            2 <= base <= 16,
            old(self).pos <= old(self).chars.len(),
        ensures
            final(self).chars@ == old(self).chars@,
            final(self).file == old(self).file,
            old(self).pos <= final(self).pos <= final(self).chars@.len(),
            (old(self).pos < old(self).chars@.len() && (spec_map_to_hex(
                old(self).chars@[old(self).pos as int],
            ) matches Some(d) && d < base)) ==> old(self).pos < final(self).pos,
            r matches Err(e) ==> e.errors@.len() >= 1,
            ({
                let sc = spec_num_scan(old(self).chars@, old(self).pos as int, base as int, false);
                &&& final(self).pos == sc.end
                &&& if sc.bad || sc.dots > 1 || digits_val(sc.int_digits, base as int)
                    > i64::MAX {
                    r is Err
                } else if sc.frac_digits.len() > 0 {
                    r matches Ok((lit, pf)) && lit == Literal::Float(0u64) && (pf matches Some(p)
                        && p.token_index == 0 && p.base == base && p.int_part == digits_val(
                        sc.int_digits,
                        base as int,
                    ) && p.frac_digits@ == sc.frac_digits)
                } else {
                    r matches Ok((lit, pf)) && lit == Literal::Integer(
                        digits_val(sc.int_digits, base as int) as i64,
                    ) && pf is None
                }
            }),
    {
        let ghost chars = self.chars@;
        let ghost p0 = self.pos as int;
        let ghost full = spec_num_scan(chars, p0, base as int, false);
        let start = self.pos;
        let mut int_digits: Vec<char> = Vec::new();
        let mut frac_digits: Vec<u8> = Vec::new();
        let mut dot_count: usize = 0;
        let mut stopped = false;
        while self.pos < self.chars.len() && !stopped
            invariant
                2 <= base <= 16,
                self.chars@ == chars,
                self.file == old(self).file,
                old(self).pos <= self.pos <= self.chars@.len(),
                start == old(self).pos,
                self.pos == start ==> int_digits@.len() == 0 && dot_count == 0,
                dot_count <= self.pos - start,
                forall|j: int|
                    0 <= j < int_digits@.len() ==> ((#[trigger] spec_map_to_hex(
                        int_digits@[j],
                    )) matches Some(d) && d < base),
                ({
                    let tail = spec_num_scan(chars, self.pos as int, base as int, dot_count > 0);
                    &&& stopped ==> tail.end == self.pos && !tail.bad && tail.int_digits
                        == Seq::<u8>::empty() && tail.frac_digits == Seq::<u8>::empty()
                        && tail.dots == 0
                    &&& full.end == tail.end
                    &&& full.int_digits == digit_vals(int_digits@) + tail.int_digits
                    &&& full.frac_digits == frac_digits@ + tail.frac_digits
                    &&& full.dots == dot_count + tail.dots
                    &&& full.bad == tail.bad
                }),
            decreases self.chars@.len() - self.pos + (if stopped {
                0int
            } else {
                1int
            }),
        {
            let ghost pre = self.pos as int;
            let ghost predot = dot_count > 0;
            let c = self.chars[self.pos];
            match map_to_hex(c) {
                Some(n) => {
                    if n as u32 >= base {
                        let here = self.pos;
                        return Err(
                            CompilerError::new(self.file, "invalid number for base").highlight(
                                SourceRange::new(here, here),
                            ).note(
                                "the value is too big for a number of this base".to_owned(),
                            ).build(),
                        );
                    }
                    if dot_count == 0 {
                        int_digits.push(c);
                        proof {
                            assert(digit_vals(int_digits@) =~= digit_vals(
                                int_digits@.drop_last(),
                            ) + seq![n]);
                            let tail2 = spec_num_scan(chars, pre + 1, base as int, predot);
                            assert((digit_vals(int_digits@.drop_last()) + seq![n])
                                + tail2.int_digits =~= digit_vals(int_digits@.drop_last()) + (
                            seq![n] + tail2.int_digits));
                        }
                    } else {
                        frac_digits.push(n);
                        proof {
                            let tail2 = spec_num_scan(chars, pre + 1, base as int, predot);
                            assert((frac_digits@.drop_last() + seq![n]) + tail2.frac_digits
                                =~= frac_digits@.drop_last() + (seq![n] + tail2.frac_digits));
                            assert(frac_digits@ =~= frac_digits@.drop_last() + seq![n]);
                        }
                    }
                    self.pos = self.pos + 1;
                },
                None => {
                    let next_is_dot = self.pos + 1 < self.chars.len() && self.chars[self.pos + 1]
                        == '.';
                    if c == '.' && !next_is_dot {
                        dot_count = dot_count + 1;
                        self.pos = self.pos + 1;
                    } else if c == '_' {
                        self.pos = self.pos + 1;
                    } else {
                        stopped = true;
                    }
                },
            }
        }
        proof {
            if !stopped {
                let tail = spec_num_scan(chars, self.pos as int, base as int, dot_count > 0);
                assert(tail.end == self.pos && !tail.bad && tail.int_digits
                    == Seq::<u8>::empty() && tail.frac_digits == Seq::<u8>::empty() && tail.dots
                    == 0);
            }
        }
        if dot_count > 1 {
            let hi = SourceRange::new(start, self.pos);
            return Err(CompilerError::new(self.file, "too many dots").highlight(hi).build());
        }
        proof {
            assert(digit_vals(int_digits@) + Seq::<u8>::empty() =~= digit_vals(int_digits@));
            assert(frac_digits@ + Seq::<u8>::empty() =~= frac_digits@);
        }
        let range = SourceRange::new(start, self.pos);
        let number = match self.base_n_number_conversion(base, &int_digits, range) {
            Ok(v) => v,
            Err(e) => { return Err(e) },
        };
        if frac_digits.len() > 0 {
            Ok(
                (
                    Literal::Float(0),
                    Some(PendingFloat { token_index: 0, base, int_part: number, frac_digits }),
                ),
            )
        } else {
            Ok((Literal::Integer(number), None))
        }
    }
}

/// The end of a line comment starting inside `--`: everything up to the
/// next newline (exclusive) or the end of input.
pub open spec fn line_end(chars: Seq<char>, i: int) -> int
    decreases chars.len() - i,
{
    if 0 <= i < chars.len() && chars[i] != '\n' {
        line_end(chars, i + 1)
    } else {
        i
    }
}

/// Runs never retreat, and never leave the input.
pub proof fn lemma_scan_bounds(chars: Seq<char>, i: int)
    requires
        0 <= i <= chars.len(),
    ensures
        i <= word_end(chars, i) <= chars.len(),
        i <= line_end(chars, i) <= chars.len(),
    decreases chars.len() - i,
{
    if i < chars.len() {
        lemma_scan_bounds(chars, i + 1);
    }
}

/// A digit scan never retreats, and never leaves the input.
pub proof fn lemma_num_scan_bounds(chars: Seq<char>, i: int, base: int, seen_dot: bool)
    requires
        0 <= i <= chars.len(),
    ensures
        i <= spec_num_scan(chars, i, base, seen_dot).end <= chars.len(),
    decreases chars.len() - i,
{
    if i < chars.len() {
        lemma_num_scan_bounds(chars, i + 1, base, seen_dot);
        lemma_num_scan_bounds(chars, i + 1, base, true);
    }
}

/// A string scan never retreats, and never leaves the input.
pub proof fn lemma_string_scan_bounds(chars: Seq<char>, pos: int)
    requires
        0 <= pos <= chars.len(),
    ensures
        pos <= spec_string_scan(chars, pos).end <= chars.len(),
    decreases chars.len() - pos,
{
    if pos < chars.len() {
        if chars[pos] == '\\' && pos + 1 < chars.len() && chars[pos + 1] == 'u' {
            if pos + 2 < chars.len() && chars[pos + 2] == '{' {
                lemma_hex_run_bounds(chars, pos + 3);
            }
            match spec_unicode_escape(chars, pos + 2) {
                UniScan::Found(_, np) => {
                    lemma_string_scan_bounds(chars, np);
                },
                UniScan::Bad(np) => {
                    let np2 = if np < pos + 2 {
                        pos + 2
                    } else {
                        np
                    };
                    lemma_string_scan_bounds(chars, np2);
                },
            }
        } else if chars[pos] == '\\' {
            if pos + 1 < chars.len() {
                lemma_string_scan_bounds(chars, pos + 2);
            }
        } else {
            lemma_string_scan_bounds(chars, pos + 1);
        }
    }
}

/// The pending parts of one float literal, as the scan fixes them.
pub ghost struct PendSpec {
    pub token_index: int,
    pub base: u32,
    pub int_part: i64,
    pub frac: Seq<u8>,
}

/// What one dispatch step of the main scan does at `pos`: the token it
/// produces (none for whitespace, comments, and errors), the pending float
/// parts (for a fraction literal), whether it records an error, the
/// position it leaves, and the table it leaves.
pub ghost struct LexStep {
    pub kind: Option<TokenKind>,
    pub pend: Option<PendSpec>,
    pub err: bool,
    pub end: int,
    pub table: Seq<Seq<char>>,
}

/// The main scan's dispatch on the character at `pos`.
pub open spec fn spec_lex_step(chars: Seq<char>, pos: int, table: Seq<Seq<char>>) -> LexStep {
    let c = chars[pos];
    if spec_map_to_hex(c) matches Some(d) && d < 10 {
        let (base, dstart) = spec_number_base(chars, pos);
        let sc = spec_num_scan(chars, dstart, base, false);
        if sc.bad || sc.dots > 1 || digits_val(sc.int_digits, base) > i64::MAX {
            LexStep { kind: None, pend: None, err: true, end: sc.end, table }
        } else if sc.frac_digits.len() > 0 {
            LexStep {
                kind: Some(TokenKind::Literal(Literal::Float(0u64))),
                pend: Some(
                    PendSpec {
                        token_index: 0,
                        base: base as u32,
                        int_part: digits_val(sc.int_digits, base) as i64,
                        frac: sc.frac_digits,
                    },
                ),
                err: false,
                end: sc.end,
                table,
            }
        } else {
            LexStep {
                kind: Some(
                    TokenKind::Literal(Literal::Integer(digits_val(sc.int_digits, base) as i64)),
                ),
                pend: None,
                err: false,
                end: sc.end,
                table,
            }
        }
    } else if c == '\n' || c == ' ' {
        LexStep { kind: None, pend: None, err: false, end: pos + 1, table }
    } else if c == '"' {
        let sc = spec_string_scan(chars, pos + 1);
        if sc.closed && sc.ok {
            LexStep {
                kind: Some(
                    TokenKind::Literal(
                        Literal::Str(
                            crate::symbols::SymbolIndex(spec_intern_index(table, sc.text) as usize),
                        ),
                    ),
                ),
                pend: None,
                err: false,
                end: sc.end,
                table: spec_intern_table(table, sc.text),
            }
        } else {
            LexStep { kind: None, pend: None, err: true, end: sc.end, table }
        }
    } else if c == '-' && pos + 1 < chars.len() && chars[pos + 1] == '-' {
        LexStep { kind: None, pend: None, err: false, end: line_end(chars, pos), table }
    } else if spec_is_letter(c) {
        let w = chars.subrange(pos, word_end(chars, pos + 1));
        LexStep {
            kind: Some(spec_classify_word(w, table)),
            pend: None,
            err: false,
            end: word_end(chars, pos + 1),
            table: spec_word_table(w, table),
        }
    } else if c == ':' {
        LexStep { kind: Some(TokenKind::Colon), pend: None, err: false, end: pos + 1, table }
    } else if c == '~' {
        LexStep {
            kind: Some(TokenKind::SquigglyDash),
            pend: None,
            err: false,
            end: pos + 1,
            table,
        }
    } else if c == '@' {
        LexStep { kind: Some(TokenKind::At), pend: None, err: false, end: pos + 1, table }
    } else if c == '$' {
        LexStep { kind: Some(TokenKind::DollarSign), pend: None, err: false, end: pos + 1, table }
    } else {
        LexStep { kind: None, pend: None, err: true, end: pos + 1, table }
    }
}

/// Every dispatch step makes progress and stays inside the input.
pub proof fn lemma_lex_step_bounds(chars: Seq<char>, pos: int, table: Seq<Seq<char>>)
    requires
        0 <= pos < chars.len(),
    ensures
        pos < spec_lex_step(chars, pos, table).end <= chars.len(),
{
    let c = chars[pos];
    if spec_map_to_hex(c) matches Some(d) && d < 10 {
        let (base, dstart) = spec_number_base(chars, pos);
        lemma_num_scan_bounds(chars, dstart, base, false);
        if dstart == pos {
            assert(spec_num_scan(chars, pos, base, false).end >= pos + 1) by {
                lemma_num_scan_bounds(chars, pos + 1, base, false);
            }
        }
    } else if c == '"' {
        lemma_string_scan_bounds(chars, pos + 1);
    } else if c == '-' && pos + 1 < chars.len() && chars[pos + 1] == '-' {
        lemma_scan_bounds(chars, pos);
        assert(line_end(chars, pos) == line_end(chars, pos + 1));
        lemma_scan_bounds(chars, pos + 1);
    } else if spec_is_letter(c) {
        lemma_scan_bounds(chars, pos + 1);
    }
}

/// The end-of-input token the scan appends: its span sits on the last
/// character.
pub open spec fn eof_token(chars: Seq<char>) -> Token {
    Token {
        token_kind: TokenKind::EndOfFile,
        source_range: crate::symbols::SourceRange {
            start: (if chars.len() == 0 {
                0int
            } else {
                chars.len() - 1
            }) as usize,
            end: (if chars.len() == 0 {
                0int
            } else {
                chars.len() - 1
            }) as usize,
        },
    }
}

/// The whole scan's outcome: the tokens with their spans, the pending
/// float parts with the tokens they belong to, whether any error was
/// recorded, and the final table.
pub ghost struct LexOut {
    pub tokens: Seq<Token>,
    pub pends: Seq<PendSpec>,
    pub err: bool,
    pub table: Seq<Seq<char>>,
}

/// The main scan from `pos`: dispatch step by step to the end of input,
/// then the end-of-input token.
pub open spec fn spec_lex(chars: Seq<char>, pos: int, table: Seq<Seq<char>>) -> LexOut
    decreases chars.len() - pos,
    via spec_lex_decreases
{
    if pos < 0 || pos >= chars.len() {
        LexOut { tokens: seq![eof_token(chars)], pends: Seq::empty(), err: false, table }
    } else {
        let st = spec_lex_step(chars, pos, table);
        let rest = spec_lex(chars, st.end, st.table);
        match st.kind {
            Some(k) => {
                let t = Token {
                    token_kind: k,
                    source_range: crate::symbols::SourceRange {
                        start: pos as usize,
                        end: st.end as usize,
                    },
                };
                LexOut {
                    tokens: seq![t] + rest.tokens,
                    pends: (match st.pend {
                        Some(p) => seq![p],
                        None => Seq::empty(),
                    }) + rest.pends.map(
                        |q: int, pd: PendSpec| PendSpec { token_index: pd.token_index + 1, ..pd },
                    ),
                    err: st.err || rest.err,
                    table: rest.table,
                }
            },
            None => LexOut { err: st.err || rest.err, ..rest },
        }
    }
}

#[via_fn]
proof fn spec_lex_decreases(chars: Seq<char>, pos: int, table: Seq<Seq<char>>) {
    if 0 <= pos < chars.len() {
        lemma_lex_step_bounds(chars, pos, table);
    }
}

/// The spec-level view of recorded pending floats.
pub open spec fn pend_specs(s: Seq<PendingFloat>) -> Seq<PendSpec> {
    Seq::new(
        s.len(),
        |i: int|
            PendSpec {
                token_index: s[i].token_index as int,
                base: s[i].base,
                int_part: s[i].int_part,
                frac: s[i].frac_digits@,
            },
    )
}

/// Pending entries with their token indices moved by `n`.
pub open spec fn shift_pends(ps: Seq<PendSpec>, n: int) -> Seq<PendSpec> {
    ps.map(|q: int, pd: PendSpec| PendSpec { token_index: pd.token_index + n, ..pd })
}

proof fn lemma_shift_concat(a: Seq<PendSpec>, b: Seq<PendSpec>, n: int)
    ensures
        shift_pends(a + b, n) =~= shift_pends(a, n) + shift_pends(b, n),
{
}

proof fn lemma_shift_shift(x: Seq<PendSpec>, a: int, b: int)
    ensures
        shift_pends(shift_pends(x, a), b) =~= shift_pends(x, a + b),
{
}

/// Lex a whole source text.
///
/// The input must already be normalized: tabs converted to spaces and
/// carriage returns stripped, as the surrounding tooling does before
/// lexing.  The outcome follows [`spec_lex`] exactly: on success the
/// tokens — kinds and spans — and the pending float parts are the ones
/// the character stream fixes, the table ends as the scan's internings
/// leave it, and an error batch comes back exactly when some step of the
/// scan records an error.  The token stream ends with exactly one
/// `EndOfFile` token, and every recorded pending float names a
/// float-literal token of the stream.
#[verifier::rlimit(100)]
#[verifier::spinoff_prover]
#[verifier::loop_isolation(false)]
pub fn lex(file: SymbolIndex, data: &str, symbol_table: &mut SymbolMap) -> (r: Result<
    (Vec<Token>, Vec<PendingFloat>),
    Error,
>)
    requires
        forall|i: int| 0 <= i < data@.len() ==> data@[i] != '\t' && data@[i] != '\r',
    ensures
        r matches Ok((tokens, pending)) ==> {
            &&& tokens@.len() >= 1
            &&& tokens@.last().token_kind is EndOfFile
            &&& forall|i: int|
                0 <= i < tokens@.len() - 1 ==> !((#[trigger] tokens@[i]).token_kind is EndOfFile)
            &&& forall|i: int|
                0 <= i < pending@.len() ==> (#[trigger] pending@[i]).token_index < tokens@.len()
                    && (tokens@[pending@[i].token_index as int].token_kind matches
                TokenKind::Literal(lit) && lit is Float)
        },
        ({
            let out = spec_lex(data@, 0, old(symbol_table)@);
            &&& final(symbol_table)@ == out.table
            &&& if out.err {
                r is Err
            } else {
                r matches Ok((tokens, pending)) && tokens@ == out.tokens && pend_specs(pending@)
                    == out.pends
            }
        }),
{
    let ghost t0 = symbol_table@;
    let ghost cs = data@;
    let ghost full = spec_lex(cs, 0, t0);
    let chars = str_to_chars(data);
    let mut lexer = Lexer { chars, pos: 0, file };
    let mut tokens: Vec<Token> = Vec::new();
    let mut pending: Vec<PendingFloat> = Vec::new();
    let mut errors: Vec<CompilerError> = Vec::new();
    proof {
        assert(pend_specs(pending@) =~= Seq::<PendSpec>::empty());
    }
    while lexer.pos < lexer.chars.len()
        invariant
            lexer.chars@ == cs,
            lexer.file == file,
            lexer.pos <= lexer.chars@.len(),
            forall|i: int|
                0 <= i < tokens@.len() ==> !((#[trigger] tokens@[i]).token_kind is EndOfFile),
            forall|i: int|
                0 <= i < pending@.len() ==> (#[trigger] pending@[i]).token_index < tokens@.len()
                    && (tokens@[pending@[i].token_index as int].token_kind matches
                TokenKind::Literal(lit) && lit is Float),
            ({
                let rest = spec_lex(cs, lexer.pos as int, symbol_table@);
                &&& full.table == rest.table
                &&& full.err == ((errors@.len() > 0) || rest.err)
                &&& full.tokens == tokens@ + rest.tokens
                &&& full.pends == pend_specs(pending@) + shift_pends(
                    rest.pends,
                    tokens@.len() as int,
                )
            }),
        decreases lexer.chars@.len() - lexer.pos,
    {
        let ghost pre = lexer.pos as int;
        let ghost tpre = symbol_table@;
        let ghost st = spec_lex_step(cs, pre, tpre);
        let ghost ntok = tokens@.len() as int;
        let ghost npend = pending@;
        let ghost nerr = errors@.len() as int;
        let start = lexer.pos;
        let c = lexer.chars[lexer.pos];
        let token_kind: TokenKind;
        let digit = match map_to_hex(c) {
            Some(d) => d < 10,
            None => false,
        };
        if digit {
            match lexer.number() {
                Ok((lit, pf)) => {
                    if let Some(p) = pf {
                        let pf2 = PendingFloat {
                            token_index: tokens.len(),
                            base: p.base,
                            int_part: p.int_part,
                            frac_digits: p.frac_digits,
                        };
                        pending.push(pf2);
                        proof {
                            assert(pend_specs(pending@) =~= pend_specs(npend) + seq![
                                PendSpec {
                                    token_index: ntok,
                                    base: pf2.base,
                                    int_part: pf2.int_part,
                                    frac: pf2.frac_digits@,
                                },
                            ]);
                        }
                        token_kind = TokenKind::Literal(Literal::Float(0));
                    } else {
                        token_kind = TokenKind::Literal(lit);
                    }
                },
                Err(e) => {
                    let inner = e.errors;
                    let mut j: usize = 0;
                    while j < inner.len()
                        invariant
                            j <= inner@.len(),
                            errors@.len() >= nerr + j,
                        decreases inner@.len() - j,
                    {
                        errors.push(inner[j].clone());
                        j = j + 1;
                    }
                    continue ;
                },
            }
        } else if c == '\n' || c == ' ' {
            lexer.pos = lexer.pos + 1;
            continue ;
        } else if c == '"' {
            lexer.pos = lexer.pos + 1;
            match lexer.string(symbol_table) {
                Ok(lit) => { token_kind = TokenKind::Literal(lit) },
                Err(e) => {
                    let inner = e.errors;
                    let mut j: usize = 0;
                    while j < inner.len()
                        invariant
                            j <= inner@.len(),
                            errors@.len() >= nerr + j,
                        decreases inner@.len() - j,
                    {
                        errors.push(inner[j].clone());
                        j = j + 1;
                    }
                    continue ;
                },
            }
        } else if c == '-' && lexer.pos + 1 < lexer.chars.len() && lexer.chars[lexer.pos + 1]
            == '-' {
            while lexer.pos < lexer.chars.len() && lexer.chars[lexer.pos] != '\n'
                invariant
                    lexer.chars@ == cs,
                    lexer.file == file,
                    start <= lexer.pos <= lexer.chars@.len(),
                    line_end(cs, start as int) == line_end(cs, lexer.pos as int),
                decreases lexer.chars@.len() - lexer.pos,
            {
                lexer.pos = lexer.pos + 1;
            }
            proof {
                assert(line_end(cs, lexer.pos as int) == lexer.pos);
            }
            continue ;
        } else if is_letter(c) {
            token_kind = lexer.identifier(symbol_table);
        } else if c == ':' {
            lexer.pos = lexer.pos + 1;
            token_kind = TokenKind::Colon;
        } else if c == '~' {
            lexer.pos = lexer.pos + 1;
            token_kind = TokenKind::SquigglyDash;
        } else if c == '@' {
            lexer.pos = lexer.pos + 1;
            token_kind = TokenKind::At;
        } else if c == '$' {
            lexer.pos = lexer.pos + 1;
            token_kind = TokenKind::DollarSign;
        } else {
            errors.push(
                CompilerError::new(file, "invalid character").highlight(
                    SourceRange::new(start, start),
                ),
            );
            lexer.pos = lexer.pos + 1;
            continue ;
        }
        let end = lexer.pos;
        proof {
            lemma_lex_step_bounds(cs, pre, tpre);
        }
        let t = Token { token_kind, source_range: SourceRange::new(start, end) };
        tokens.push(t);
        proof {
            let rest2 = spec_lex(cs, lexer.pos as int, symbol_table@);
            assert(st.kind == Some(token_kind));
            assert(st.end == end);
            assert(tokens@ =~= tokens@.drop_last().push(t));
            assert(tokens@.drop_last() + (seq![t] + rest2.tokens) =~= tokens@ + rest2.tokens);
            match st.pend {
                Some(p0) => {
                    lemma_shift_concat(seq![p0], shift_pends(rest2.pends, 1), ntok);
                    lemma_shift_shift(rest2.pends, 1, ntok);
                    assert(shift_pends(seq![p0], ntok) =~= seq![
                        PendSpec { token_index: p0.token_index + ntok, ..p0 },
                    ]);
                    assert(pend_specs(pending@) + shift_pends(rest2.pends, ntok + 1)
                        =~= pend_specs(npend) + (shift_pends(seq![p0], ntok) + shift_pends(
                        shift_pends(rest2.pends, 1),
                        ntok,
                    )));
                },
                None => {
                    lemma_shift_concat(Seq::<PendSpec>::empty(), shift_pends(rest2.pends, 1), ntok);
                    lemma_shift_shift(rest2.pends, 1, ntok);
                    assert(Seq::<PendSpec>::empty() + shift_pends(rest2.pends, 1) =~= shift_pends(
                        rest2.pends,
                        1,
                    ));
                    assert(pend_specs(pending@) =~= pend_specs(npend));
                },
            }
        }
    }
    proof {
        assert(lexer.pos == cs.len());
        assert(spec_lex(cs, lexer.pos as int, symbol_table@).tokens == seq![eof_token(cs)]);
    }
    let endpos = if lexer.pos == 0 {
        0
    } else {
        lexer.pos - 1
    };
    let eof = Token {
        token_kind: TokenKind::EndOfFile,
        source_range: SourceRange { start: endpos, end: endpos },
    };
    proof {
        assert(eof == eof_token(cs));
    }
    tokens.push(eof);
    proof {
        assert(full.tokens =~= tokens@);
        assert(shift_pends(Seq::<PendSpec>::empty(), tokens@.len() - 1) =~= Seq::<
            PendSpec,
        >::empty());
        assert(pend_specs(pending@) + Seq::<PendSpec>::empty() =~= pend_specs(pending@));
    }
    if errors.len() == 0 {
        Ok((tokens, pending))
    } else {
        Err(Error { errors })
    }
}

/// Write a host-computed bit pattern into the float-literal token a
/// [`PendingFloat`] names.
pub fn apply_float_bits(tokens: &mut Vec<Token>, index: usize, bits: u64)
    requires
        index < old(tokens)@.len(),
        old(tokens)@[index as int].token_kind matches TokenKind::Literal(lit) && lit is Float,
    ensures
        final(tokens)@ == old(tokens)@.update(
            index as int,
            Token {
                token_kind: TokenKind::Literal(Literal::Float(bits)),
                source_range: old(tokens)@[index as int].source_range,
            },
        ),
{
    let range = tokens[index].source_range;
    tokens[index] = Token {
        token_kind: TokenKind::Literal(Literal::Float(bits)),
        source_range: range,
    };
}

impl Keyword {
    /// The keyword's spelling.
    pub fn to_str(self) -> (r: Option<&'static str>)
        ensures
            r matches Some(s) && s@ == "fn"@,
    {
        match self {
            Keyword::Fn => Some("fn"),
        }
    }

    /// Render the keyword for diagnostics.
    pub fn pretty_print(self) -> (r: String) {
        let mut s = "kw(".to_owned();
        match self.to_str() {
            Some(w) => s.append(w),
            None => {},
        }
        s.append(")");
        s
    }
}

impl TokenKind {
    /// Render the token kind against the symbol table.
    pub fn to_str(&self, symbol_map: &SymbolMap) -> (r: String) {
        match self {
            TokenKind::Colon => ":".to_owned(),
            TokenKind::EndOfFile => "eof".to_owned(),
            TokenKind::SquigglyDash => "~".to_owned(),
            TokenKind::At => "@".to_owned(),
            TokenKind::DollarSign => "$".to_owned(),
            TokenKind::Literal(v) => v.pretty_print(symbol_map),
            TokenKind::Keyword(v) => v.pretty_print(),
            TokenKind::Operator(o) => o.mnemonic().to_owned(),
            TokenKind::Identifier(v) => {
                let mut s = "ident(".to_owned();
                if v.0 < symbol_map.len() {
                    s.append(symbol_map.get(*v));
                }
                s.append(")");
                s
            },
        }
    }
}

impl Token {
    /// Render the token with its source span.
    pub fn pretty_print(&self, symbol_map: &SymbolMap) -> (r: String) {
        let mut s = "[kind: '".to_owned();
        s.append(self.token_kind.to_str(symbol_map).as_str());
        s.append("', src: ");
        s.append(crate::text::fmt_u64(self.source_range.start as u64).as_str());
        s.append("..");
        s.append(crate::text::fmt_u64(self.source_range.end as u64).as_str());
        s.append("]");
        s
    }
}

impl PrettyPrint for Vec<Token> {
    fn pretty_print(&self, symbol_map: &SymbolMap) -> String {
        let mut s = String::new();
        let mut i: usize = 0;
        while i < self.len()
            decreases self@.len() - i,
        {
            s.append(self[i].pretty_print(symbol_map).as_str());
            s.append("\n");
            i = i + 1;
        }
        s
    }
}

} // verus!
