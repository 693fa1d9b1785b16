//! Typed tokens of the query language and the lexer that produces them.
use vstd::prelude::*;
use vstd::string::*;
use vstd::std_specs::cmp::PartialEqSpecImpl;
use crate::common::db::{float_bits_equal, float_equal};
use crate::parser::errors::{ParseError, ParseErrorView, ParseResult};
use crate::parser::tokenizer::{
    char_is_alphanumeric,
    is_alphanumeric,
    strs_view,
    tokenize,
    tokenize_spec,
};
use crate::text::{chars_of, i32_to_string, signed_decimal, str_equal};

verus! {

/// One token of the query language. A float literal holds the bit pattern of the number.
#[derive(Debug, Default)]
pub enum LexerToken {
    Select,
    Insert,
    Delete,
    Create,
    Drop,
    Table,
    Index,
    Where,
    From,
    Into,
    On,
    Values,
    #[default]
    Null,
    StringLiteral(String),
    NumberLiteral(i32),
    FloatNumberLiteral(u64),
    BoolLiteral(bool),
    Identifier(String),
    Comma,
    Semicolon,
    Star,
    Plus,
    Minus,
    Slash,
    CompareOp(String),
    ParOpen,
    ParClose,
    DataType(String),
    LogicalOp(String),
    Not,
    ExclamationMark,
    Percent,
}

/// What a `LexerToken` is, with text as sequences of characters.
pub enum TokenView {
    Select,
    Insert,
    Delete,
    Create,
    Drop,
    Table,
    Index,
    Where,
    From,
    Into,
    On,
    Values,
    Null,
    StringLiteral(Seq<char>),
    NumberLiteral(i32),
    FloatNumberLiteral(u64),
    BoolLiteral(bool),
    Identifier(Seq<char>),
    Comma,
    Semicolon,
    Star,
    Plus,
    Minus,
    Slash,
    CompareOp(Seq<char>),
    ParOpen,
    ParClose,
    DataType(Seq<char>),
    LogicalOp(Seq<char>),
    Not,
    ExclamationMark,
    Percent,
}

impl View for LexerToken {
    type V = TokenView;

    open spec fn view(&self) -> TokenView {
        match self {
            LexerToken::Select => TokenView::Select,
            LexerToken::Insert => TokenView::Insert,
            LexerToken::Delete => TokenView::Delete,
            LexerToken::Create => TokenView::Create,
            LexerToken::Drop => TokenView::Drop,
            LexerToken::Table => TokenView::Table,
            LexerToken::Index => TokenView::Index,
            LexerToken::Where => TokenView::Where,
            LexerToken::From => TokenView::From,
            LexerToken::Into => TokenView::Into,
            LexerToken::On => TokenView::On,
            LexerToken::Values => TokenView::Values,
            LexerToken::Null => TokenView::Null,
            LexerToken::StringLiteral(s) => TokenView::StringLiteral(s@),
            LexerToken::NumberLiteral(i) => TokenView::NumberLiteral(*i),
            LexerToken::FloatNumberLiteral(f) => TokenView::FloatNumberLiteral(*f),
            LexerToken::BoolLiteral(b) => TokenView::BoolLiteral(*b),
            LexerToken::Identifier(s) => TokenView::Identifier(s@),
            LexerToken::Comma => TokenView::Comma,
            LexerToken::Semicolon => TokenView::Semicolon,
            LexerToken::Star => TokenView::Star,
            LexerToken::Plus => TokenView::Plus,
            LexerToken::Minus => TokenView::Minus,
            LexerToken::Slash => TokenView::Slash,
            LexerToken::CompareOp(s) => TokenView::CompareOp(s@),
            LexerToken::ParOpen => TokenView::ParOpen,
            LexerToken::ParClose => TokenView::ParClose,
            LexerToken::DataType(s) => TokenView::DataType(s@),
            LexerToken::LogicalOp(s) => TokenView::LogicalOp(s@),
            LexerToken::Not => TokenView::Not,
            LexerToken::ExclamationMark => TokenView::ExclamationMark,
            LexerToken::Percent => TokenView::Percent,
        }
    }
}

/// The views of a sequence of tokens.
pub open spec fn tokens_view(tokens: Seq<LexerToken>) -> Seq<TokenView> {
    tokens.map_values(|t: LexerToken| t@)
}

impl TokenView {
    /// Equality of tokens: by variant and payload, float literals numerically.
    pub open spec fn equal(self, other: TokenView) -> bool {
        match (self, other) {
            (TokenView::FloatNumberLiteral(a), TokenView::FloatNumberLiteral(b)) => float_bits_equal(a, b),
            _ => self == other,
        }
    }
}

impl Clone for LexerToken {
    fn clone(&self) -> (r: Self)
        ensures
            r == *self,
    {
        match self {
            LexerToken::Select => LexerToken::Select,
            LexerToken::Insert => LexerToken::Insert,
            LexerToken::Delete => LexerToken::Delete,
            LexerToken::Create => LexerToken::Create,
            LexerToken::Drop => LexerToken::Drop,
            LexerToken::Table => LexerToken::Table,
            LexerToken::Index => LexerToken::Index,
            LexerToken::Where => LexerToken::Where,
            LexerToken::From => LexerToken::From,
            LexerToken::Into => LexerToken::Into,
            LexerToken::On => LexerToken::On,
            LexerToken::Values => LexerToken::Values,
            LexerToken::Null => LexerToken::Null,
            LexerToken::StringLiteral(s) => LexerToken::StringLiteral(s.clone()),
            LexerToken::NumberLiteral(i) => LexerToken::NumberLiteral(*i),
            LexerToken::FloatNumberLiteral(f) => LexerToken::FloatNumberLiteral(*f),
            LexerToken::BoolLiteral(b) => LexerToken::BoolLiteral(*b),
            LexerToken::Identifier(s) => LexerToken::Identifier(s.clone()),
            LexerToken::Comma => LexerToken::Comma,
            LexerToken::Semicolon => LexerToken::Semicolon,
            LexerToken::Star => LexerToken::Star,
            LexerToken::Plus => LexerToken::Plus,
            LexerToken::Minus => LexerToken::Minus,
            LexerToken::Slash => LexerToken::Slash,
            LexerToken::CompareOp(s) => LexerToken::CompareOp(s.clone()),
            LexerToken::ParOpen => LexerToken::ParOpen,
            LexerToken::ParClose => LexerToken::ParClose,
            LexerToken::DataType(s) => LexerToken::DataType(s.clone()),
            LexerToken::LogicalOp(s) => LexerToken::LogicalOp(s.clone()),
            LexerToken::Not => LexerToken::Not,
            LexerToken::ExclamationMark => LexerToken::ExclamationMark,
            LexerToken::Percent => LexerToken::Percent,
        }
    }
}

impl PartialEq for LexerToken {
    fn eq(&self, other: &Self) -> (r: bool) {
        match (self, other) {
            (LexerToken::Select, LexerToken::Select) => true,
            (LexerToken::Insert, LexerToken::Insert) => true,
            (LexerToken::Delete, LexerToken::Delete) => true,
            (LexerToken::Create, LexerToken::Create) => true,
            (LexerToken::Drop, LexerToken::Drop) => true,
            (LexerToken::Table, LexerToken::Table) => true,
            (LexerToken::Index, LexerToken::Index) => true,
            (LexerToken::Where, LexerToken::Where) => true,
            (LexerToken::From, LexerToken::From) => true,
            (LexerToken::Into, LexerToken::Into) => true,
            (LexerToken::On, LexerToken::On) => true,
            (LexerToken::Values, LexerToken::Values) => true,
            (LexerToken::Null, LexerToken::Null) => true,
            (LexerToken::StringLiteral(a), LexerToken::StringLiteral(b)) => *a == *b,
            (LexerToken::NumberLiteral(a), LexerToken::NumberLiteral(b)) => *a == *b,
            (LexerToken::FloatNumberLiteral(a), LexerToken::FloatNumberLiteral(b)) => float_equal(*a, *b),
            (LexerToken::BoolLiteral(a), LexerToken::BoolLiteral(b)) => *a == *b,
            (LexerToken::Identifier(a), LexerToken::Identifier(b)) => *a == *b,
            (LexerToken::Comma, LexerToken::Comma) => true,
            (LexerToken::Semicolon, LexerToken::Semicolon) => true,
            (LexerToken::Star, LexerToken::Star) => true,
            (LexerToken::Plus, LexerToken::Plus) => true,
            (LexerToken::Minus, LexerToken::Minus) => true,
            (LexerToken::Slash, LexerToken::Slash) => true,
            (LexerToken::CompareOp(a), LexerToken::CompareOp(b)) => *a == *b,
            (LexerToken::ParOpen, LexerToken::ParOpen) => true,
            (LexerToken::ParClose, LexerToken::ParClose) => true,
            (LexerToken::DataType(a), LexerToken::DataType(b)) => *a == *b,
            (LexerToken::LogicalOp(a), LexerToken::LogicalOp(b)) => *a == *b,
            (LexerToken::Not, LexerToken::Not) => true,
            (LexerToken::ExclamationMark, LexerToken::ExclamationMark) => true,
            (LexerToken::Percent, LexerToken::Percent) => true,
            _ => false,
        }
    }
}

impl PartialEqSpecImpl for LexerToken {
    open spec fn obeys_eq_spec() -> bool {
        true
    }

    open spec fn eq_spec(&self, other: &Self) -> bool {
        self@.equal(other@)
    }
}

impl TokenView {
    /// The text of the token as queries write it; `float_text` writes a float.
    pub open spec fn text(self, float_text: spec_fn(u64) -> Seq<char>) -> Seq<char> {
        match self {
            TokenView::Select => "select"@,
            TokenView::Insert => "insert"@,
            TokenView::Delete => "delete"@,
            TokenView::Create => "create"@,
            TokenView::Drop => "drop"@,
            TokenView::Table => "table"@,
            TokenView::Index => "index"@,
            TokenView::Where => "where"@,
            TokenView::From => "from"@,
            TokenView::Into => "into"@,
            TokenView::On => "on"@,
            TokenView::Values => "values"@,
            TokenView::Null => "null"@,
            TokenView::StringLiteral(s) => s,
            TokenView::NumberLiteral(i) => signed_decimal(i as int),
            TokenView::FloatNumberLiteral(f) => float_text(f),
            TokenView::BoolLiteral(b) => if b {
                "true"@
            } else {
                "false"@
            },
            TokenView::Identifier(s) => s,
            TokenView::Comma => ","@,
            TokenView::Semicolon => ";"@,
            TokenView::Star => "*"@,
            TokenView::Plus => "+"@,
            TokenView::Minus => "-"@,
            TokenView::Slash => "/"@,
            TokenView::CompareOp(s) => s,
            TokenView::ParOpen => "("@,
            TokenView::ParClose => ")"@,
            TokenView::DataType(s) => s,
            TokenView::LogicalOp(s) => s,
            TokenView::Not => "not"@,
            TokenView::ExclamationMark => "!"@,
            TokenView::Percent => "%"@,
        }
    }
}

impl LexerToken {
    /// Writes the token as queries write it: a keyword or mark in its lower-case form, a
    /// literal by its value, a name as it is. `write_float` writes a float from its bit
    /// pattern.
    pub fn text<W: Fn(u64) -> String>(&self, write_float: &W) -> (s: String)
        requires
            forall|bits: u64| #[trigger] write_float.requires((bits,)),
        ensures
            forall|float_text: spec_fn(u64) -> Seq<char>|
                (forall|bits: u64, written: String| #[trigger]
                    write_float.ensures((bits,), written) ==> written@ == float_text(bits))
                    ==> s@ == #[trigger] self@.text(float_text),
    {
        match self {
            LexerToken::Select => String::from_str("select"),
            LexerToken::Insert => String::from_str("insert"),
            LexerToken::Delete => String::from_str("delete"),
            LexerToken::Create => String::from_str("create"),
            LexerToken::Drop => String::from_str("drop"),
            LexerToken::Table => String::from_str("table"),
            LexerToken::Index => String::from_str("index"),
            LexerToken::Where => String::from_str("where"),
            LexerToken::From => String::from_str("from"),
            LexerToken::Into => String::from_str("into"),
            LexerToken::On => String::from_str("on"),
            LexerToken::Values => String::from_str("values"),
            LexerToken::Null => String::from_str("null"),
            LexerToken::StringLiteral(s) => s.clone(),
            LexerToken::NumberLiteral(i) => i32_to_string(*i),
            LexerToken::FloatNumberLiteral(f) => {
                assert(write_float.requires((*f,)));
                write_float(*f)
            },
            LexerToken::BoolLiteral(b) => if *b {
                String::from_str("true")
            } else {
                String::from_str("false")
            },
            LexerToken::Identifier(s) => s.clone(),
            LexerToken::Comma => String::from_str(","),
            LexerToken::Semicolon => String::from_str(";"),
            LexerToken::Star => String::from_str("*"),
            LexerToken::Plus => String::from_str("+"),
            LexerToken::Minus => String::from_str("-"),
            LexerToken::Slash => String::from_str("/"),
            LexerToken::CompareOp(s) => s.clone(),
            LexerToken::ParOpen => String::from_str("("),
            LexerToken::ParClose => String::from_str(")"),
            LexerToken::DataType(s) => s.clone(),
            LexerToken::LogicalOp(s) => s.clone(),
            LexerToken::Not => String::from_str("not"),
            LexerToken::ExclamationMark => String::from_str("!"),
            LexerToken::Percent => String::from_str("%"),
        }
    }
}

/// The lower-case form that Unicode gives a text.
pub uninterp spec fn lowercase_of(s: Seq<char>) -> Seq<char>;

/// `str::to_lowercase` of the standard library; the result is the named lower-case form.
#[verifier::external_body]
fn to_lowercase(s: &str) -> (r: String)
    ensures
        r@ == lowercase_of(s@),
{
    s.to_lowercase()
}

/// Whether the character is an ASCII decimal digit.
pub open spec fn is_digit(c: char) -> bool {
    '0' <= c && c <= '9'
}

/// The value of a decimal digit; zero for any other character.
pub open spec fn digit_of(c: char) -> nat {
    if is_digit(c) {
        (c as nat - '0' as nat) as nat
    } else {
        0
    }
}

/// The number that a sequence of decimal digits writes.
pub open spec fn digits_value(s: Seq<char>) -> nat
    decreases s.len(),
{
    if s.len() == 0 {
        0
    } else {
        digits_value(s.drop_last()) * 10 + digit_of(s.last())
    }
}

/// Whether every character is a decimal digit.
pub open spec fn all_digits(s: Seq<char>) -> bool {
    forall|i: int| 0 <= i < s.len() ==> is_digit(#[trigger] s[i])
}

/// The part of a numeral behind its sign.
pub open spec fn numeral_digits(s: Seq<char>) -> Seq<char> {
    if s.len() > 0 && (s[0] == '-' || s[0] == '+') {
        s.subrange(1, s.len() as int)
    } else {
        s
    }
}

/// The 32-bit signed integer that a text writes: an optional `+` or `-`, then one or more
/// decimal digits and nothing else, with a value in range.
pub open spec fn parse_i32_spec(s: Seq<char>) -> Option<i32> {
    let negative = s.len() > 0 && s[0] == '-';
    let digits = numeral_digits(s);
    let value = if negative {
        -(digits_value(digits) as int)
    } else {
        digits_value(digits) as int
    };
    if digits.len() == 0 || !all_digits(digits) || value < i32::MIN || value > i32::MAX {
        None
    } else {
        Some(value as i32)
    }
}

proof fn lemma_digits_value_prefix(s: Seq<char>, k: int)
    requires
        0 <= k <= s.len(),
    ensures
        digits_value(s.subrange(0, k)) <= digits_value(s),
    decreases s.len() - k,
{
    if k == s.len() {
        assert(s.subrange(0, k) =~= s);
    } else {
        lemma_digits_value_prefix(s, k + 1);
        let longer = s.subrange(0, k + 1);
        assert(longer.drop_last() =~= s.subrange(0, k));
        assert(digits_value(longer) == digits_value(s.subrange(0, k)) * 10 + digit_of(
            longer.last(),
        ));
    }
}

/// Reads a 32-bit signed integer from its decimal text.
pub fn parse_i32(s: &str) -> (r: Option<i32>)
    ensures
        r == parse_i32_spec(s@),
{
    let chars = chars_of(s);
    let n = chars.len();
    if n == 0 {
        return None;
    }
    let negative = chars[0] == '-';
    let first: usize = if chars[0] == '-' || chars[0] == '+' {
        1
    } else {
        0
    };
    let ghost digits = numeral_digits(s@);
    if first == n {
        return None;
    }
    let mut value: i64 = 0;
    let mut k: usize = first;
    assert(digits.subrange(0, 0) =~= Seq::<char>::empty());
    while k < n
        invariant
            chars@ == s@,
            n == chars@.len(),
            first <= k <= n,
            digits == numeral_digits(s@),
            digits.len() == n - first,
            forall|i: int| 0 <= i < n - first ==> digits[i] == chars@[first + i],
            value == digits_value(digits.subrange(0, k - first)),
            0 <= value <= 0x8000_0000,
            forall|i: int| 0 <= i < k - first ==> is_digit(#[trigger] digits[i]),
        decreases n - k,
    {
        let c = chars[k];
        if !('0' <= c && c <= '9') {
            assert(!is_digit(digits[k - first]));
            return None;
        }
        let d: i64 = (c as u32 - '0' as u32) as i64;
        let next = value * 10 + d;
        proof {
            let longer = digits.subrange(0, k + 1 - first);
            assert(longer.drop_last() =~= digits.subrange(0, k - first));
            assert(longer.last() == c);
            assert(d == digit_of(c));
            assert(next == digits_value(longer));
            lemma_digits_value_prefix(digits, k + 1 - first);
        }
        if next > 0x8000_0000 {
            return None;
        }
        value = next;
        k += 1;
    }
    assert(digits.subrange(0, k - first) =~= digits);
    if negative {
        Some((-value) as i32)
    } else if value > 0x7fff_ffff {
        None
    } else {
        Some(value as i32)
    }
}

/// Whether the character is a sign.
pub open spec fn is_sign(c: char) -> bool {
    c == '+' || c == '-'
}

/// The position behind the decimal digits that stand at `from`.
pub open spec fn digits_end(s: Seq<char>, from: int) -> int
    decreases s.len() - from,
{
    if 0 <= from < s.len() && is_digit(s[from]) {
        digits_end(s, from + 1)
    } else {
        from
    }
}

/// Whether the text from `start` on writes a decimal number: digits with an optional
/// point among, before or behind them, but at least one digit; then an optional exponent,
/// which is `e`, an optional sign and one or more digits.
pub open spec fn is_decimal_text(s: Seq<char>, start: int) -> bool {
    let whole_end = digits_end(s, start);
    let fraction_start = if whole_end < s.len() && s[whole_end] == '.' {
        whole_end + 1
    } else {
        whole_end
    };
    let fraction_end = digits_end(s, fraction_start);
    let exponent_start = if fraction_end + 1 < s.len() && is_sign(s[fraction_end + 1]) {
        fraction_end + 2
    } else {
        fraction_end + 1
    };
    &&& whole_end > start || fraction_end > fraction_start
    &&& fraction_end == s.len() || (s[fraction_end] == 'e' && exponent_start < s.len()
        && digits_end(s, exponent_start) == s.len())
}

/// Whether a lower-case text has the form of a float literal: an optional sign, and then
/// `inf`, `infinity`, `nan` or a decimal number.
pub open spec fn is_float_text(s: Seq<char>) -> bool {
    let start = if s.len() > 0 && is_sign(s[0]) {
        1int
    } else {
        0int
    };
    let body = s.subrange(start, s.len() as int);
    body == "inf"@ || body == "infinity"@ || body == "nan"@ || is_decimal_text(s, start)
}

fn skip_digits(chars: &Vec<char>, from: usize) -> (r: usize)
    requires
        from <= chars@.len(),
    ensures
        r == digits_end(chars@, from as int),
        from <= r <= chars@.len(),
{
    let n = chars.len();
    let mut k: usize = from;
    while k < n && '0' <= chars[k] && chars[k] <= '9'
        invariant
            n == chars@.len(),
            from <= k <= n,
            digits_end(chars@, from as int) == digits_end(chars@, k as int),
        decreases n - k,
    {
        k += 1;
    }
    k
}

fn rest_is(chars: &Vec<char>, from: usize, word: &str) -> (r: bool)
    requires
        from <= chars@.len(),
    ensures
        r == (chars@.subrange(from as int, chars@.len() as int) == word@),
{
    let letters = chars_of(word);
    let n = letters.len();
    let total = chars.len();
    if total - from != n {
        return false;
    }
    let ghost rest = chars@.subrange(from as int, chars@.len() as int);
    let mut k: usize = 0;
    while k < n
        invariant
            letters@ == word@,
            n == letters@.len(),
            total == chars@.len(),
            from + n == total,
            rest == chars@.subrange(from as int, chars@.len() as int),
            k <= n,
            forall|i: int| 0 <= i < k ==> rest[i] == letters@[i],
        decreases n - k,
    {
        if chars[from + k] != letters[k] {
            assert(rest[k as int] != letters@[k as int]);
            return false;
        }
        k += 1;
    }
    assert(rest =~= letters@);
    true
}

/// Decides whether a lower-case text has the form of a float literal.
pub fn is_float_literal(s: &str) -> (r: bool)
    ensures
        r == is_float_text(s@),
{
    let chars = chars_of(s);
    let n = chars.len();
    let start: usize = if n > 0 && (chars[0] == '+' || chars[0] == '-') {
        1
    } else {
        0
    };
    if rest_is(&chars, start, "inf") || rest_is(&chars, start, "infinity") || rest_is(
        &chars,
        start,
        "nan",
    ) {
        return true;
    }
    let whole_end = skip_digits(&chars, start);
    let fraction_start: usize = if whole_end < n && chars[whole_end] == '.' {
        whole_end + 1
    } else {
        whole_end
    };
    let fraction_end = skip_digits(&chars, fraction_start);
    if !(whole_end > start || fraction_end > fraction_start) {
        return false;
    }
    if fraction_end == n {
        return true;
    }
    if chars[fraction_end] != 'e' {
        return false;
    }
    let exponent_start: usize = if fraction_end + 1 < n && (chars[fraction_end + 1] == '+'
        || chars[fraction_end + 1] == '-') {
        fraction_end + 2
    } else {
        fraction_end + 1
    };
    exponent_start < n && skip_digits(&chars, exponent_start) == n
}

/// Whether a character may stand in an identifier, given whether it is alphanumeric.
pub open spec fn identifier_char_given(c: char, alphanumeric: bool) -> bool {
    alphanumeric || c == '.' || c == '_' || c == '-'
}

/// Whether a character may stand in an identifier.
pub open spec fn identifier_char(c: char) -> bool {
    identifier_char_given(c, char_is_alphanumeric(c))
}

/// Decides whether a character may stand in an identifier. `alphanumeric` says whether the
/// character is alphabetic or numeric.
pub fn is_identifier_char(c: char, alphanumeric: bool) -> (r: bool)
    ensures
        r == identifier_char_given(c, alphanumeric),
{
    alphanumeric || c == '.' || c == '_' || c == '-'
}

/// The position of the first character that may not stand in an identifier, if there is one.
pub open spec fn first_invalid_identifier_char(s: Seq<char>, from: int) -> Option<int>
    decreases s.len() - from,
{
    if from < 0 || from >= s.len() {
        None
    } else if !identifier_char(s[from]) {
        Some(from)
    } else {
        first_invalid_identifier_char(s, from + 1)
    }
}

/// Whether a lexeme is a string literal: at least two characters, the first and the last
/// one and the same quote.
pub open spec fn is_quoted(lexeme: Seq<char>) -> bool {
    lexeme.len() >= 2 && lexeme.first() == lexeme.last() && (lexeme.first() == '"'
        || lexeme.first() == '\'')
}

/// The token for a lexeme that is no keyword, operator or punctuation mark, given what was
/// found out about it: the integer that it writes, if it writes one; the float that it
/// writes, if it writes one; and the position of its first character that may not stand in
/// an identifier, if it has one. A quoted lexeme is a string literal without its quotes;
/// else an integer comes before a float, and a float before an identifier.
pub open spec fn literal_token_spec(
    lexeme: Seq<char>,
    number: Option<i32>,
    float: Option<u64>,
    invalid_at: Option<int>,
) -> Result<TokenView, ParseErrorView> {
    if is_quoted(lexeme) {
        Ok(TokenView::StringLiteral(lexeme.subrange(1, lexeme.len() - 1)))
    } else if number is Some {
        Ok(TokenView::NumberLiteral(number->0))
    } else if float is Some {
        Ok(TokenView::FloatNumberLiteral(float->0))
    } else {
        match invalid_at {
            Some(at) => Err(ParseErrorView::InvalidIdentifier(lexeme[at], lexeme)),
            None => Ok(TokenView::Identifier(lexeme)),
        }
    }
}

/// The token for a lexeme that is no keyword, operator or punctuation mark: a string literal,
/// a number, or an identifier. `float` is the number that the lower-case form writes as a
/// 64-bit float, if it writes one.
pub open spec fn classify_literal(lexeme: Seq<char>, lower: Seq<char>, float: Option<u64>) -> Result<
    TokenView,
    ParseErrorView,
> {
    literal_token_spec(
        lexeme,
        parse_i32_spec(lower),
        float,
        first_invalid_identifier_char(lexeme, 0),
    )
}

/// The keyword, operator or punctuation token that a lower-case lexeme names, if it names one.
/// `lexeme` is the text as written, which a comparison operator keeps.
pub open spec fn classify_reserved(lexeme: Seq<char>, lower: Seq<char>) -> Option<TokenView> {
    if lower == "select"@ {
        Some(TokenView::Select)
    } else if lower == "insert"@ {
        Some(TokenView::Insert)
    } else if lower == "delete"@ {
        Some(TokenView::Delete)
    } else if lower == "create"@ {
        Some(TokenView::Create)
    } else if lower == "drop"@ {
        Some(TokenView::Drop)
    } else if lower == "table"@ {
        Some(TokenView::Table)
    } else if lower == "index"@ {
        Some(TokenView::Index)
    } else if lower == "where"@ {
        Some(TokenView::Where)
    } else if lower == "from"@ {
        Some(TokenView::From)
    } else if lower == "into"@ {
        Some(TokenView::Into)
    } else if lower == "on"@ {
        Some(TokenView::On)
    } else if lower == "values"@ {
        Some(TokenView::Values)
    } else if lower == "null"@ {
        Some(TokenView::Null)
    } else if lower == "true"@ {
        Some(TokenView::BoolLiteral(true))
    } else if lower == "false"@ {
        Some(TokenView::BoolLiteral(false))
    } else if lower == "="@ || lower == "!="@ || lower == ">"@ || lower == "<"@ || lower == "<="@
        || lower == ">="@ || lower == "<>"@ {
        Some(TokenView::CompareOp(lexeme))
    } else if lower == "("@ {
        Some(TokenView::ParOpen)
    } else if lower == ")"@ {
        Some(TokenView::ParClose)
    } else if lower == "int"@ || lower == "varchar"@ || lower == "float"@ || lower == "boolean"@ {
        Some(TokenView::DataType(lower))
    } else if lower == "and"@ || lower == "or"@ || lower == "xor"@ {
        Some(TokenView::LogicalOp(lower))
    } else if lower == "not"@ {
        Some(TokenView::Not)
    } else if lower == "*"@ {
        Some(TokenView::Star)
    } else if lower == "+"@ {
        Some(TokenView::Plus)
    } else if lower == "-"@ {
        Some(TokenView::Minus)
    } else if lower == "/"@ {
        Some(TokenView::Slash)
    } else if lower == "%"@ {
        Some(TokenView::Percent)
    } else if lower == ","@ {
        Some(TokenView::Comma)
    } else if lower == ";"@ {
        Some(TokenView::Semicolon)
    } else if lower == "!"@ {
        Some(TokenView::ExclamationMark)
    } else {
        None
    }
}

/// The token of one lexeme, given its lower-case form and a reader of float literals. The
/// reader is asked only about a text that has the form of a float literal.
pub open spec fn classify(
    lexeme: Seq<char>,
    lower: Seq<char>,
    floats: spec_fn(Seq<char>) -> Option<u64>,
) -> Result<TokenView, ParseErrorView> {
    match classify_reserved(lexeme, lower) {
        Some(token) => Ok(token),
        None => classify_literal(
            lexeme,
            lower,
            if is_float_text(lower) {
                floats(lower)
            } else {
                None
            },
        ),
    }
}

/// The tokens of a sequence of lexemes, or the error of the first lexeme that has none.
pub open spec fn lex_lexemes(
    lexemes: Seq<Seq<char>>,
    floats: spec_fn(Seq<char>) -> Option<u64>,
) -> Result<Seq<TokenView>, ParseErrorView>
    decreases lexemes.len(),
{
    if lexemes.len() == 0 {
        Ok(Seq::empty())
    } else {
        match lex_lexemes(lexemes.drop_last(), floats) {
            Err(e) => Err(e),
            Ok(tokens) => match classify(lexemes.last(), lowercase_of(lexemes.last()), floats) {
                Err(e) => Err(e),
                Ok(token) => Ok(tokens.push(token)),
            },
        }
    }
}

/// The tokens of a query text.
pub open spec fn lex_spec(input: Seq<char>, floats: spec_fn(Seq<char>) -> Option<u64>) -> Result<
    Seq<TokenView>,
    ParseErrorView,
> {
    match tokenize_spec(input) {
        Err(e) => Err(e),
        Ok(lexemes) => lex_lexemes(lexemes, floats),
    }
}

/// A reader of floats that is never consulted: it stands in where no lexeme is read as a
/// float.
pub open spec fn no_float_texts() -> spec_fn(Seq<char>) -> Option<u64> {
    |s: Seq<char>| None::<u64>
}

/// Whether the token of a lexeme is settled without reading the lexeme as a float: it is a
/// keyword, operator or punctuation mark, a string literal, or an integer, or it has not
/// the form of a float literal.
pub open spec fn settled_without_floats(lexeme: Seq<char>, lower: Seq<char>) -> bool {
    classify_reserved(lexeme, lower) is Some || is_quoted(lexeme) || parse_i32_spec(lower) is Some
        || !is_float_text(lower)
}

/// Whether the token of every lexeme is settled without reading it as a float.
pub open spec fn all_settled_without_floats(lexemes: Seq<Seq<char>>) -> bool {
    forall|i: int|
        0 <= i < lexemes.len() ==> settled_without_floats(
            #[trigger] lexemes[i],
            lowercase_of(lexemes[i]),
        )
}

/// Whether the tokens of a query text are settled without reading a lexeme as a float.
pub open spec fn lexing_needs_floats(input: Seq<char>) -> bool {
    tokenize_spec(input) matches Ok(lexemes) && !all_settled_without_floats(lexemes)
}

/// Whether `floats` says what the reader `read` returns on every text.
pub open spec fn reads_floats_as<P: Fn(&str) -> Option<u64>>(
    read: &P,
    floats: spec_fn(Seq<char>) -> Option<u64>,
) -> bool {
    forall|s: &str, r: Option<u64>| #[trigger] read.ensures((s,), r) ==> r == floats(s@)
}

/// Whether the reader can be called on every text.
pub open spec fn float_reader_total<P: Fn(&str) -> Option<u64>>(read: &P) -> bool {
    forall|s: &str| #[trigger] read.requires((s,))
}

/// The view of a token or the error in its place.
pub open spec fn token_result_view(r: ParseResult<LexerToken>) -> Result<TokenView, ParseErrorView> {
    match r {
        Ok(token) => Ok(token@),
        Err(e) => Err(e@),
    }
}

/// The view of a lexer result.
pub open spec fn lex_result_view(r: ParseResult<Vec<LexerToken>>) -> Result<
    Seq<TokenView>,
    ParseErrorView,
> {
    match r {
        Ok(tokens) => Ok(tokens_view(tokens@)),
        Err(e) => Err(e@),
    }
}

fn find_invalid_identifier_char(chars: &Vec<char>) -> (r: Option<usize>)
    ensures
        match r {
            Some(at) => first_invalid_identifier_char(chars@, 0) == Some(at as int) && at
                < chars@.len(),
            None => first_invalid_identifier_char(chars@, 0) is None,
        },
{
    let n = chars.len();
    let mut k: usize = 0;
    while k < n
        invariant
            n == chars@.len(),
            k <= n,
            first_invalid_identifier_char(chars@, 0) == first_invalid_identifier_char(
                chars@,
                k as int,
            ),
        decreases n - k,
    {
        let c = chars[k];
        if !is_identifier_char(c, is_alphanumeric(c)) {
            return Some(k);
        }
        k += 1;
    }
    None
}

fn reserved_token(token_str: &str, token_lower: &str) -> (r: Option<LexerToken>)
    ensures
        match r {
            Some(token) => classify_reserved(token_str@, token_lower@) == Some(token@),
            None => classify_reserved(token_str@, token_lower@) is None,
        },
{
    if str_equal(token_lower, "select") {
        Some(LexerToken::Select)
    } else if str_equal(token_lower, "insert") {
        Some(LexerToken::Insert)
    } else if str_equal(token_lower, "delete") {
        Some(LexerToken::Delete)
    } else if str_equal(token_lower, "create") {
        Some(LexerToken::Create)
    } else if str_equal(token_lower, "drop") {
        Some(LexerToken::Drop)
    } else if str_equal(token_lower, "table") {
        Some(LexerToken::Table)
    } else if str_equal(token_lower, "index") {
        Some(LexerToken::Index)
    } else if str_equal(token_lower, "where") {
        Some(LexerToken::Where)
    } else if str_equal(token_lower, "from") {
        Some(LexerToken::From)
    } else if str_equal(token_lower, "into") {
        Some(LexerToken::Into)
    } else if str_equal(token_lower, "on") {
        Some(LexerToken::On)
    } else if str_equal(token_lower, "values") {
        Some(LexerToken::Values)
    } else if str_equal(token_lower, "null") {
        Some(LexerToken::Null)
    } else if str_equal(token_lower, "true") {
        Some(LexerToken::BoolLiteral(true))
    } else if str_equal(token_lower, "false") {
        Some(LexerToken::BoolLiteral(false))
    } else if str_equal(token_lower, "=") || str_equal(token_lower, "!=") || str_equal(
        token_lower,
        ">",
    ) || str_equal(token_lower, "<") || str_equal(token_lower, "<=") || str_equal(
        token_lower,
        ">=",
    ) || str_equal(token_lower, "<>") {
        Some(LexerToken::CompareOp(token_str.to_owned()))
    } else if str_equal(token_lower, "(") {
        Some(LexerToken::ParOpen)
    } else if str_equal(token_lower, ")") {
        Some(LexerToken::ParClose)
    } else if str_equal(token_lower, "int") || str_equal(token_lower, "varchar") || str_equal(
        token_lower,
        "float",
    ) || str_equal(token_lower, "boolean") {
        Some(LexerToken::DataType(token_lower.to_owned()))
    } else if str_equal(token_lower, "and") || str_equal(token_lower, "or") || str_equal(
        token_lower,
        "xor",
    ) {
        Some(LexerToken::LogicalOp(token_lower.to_owned()))
    } else if str_equal(token_lower, "not") {
        Some(LexerToken::Not)
    } else if str_equal(token_lower, "*") {
        Some(LexerToken::Star)
    } else if str_equal(token_lower, "+") {
        Some(LexerToken::Plus)
    } else if str_equal(token_lower, "-") {
        Some(LexerToken::Minus)
    } else if str_equal(token_lower, "/") {
        Some(LexerToken::Slash)
    } else if str_equal(token_lower, "%") {
        Some(LexerToken::Percent)
    } else if str_equal(token_lower, ",") {
        Some(LexerToken::Comma)
    } else if str_equal(token_lower, ";") {
        Some(LexerToken::Semicolon)
    } else if str_equal(token_lower, "!") {
        Some(LexerToken::ExclamationMark)
    } else {
        None
    }
}

/// The position as a mathematical integer.
pub open spec fn position_view(at: Option<usize>) -> Option<int> {
    match at {
        Some(i) => Some(i as int),
        None => None,
    }
}

/// Gives a lexeme that is no keyword, operator or punctuation mark its token, from what was
/// found out about it: the integer and the float that it writes, if it writes them, and the
/// position of its first character that may not stand in an identifier.
pub fn literal_token(
    token_str: &str,
    number: Option<i32>,
    float: Option<u64>,
    invalid_at: Option<usize>,
) -> (r: ParseResult<LexerToken>)
    requires
        invalid_at matches Some(at) ==> at < token_str@.len(),
    ensures
        token_result_view(r) == literal_token_spec(
            token_str@,
            number,
            float,
            position_view(invalid_at),
        ),
{
    let chars = chars_of(token_str);
    let n = chars.len();
    if n >= 2 && chars[0] == chars[n - 1] && (chars[0] == '"' || chars[0] == '\'') {
        let body = token_str.substring_char(1, n - 1);
        return Ok(LexerToken::StringLiteral(body.to_owned()));
    }
    if let Some(number) = number {
        return Ok(LexerToken::NumberLiteral(number));
    }
    if let Some(bits) = float {
        return Ok(LexerToken::FloatNumberLiteral(bits));
    }
    match invalid_at {
        Some(at) => Err(ParseError::InvalidIdentifier(chars[at], token_str.to_owned())),
        None => Ok(LexerToken::Identifier(token_str.to_owned())),
    }
}

/// Gives one lexeme its token. `token_lower` is the lower-case form of `token_str`, by which
/// keywords are matched; identifiers and string literals keep the text as written.
/// `parse_float` reads a float literal and returns its bit pattern; it is asked only about
/// a text that has the form of a float literal.
pub fn classify_lexeme<P: Fn(&str) -> Option<u64>>(
    token_str: &str,
    token_lower: &str,
    parse_float: &P,
) -> (r: ParseResult<LexerToken>)
    requires
        float_reader_total(parse_float),
    ensures
        forall|floats: spec_fn(Seq<char>) -> Option<u64>| #[trigger]
            reads_floats_as(parse_float, floats) ==> token_result_view(r) == classify(
                token_str@,
                token_lower@,
                floats,
            ),
        settled_without_floats(token_str@, token_lower@) ==> token_result_view(r) == classify(
            token_str@,
            token_lower@,
            no_float_texts(),
        ),
{
    if let Some(token) = reserved_token(token_str, token_lower) {
        return Ok(token);
    }
    let chars = chars_of(token_str);
    let number = parse_i32(token_lower);
    let float = if is_float_literal(token_lower) {
        assert(float_reader_total(parse_float));
        assert(parse_float.requires((token_lower,)));
        parse_float(token_lower)
    } else {
        None
    };
    let invalid_at = find_invalid_identifier_char(&chars);
    literal_token(token_str, number, float, invalid_at)
}

/// Turns a query text into typed tokens: keywords and operators are matched without regard
/// to case, literals are read, and everything else must be an identifier.
pub fn lex<P: Fn(&str) -> Option<u64>>(input: &str, parse_float: &P) -> (r: ParseResult<
    Vec<LexerToken>,
>)
    requires
        float_reader_total(parse_float),
    ensures
        forall|floats: spec_fn(Seq<char>) -> Option<u64>| #[trigger]
            reads_floats_as(parse_float, floats) ==> lex_result_view(r) == lex_spec(input@, floats),
        !lexing_needs_floats(input@) ==> lex_result_view(r) == lex_spec(input@, no_float_texts()),
{
    let lexemes = match tokenize(input) {
        Ok(lexemes) => lexemes,
        Err(e) => {
            return Err(e);
        },
    };
    let mut tokens: Vec<LexerToken> = Vec::new();
    let n = lexemes.len();
    let mut k: usize = 0;
    assert(tokens_view(tokens@) =~= Seq::<TokenView>::empty());
    while k < n
        invariant
            float_reader_total(parse_float),
            n == lexemes@.len(),
            k <= n,
            tokenize_spec(input@) == Ok::<Seq<Seq<char>>, ParseErrorView>(strs_view(lexemes@)),
            forall|floats: spec_fn(Seq<char>) -> Option<u64>| #[trigger]
                reads_floats_as(parse_float, floats) ==> lex_lexemes(
                    strs_view(lexemes@).subrange(0, k as int),
                    floats,
                ) == Ok::<Seq<TokenView>, ParseErrorView>(tokens_view(tokens@)),
            all_settled_without_floats(strs_view(lexemes@)) ==> lex_lexemes(
                strs_view(lexemes@).subrange(0, k as int),
                no_float_texts(),
            ) == Ok::<Seq<TokenView>, ParseErrorView>(tokens_view(tokens@)),
        decreases n - k,
    {
        let token_str = lexemes[k];
        let token_lower = to_lowercase(token_str);
        let classified = classify_lexeme(token_str, token_lower.as_str(), parse_float);
        proof {
            let all = strs_view(lexemes@);
            let longer = all.subrange(0, k + 1);
            assert(longer.drop_last() =~= all.subrange(0, k as int));
            assert(longer.last() == token_str@);
            assert(all[k as int] == token_str@);
        }
        match classified {
            Ok(token) => {
                let ghost before = tokens_view(tokens@);
                tokens.push(token);
                assert(tokens_view(tokens@) =~= before.push(token@));
            },
            Err(e) => {
                proof {
                    assert forall|floats: spec_fn(Seq<char>) -> Option<u64>| #[trigger]
                        reads_floats_as(parse_float, floats) implies Err::<
                        Seq<TokenView>,
                        ParseErrorView,
                    >(e@) == lex_spec(input@, floats) by {
                        lemma_lex_error_stays(strs_view(lexemes@), k + 1, floats);
                    }
                    if all_settled_without_floats(strs_view(lexemes@)) {
                        lemma_lex_error_stays(strs_view(lexemes@), k + 1, no_float_texts());
                    }
                }
                return Err(e);
            },
        }
        k += 1;
    }
    assert(strs_view(lexemes@).subrange(0, k as int) =~= strs_view(lexemes@));
    Ok(tokens)
}

proof fn lemma_lex_error_stays(
    lexemes: Seq<Seq<char>>,
    k: int,
    floats: spec_fn(Seq<char>) -> Option<u64>,
)
    requires
        0 <= k <= lexemes.len(),
        lex_lexemes(lexemes.subrange(0, k), floats) is Err,
    ensures
        lex_lexemes(lexemes, floats) == lex_lexemes(lexemes.subrange(0, k), floats),
    decreases lexemes.len() - k,
{
    if k == lexemes.len() {
        assert(lexemes.subrange(0, k) =~= lexemes);
    } else {
        let longer = lexemes.subrange(0, k + 1);
        assert(longer.drop_last() =~= lexemes.subrange(0, k));
        lemma_lex_error_stays(lexemes, k + 1, floats);
    }
}

} // verus!
