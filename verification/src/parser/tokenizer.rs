//! Splits a query text into lexemes.
use vstd::prelude::*;
use vstd::string::*;
use crate::parser::errors::{ParseError, ParseErrorView, ParseResult};
use crate::text::chars_of;

verus! {

/// Whether Unicode classes the character as alphabetic or numeric.
pub uninterp spec fn char_is_alphanumeric(c: char) -> bool;

/// `char::is_alphanumeric` of the standard library; the result is the named Unicode property.
#[verifier::external_body]
pub(crate) fn is_alphanumeric(c: char) -> (r: bool)
    ensures
        r == char_is_alphanumeric(c),
{
    c.is_alphanumeric()
}


/// Whether the character is one of the ASCII punctuation marks.
pub open spec fn char_is_ascii_punctuation(c: char) -> bool {
    ('!' <= c && c <= '/') || (':' <= c && c <= '@') || ('[' <= c && c <= '`') || ('{' <= c && c
        <= '~')
}

/// Whether a character may stand in a lexeme outside a string literal.
pub open spec fn allowed_identifier_char(c: char) -> bool {
    char_is_alphanumeric(c) || char_is_ascii_punctuation(c)
}

/// Decides `allowed_identifier_char`.
pub fn is_allowed_identifier_char(ch: char) -> (r: bool)
    ensures
        r == allowed_identifier_char(ch),
{
    is_alphanumeric(ch) || ('!' <= ch && ch <= '/') || (':' <= ch && ch <= '@') || ('[' <= ch
        && ch <= '`') || ('{' <= ch && ch <= '~')
}

/// Where the tokenizer stands between two characters.
#[derive(Copy, Clone, PartialEq, Eq, Debug, Structural)]
pub enum TokenizerState {
    /// Outside any string literal.
    Normal,
    /// Inside a string literal that the given quote opened.
    InString(char),
    /// Inside a string literal, right after a backslash.
    EscapedInString(char),
    /// On the second character of a two-character operator.
    TwoCharOp,
}

/// Whether the character is white space: a space, a tab, a line break, or another of the
/// characters that Unicode classes as white space.
pub open spec fn is_whitespace_char(c: char) -> bool {
    c == ' ' || ('\t' <= c && c <= '\r') || c == '\u{85}' || c == '\u{a0}' || c == '\u{1680}' || (
    '\u{2000}' <= c && c <= '\u{200a}') || c == '\u{2028}' || c == '\u{2029}' || c == '\u{202f}'
        || c == '\u{205f}' || c == '\u{3000}'
}

/// The marks that end a lexeme and are lexemes themselves.
pub open spec fn is_separator(c: char) -> bool {
    c == '(' || c == ')' || c == ',' || c == ';' || c == '=' || c == '+' || c == '-'
}

/// Whether the two characters together are one of `<= >= <> !=`.
pub open spec fn is_two_char_operator(first: char, second: char) -> bool {
    (first == '<' && second == '=') || (first == '>' && second == '=') || (first == '<' && second
        == '>') || (first == '!' && second == '=')
}

/// The characters that may follow the closing quote of a string literal.
pub open spec fn may_follow_literal(c: char) -> bool {
    c == ' ' || c == ',' || c == ';' || c == '=' || c == ')'
}

/// `acc` with `lexeme` added at its end, unless the lexeme is empty.
pub open spec fn push_lexeme(acc: Seq<Seq<char>>, lexeme: Seq<char>) -> Seq<Seq<char>> {
    if lexeme.len() == 0 {
        acc
    } else {
        acc.push(lexeme)
    }
}

/// What reading a character does to the lexemes.
#[derive(Copy, Clone, PartialEq, Eq, Debug, Structural)]
pub enum TokenizerAction {
    /// The character joins the lexeme under way.
    Continue,
    /// The lexeme under way ends before the character, and the character is dropped.
    EndLexeme,
    /// The lexeme under way ends before the character, and the character is a lexeme of
    /// its own.
    EndLexemeAndMark,
    /// The lexeme under way ends with the character.
    EndLiteral,
    /// The lexeme under way ends before the previous character, and the previous character
    /// and this one are a lexeme of their own.
    EndLexemeAndOperator,
    /// The character may not stand here.
    Reject,
    /// The character behind this one may not stand there.
    RejectNext,
}

/// The transition of the tokenizer: the next state and the action for a character `c` read
/// in `state`, given the character behind it, if there is one, and whether `c` may stand in
/// a lexeme outside a string literal.
pub open spec fn transition(state: TokenizerState, c: char, next: Option<char>, allowed: bool) -> (
    TokenizerState,
    TokenizerAction,
) {
    match state {
        TokenizerState::Normal => {
            if is_whitespace_char(c) {
                (TokenizerState::Normal, TokenizerAction::EndLexeme)
            } else if is_separator(c) {
                (TokenizerState::Normal, TokenizerAction::EndLexemeAndMark)
            } else if c == '"' || c == '\'' {
                (TokenizerState::InString(c), TokenizerAction::Continue)
            } else if c == '\\' {
                (TokenizerState::Normal, TokenizerAction::Reject)
            } else if c == '>' || c == '<' || c == '!' {
                if next is Some && is_two_char_operator(c, next->0) {
                    (TokenizerState::TwoCharOp, TokenizerAction::Continue)
                } else {
                    (TokenizerState::Normal, TokenizerAction::EndLexemeAndMark)
                }
            } else if allowed {
                (TokenizerState::Normal, TokenizerAction::Continue)
            } else {
                (TokenizerState::Normal, TokenizerAction::Reject)
            }
        },
        TokenizerState::InString(quote) => {
            if c == '\\' {
                (TokenizerState::EscapedInString(quote), TokenizerAction::Continue)
            } else if c == quote {
                if next is Some && !may_follow_literal(next->0) {
                    (TokenizerState::Normal, TokenizerAction::RejectNext)
                } else {
                    (TokenizerState::Normal, TokenizerAction::EndLiteral)
                }
            } else {
                (TokenizerState::InString(quote), TokenizerAction::Continue)
            }
        },
        TokenizerState::EscapedInString(quote) => (
            TokenizerState::InString(quote),
            TokenizerAction::Continue,
        ),
        TokenizerState::TwoCharOp => (
            TokenizerState::Normal,
            TokenizerAction::EndLexemeAndOperator,
        ),
    }
}

/// Decides the transition of the tokenizer. `allowed` says whether `c` may stand in a
/// lexeme outside a string literal.
pub fn tokenizer_transition(state: TokenizerState, c: char, next: Option<char>, allowed: bool) -> (r:
    (TokenizerState, TokenizerAction))
    ensures
        r == transition(state, c, next, allowed),
{
    match state {
        TokenizerState::Normal => {
            if c == ' ' || ('\t' <= c && c <= '\r') || c == '\u{85}' || c == '\u{a0}' || c
                == '\u{1680}' || ('\u{2000}' <= c && c <= '\u{200a}') || c == '\u{2028}' || c
                == '\u{2029}' || c == '\u{202f}' || c == '\u{205f}' || c == '\u{3000}' {
                (TokenizerState::Normal, TokenizerAction::EndLexeme)
            } else if c == '(' || c == ')' || c == ',' || c == ';' || c == '=' || c == '+' || c
                == '-' {
                (TokenizerState::Normal, TokenizerAction::EndLexemeAndMark)
            } else if c == '"' || c == '\'' {
                (TokenizerState::InString(c), TokenizerAction::Continue)
            } else if c == '\\' {
                (TokenizerState::Normal, TokenizerAction::Reject)
            } else if c == '>' || c == '<' || c == '!' {
                let combines = match next {
                    Some(d) => (c == '<' && d == '=') || (c == '>' && d == '=') || (c == '<' && d
                        == '>') || (c == '!' && d == '='),
                    None => false,
                };
                if combines {
                    (TokenizerState::TwoCharOp, TokenizerAction::Continue)
                } else {
                    (TokenizerState::Normal, TokenizerAction::EndLexemeAndMark)
                }
            } else if allowed {
                (TokenizerState::Normal, TokenizerAction::Continue)
            } else {
                (TokenizerState::Normal, TokenizerAction::Reject)
            }
        },
        TokenizerState::InString(quote) => {
            if c == '\\' {
                (TokenizerState::EscapedInString(quote), TokenizerAction::Continue)
            } else if c == quote {
                let follows = match next {
                    Some(d) => d == ' ' || d == ',' || d == ';' || d == '=' || d == ')',
                    None => true,
                };
                if follows {
                    (TokenizerState::Normal, TokenizerAction::EndLiteral)
                } else {
                    (TokenizerState::Normal, TokenizerAction::RejectNext)
                }
            } else {
                (TokenizerState::InString(quote), TokenizerAction::Continue)
            }
        },
        TokenizerState::EscapedInString(quote) => (
            TokenizerState::InString(quote),
            TokenizerAction::Continue,
        ),
        TokenizerState::TwoCharOp => (
            TokenizerState::Normal,
            TokenizerAction::EndLexemeAndOperator,
        ),
    }
}

/// The state of the tokenizer before the character at `pos`: the machine state,
/// where the lexeme under way began, and the lexemes produced so far.
pub struct TokenizerProgress {
    pub state: TokenizerState,
    pub start: int,
    pub lexemes: Seq<Seq<char>>,
}

/// The character behind position `pos`, if there is one.
pub open spec fn char_behind(chars: Seq<char>, pos: int) -> Option<char> {
    if pos + 1 < chars.len() {
        Some(chars[pos + 1])
    } else {
        None
    }
}

/// One step of the tokenizer: what reading the character at `pos` does to the progress.
pub open spec fn tokenizer_step(chars: Seq<char>, pos: int, p: TokenizerProgress) -> Result<
    TokenizerProgress,
    ParseErrorView,
> {
    let c = chars[pos];
    let (state, action) = transition(
        p.state,
        c,
        char_behind(chars, pos),
        allowed_identifier_char(c),
    );
    match action {
        TokenizerAction::Continue => Ok(TokenizerProgress { state, ..p }),
        TokenizerAction::EndLexeme => Ok(
            TokenizerProgress {
                state,
                start: pos + 1,
                lexemes: push_lexeme(p.lexemes, chars.subrange(p.start, pos)),
            },
        ),
        TokenizerAction::EndLexemeAndMark => Ok(
            TokenizerProgress {
                state,
                start: pos + 1,
                lexemes: push_lexeme(p.lexemes, chars.subrange(p.start, pos)).push(seq![c]),
            },
        ),
        TokenizerAction::EndLiteral => Ok(
            TokenizerProgress {
                state,
                start: pos + 1,
                lexemes: p.lexemes.push(chars.subrange(p.start, pos + 1)),
            },
        ),
        TokenizerAction::EndLexemeAndOperator => Ok(
            TokenizerProgress {
                state,
                start: pos + 1,
                lexemes: push_lexeme(p.lexemes, chars.subrange(p.start, pos - 1)).push(
                    chars.subrange(pos - 1, pos + 1),
                ),
            },
        ),
        TokenizerAction::Reject => Err(ParseErrorView::InvalidChar(c, pos)),
        TokenizerAction::RejectNext => Err(ParseErrorView::InvalidChar(chars[pos + 1], pos + 1)),
    }
}

/// What the tokenizer returns once the input is used up.
pub open spec fn tokenizer_finish(chars: Seq<char>, p: TokenizerProgress) -> Result<
    Seq<Seq<char>>,
    ParseErrorView,
> {
    match p.state {
        TokenizerState::Normal => Ok(
            push_lexeme(p.lexemes, chars.subrange(p.start, chars.len() as int)),
        ),
        _ => Err(
            ParseErrorView::UnfinishedStringLiteral(chars.subrange(p.start, chars.len() as int)),
        ),
    }
}

/// The tokenizer run from position `pos` to the end of the input.
pub open spec fn tokenize_from(chars: Seq<char>, pos: int, p: TokenizerProgress) -> Result<
    Seq<Seq<char>>,
    ParseErrorView,
>
    decreases chars.len() - pos,
{
    if pos < 0 || pos >= chars.len() {
        tokenizer_finish(chars, p)
    } else {
        match tokenizer_step(chars, pos, p) {
            Ok(next) => tokenize_from(chars, pos + 1, next),
            Err(e) => Err(e),
        }
    }
}

/// The lexemes of a query text: the tokenizer run over all of it from its initial state.
pub open spec fn tokenize_spec(chars: Seq<char>) -> Result<Seq<Seq<char>>, ParseErrorView> {
    tokenize_from(
        chars,
        0,
        TokenizerProgress { state: TokenizerState::Normal, start: 0, lexemes: Seq::empty() },
    )
}

/// The texts of a sequence of string slices.
pub open spec fn strs_view(tokens: Seq<&str>) -> Seq<Seq<char>> {
    tokens.map_values(|s: &str| s@)
}

/// The view of a tokenizer result.
pub open spec fn tokenize_result_view(r: ParseResult<Vec<&str>>) -> Result<
    Seq<Seq<char>>,
    ParseErrorView,
> {
    match r {
        Ok(tokens) => Ok(strs_view(tokens@)),
        Err(e) => Err(e@),
    }
}

/// Whether none of the string slices is empty.
pub open spec fn all_nonempty(tokens: Seq<&str>) -> bool {
    forall|k: int| 0 <= k < tokens.len() ==> (#[trigger] tokens[k])@.len() > 0
}

fn push_slice<'a>(tokens: &mut Vec<&'a str>, input: &'a str, from: usize, to: usize)
    requires
        from <= to <= input@.len(),
    ensures
        strs_view(final(tokens)@) == push_lexeme(
            strs_view(old(tokens)@),
            input@.subrange(from as int, to as int),
        ),
        all_nonempty(old(tokens)@) ==> all_nonempty(final(tokens)@),
{
    if from < to {
        let piece = input.substring_char(from, to);
        tokens.push(piece);
        assert(strs_view(tokens@) =~= strs_view(old(tokens)@).push(piece@));
    }
}

/// Splits a query text into its lexemes. White space separates lexemes and is dropped;
/// `( ) , ; = + -` and the comparison operators are lexemes of their own; a string literal is
/// one lexeme that keeps its quotes and ends at the quote that opened it. No lexeme is
/// empty.
pub fn tokenize(input: &str) -> (r: ParseResult<Vec<&str>>)
    ensures
        tokenize_result_view(r) == tokenize_spec(input@),
        r matches Ok(tokens) ==> all_nonempty(tokens@),
{
    let chars = chars_of(input);
    let n = chars.len();
    let mut tokens: Vec<&str> = Vec::new();
    let mut state = TokenizerState::Normal;
    let mut start: usize = 0;
    let mut pos: usize = 0;
    assert(strs_view(tokens@) =~= Seq::<Seq<char>>::empty());
    while pos < n
        invariant
            chars@ == input@,
            n == chars@.len(),
            pos <= n,
            start <= pos,
            state == TokenizerState::TwoCharOp ==> start < pos,
            all_nonempty(tokens@),
            tokenize_spec(input@) == tokenize_from(
                input@,
                pos as int,
                TokenizerProgress {
                    state,
                    start: start as int,
                    lexemes: strs_view(tokens@),
                },
            ),
        decreases n - pos,
    {
        let c = chars[pos];
        let next = if pos + 1 < n {
            Some(chars[pos + 1])
        } else {
            None
        };
        let ghost before = TokenizerProgress {
            state,
            start: start as int,
            lexemes: strs_view(tokens@),
        };
        let allowed = is_allowed_identifier_char(c);
        let (new_state, action) = tokenizer_transition(state, c, next, allowed);
        match action {
            TokenizerAction::Continue => {},
            TokenizerAction::EndLexeme => {
                push_slice(&mut tokens, input, start, pos);
                start = pos + 1;
            },
            TokenizerAction::EndLexemeAndMark => {
                push_slice(&mut tokens, input, start, pos);
                push_slice(&mut tokens, input, pos, pos + 1);
                assert(input@.subrange(pos as int, pos + 1) =~= seq![c]);
                start = pos + 1;
            },
            TokenizerAction::EndLiteral => {
                push_slice(&mut tokens, input, start, pos + 1);
                start = pos + 1;
            },
            TokenizerAction::EndLexemeAndOperator => {
                push_slice(&mut tokens, input, start, pos - 1);
                push_slice(&mut tokens, input, pos - 1, pos + 1);
                start = pos + 1;
            },
            TokenizerAction::Reject => {
                return Err(ParseError::InvalidChar(c, pos));
            },
            TokenizerAction::RejectNext => {
                return Err(ParseError::InvalidChar(chars[pos + 1], pos + 1));
            },
        }
        state = new_state;
        proof {
            let after = TokenizerProgress {
                state,
                start: start as int,
                lexemes: strs_view(tokens@),
            };
            assert(tokenizer_step(input@, pos as int, before) == Ok::<
                TokenizerProgress,
                ParseErrorView,
            >(after));
        }
        pos += 1;
    }
    match state {
        TokenizerState::Normal => {
            push_slice(&mut tokens, input, start, n);
            Ok(tokens)
        },
        _ => {
            let rest = input.substring_char(start, n);
            Err(ParseError::UnfinishedStringLiteral(rest.to_owned()))
        },
    }
}

} // verus!
