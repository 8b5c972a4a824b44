use vstd::prelude::*;

use crate::cursor::{
    newline_count, len_until, past_run, walk_to_next_quote, walk_to_next_whitespace, word_len, CursorModel,
    SourceCursor,
};
use crate::keywords::{keyword_kind, keyword_match};
use crate::numeral::{is_float_numeral, is_number};
use crate::text::string_of;
use crate::token::{Literal, LiteralModel, Token, TokenModel, TokenType};

verus! {

/// The token for a word: the reserved word's kind where the word is one, and
/// otherwise an identifier that carries the word as its name.
pub open spec fn word_model(run: Seq<char>, line: nat) -> TokenModel {
    match keyword_kind(run) {
        Some(k) => TokenModel { kind: k, lexeme: Some(run), literal: None, line },
        None => TokenModel {
            kind: TokenType::IDENTIFIER,
            lexeme: Some(run),
            literal: Some(LiteralModel::Identifier(run)),
            line,
        },
    }
}

/// The token for a run that starts with a digit: a number where the run reads
/// as a finite float, and otherwise an identifier that carries the run as a
/// string.
pub open spec fn number_model(run: Seq<char>, line: nat) -> TokenModel {
    if is_float_numeral(run) {
        TokenModel {
            kind: TokenType::NUMBER,
            lexeme: Some(run),
            literal: Some(LiteralModel::Number(run)),
            line,
        }
    } else {
        TokenModel {
            kind: TokenType::IDENTIFIER,
            lexeme: Some(run),
            literal: Some(LiteralModel::Str(run)),
            line,
        }
    }
}

/// The token for the characters between two quotes.
pub open spec fn string_model(body: Seq<char>, line: nat) -> TokenModel {
    TokenModel {
        kind: TokenType::STRING,
        lexeme: Some(body),
        literal: Some(LiteralModel::Str(body)),
        line,
    }
}

/// The run that `walk_to_next_whitespace` collects after `c` was consumed
/// from a cursor in state `m`, without the whitespace that ends it.
pub open spec fn run_after(m: CursorModel, c: char) -> Seq<char> {
    seq![c] + m.chars.subrange(m.pos as int, (m.pos + word_len(m.chars, m.pos as int)) as int)
}

/// Collects the run that starts with `current_char`, consuming the whitespace
/// character that ends it, and makes it an identifier token whose literal is
/// the run as a name.
pub fn walk_to_next_whitespace_identifier(source_chars: &mut SourceCursor, current_char: char) -> (t: Token)
    requires
        old(source_chars).wf(),
    ensures
        final(source_chars).wf(),
        final(source_chars)@ == past_run(old(source_chars)@),
        t@ == (TokenModel {
            kind: TokenType::IDENTIFIER,
            lexeme: Some(run_after(old(source_chars)@, current_char)),
            literal: Some(LiteralModel::Identifier(run_after(old(source_chars)@, current_char))),
            line: old(source_chars)@.line,
        }),
{
    let line = source_chars.line();
    let chars = walk_to_next_whitespace(source_chars, current_char);
    let literal = string_of(&chars);
    Token::new(TokenType::IDENTIFIER, Some(chars), Some(Literal::Identifier(literal)), line)
}

/// Collects the run that starts with `current_char`, consuming the whitespace
/// character that ends it, and makes it a reserved word's token where it
/// spells one exactly, and an identifier otherwise.
pub fn match_on_keywords(source_chars: &mut SourceCursor, current_char: char) -> (t: Token)
    requires
        old(source_chars).wf(),
    ensures
        final(source_chars).wf(),
        final(source_chars)@ == past_run(old(source_chars)@),
        t@ == word_model(run_after(old(source_chars)@, current_char), old(source_chars)@.line),
{
    let word_token = walk_to_next_whitespace_identifier(source_chars, current_char);
    let kind = match &word_token.lexeme {
        Some(chars) => keyword_match(chars),
        None => None,
    };
    match kind {
        Some(k) => Token::new(k, word_token.lexeme, None, word_token.line),
        None => word_token,
    }
}

/// Collects the run that starts with the digit `current_char`, consuming the
/// whitespace character that ends it, and makes it a number token where it
/// reads as a finite float, and an identifier token that carries the run as a
/// string otherwise.
pub fn scan_number(source_chars: &mut SourceCursor, current_char: char) -> (t: Token)
    requires
        old(source_chars).wf(),
    ensures
        final(source_chars).wf(),
        final(source_chars)@ == past_run(old(source_chars)@),
        t@ == number_model(run_after(old(source_chars)@, current_char), old(source_chars)@.line),
{
    let line = source_chars.line();
    let chars = walk_to_next_whitespace(source_chars, current_char);
    let text = string_of(&chars);
    if is_number(&chars) {
        Token::new(TokenType::NUMBER, Some(chars), Some(Literal::Number(text)), line)
    } else {
        Token::new(TokenType::IDENTIFIER, Some(chars), Some(Literal::Str(text)), line)
    }
}

/// Scans a string whose opening quote was just consumed: the token for the
/// characters up to the closing quote, or `None` where the text ends first.
pub fn scan_string(source_chars: &mut SourceCursor) -> (r: Option<Token>)
    requires
        old(source_chars).wf(),
    ensures
        final(source_chars).wf(),
        ({
            let m = old(source_chars)@;
            let n = len_until(m.chars, m.pos as int, '"');
            let body = m.chars.subrange(m.pos as int, (m.pos + n) as int);
            let found = m.pos + n < m.chars.len();
            &&& found ==> (r matches Some(t) && t@ == string_model(body, m.line))
            &&& !found ==> r is None
            &&& final(source_chars)@ == CursorModel {
                chars: m.chars,
                pos: if found {
                    m.pos + n + 1
                } else {
                    m.chars.len()
                },
                line: m.line + newline_count(body),
            }
        }),
{
    let line = source_chars.line();
    match walk_to_next_quote(source_chars) {
        Some(body) => {
            let text = string_of(&body);
            Some(Token::new(TokenType::STRING, Some(body), Some(Literal::Str(text)), line))
        },
        None => None,
    }
}

} // verus!
