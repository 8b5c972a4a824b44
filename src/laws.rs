use vstd::prelude::*;

use crate::cursor::{is_whitespace, lemma_word_len_bound, word_len};
use crate::keywords::keyword_kind;
use crate::literals::word_model;
use crate::numeral::is_float_numeral;
use crate::scanner::{
    lemma_step_advances, run_at, scan_from, scan_model, scanned, starts_word, step, StepOutput,
};
use crate::token::{LiteralModel, TokenModel, TokenType};

verus! {

/// Whether a token kind is that of a reserved word.
pub open spec fn is_keyword(k: TokenType) -> bool {
    match k {
        TokenType::AND | TokenType::CLASS | TokenType::ELSE | TokenType::FALSE | TokenType::FUN
        | TokenType::FOR | TokenType::IF | TokenType::NIL | TokenType::OR | TokenType::PRINT
        | TokenType::RETURN | TokenType::SUPER | TokenType::THIS | TokenType::TRUE
        | TokenType::VAR | TokenType::While => true,
        _ => false,
    }
}

/// What holds of every token the scanner makes: a number carries a numeral
/// that reads as a float, and is its lexeme; a name is its lexeme and no
/// reserved word; a string is its lexeme; the literal kinds always carry a
/// literal; a reserved word's token carries none, and its lexeme is that very
/// reserved word.
pub open spec fn token_well_formed(t: TokenModel) -> bool {
    &&& match t.literal {
        Some(LiteralModel::Number(x)) => {
            &&& t.kind == TokenType::NUMBER
            &&& is_float_numeral(x)
            &&& t.lexeme == Some(x)
        },
        Some(LiteralModel::Identifier(x)) => {
            &&& t.kind == TokenType::IDENTIFIER
            &&& t.lexeme == Some(x)
            &&& keyword_kind(x) is None
        },
        Some(LiteralModel::Str(x)) => {
            &&& t.kind == TokenType::STRING || t.kind == TokenType::IDENTIFIER
            &&& t.lexeme == Some(x)
        },
        None => !(t.kind == TokenType::NUMBER || t.kind == TokenType::IDENTIFIER || t.kind
            == TokenType::STRING),
    }
    &&& is_keyword(t.kind) ==> t.literal is None
    &&& is_keyword(t.kind) ==> (t.lexeme matches Some(w) && keyword_kind(w) == Some(t.kind))
}

/// What one step emits is never the end-of-input token, is well formed, and
/// sits on the line the step started on.
proof fn lemma_step_emits(s: Seq<char>, i: int, line: nat, alpha: bool)
    requires
        0 <= i < s.len(),
    ensures
        step(s, i, line, alpha).line >= line,
        step(s, i, line, alpha).out matches StepOutput::Emit(t) ==> {
            &&& t.kind != TokenType::EOF
            &&& token_well_formed(t)
            &&& t.line == line
        },
{
}

/// The tokens of a scan end with the end-of-input token, and no other token
/// is one.
pub proof fn lemma_single_eof_last(s: Seq<char>, flags: Seq<bool>, i: int, line: nat)
    ensures
        ({
            let ts = scan_from(s, flags, i, line).tokens;
            &&& ts.len() >= 1
            &&& ts.last().kind == TokenType::EOF
            &&& forall|j: int| 0 <= j < ts.len() - 1 ==> #[trigger] ts[j].kind != TokenType::EOF
        }),
    decreases s.len() - i,
{
    if 0 <= i < s.len() {
        let st = step(s, i, line, flags[i]);
        lemma_step_advances(s, i, line, flags[i]);
        lemma_step_emits(s, i, line, flags[i]);
        lemma_single_eof_last(s, flags, st.next, st.line);
        let rest = scan_from(s, flags, st.next, st.line).tokens;
        let ts = scan_from(s, flags, i, line).tokens;
        if let StepOutput::Emit(t) = st.out {
            assert(ts == seq![t] + rest);
            assert forall|j: int| 0 <= j < ts.len() - 1 implies #[trigger] ts[j].kind
                != TokenType::EOF by {
                if j > 0 {
                    assert(ts[j] == rest[j - 1]);
                }
            }
        }
    }
}

/// Every token of a scan is well formed, none starts on a line before the one
/// the scan starts on, and their lines never decrease along the sequence.
pub proof fn lemma_tokens_well_formed(s: Seq<char>, flags: Seq<bool>, i: int, line: nat)
    ensures
        ({
            let ts = scan_from(s, flags, i, line).tokens;
            &&& forall|j: int| 0 <= j < ts.len() ==> token_well_formed(#[trigger] ts[j])
            &&& forall|j: int| 0 <= j < ts.len() ==> #[trigger] ts[j].line >= line
            &&& forall|j: int, k: int| 0 <= j <= k < ts.len() ==> #[trigger] ts[j].line <= #[trigger] ts[k].line
        }),
    decreases s.len() - i,
{
    if 0 <= i < s.len() {
        let st = step(s, i, line, flags[i]);
        lemma_step_advances(s, i, line, flags[i]);
        lemma_step_emits(s, i, line, flags[i]);
        lemma_tokens_well_formed(s, flags, st.next, st.line);
        let rest = scan_from(s, flags, st.next, st.line).tokens;
        let ts = scan_from(s, flags, i, line).tokens;
        if let StepOutput::Emit(t) = st.out {
            assert(ts == seq![t] + rest);
            assert forall|j: int| 0 <= j < ts.len() implies token_well_formed(#[trigger] ts[j])
                && ts[j].line >= line by {
                if j > 0 {
                    assert(ts[j] == rest[j - 1]);
                }
            }
            assert forall|j: int, k: int| 0 <= j <= k < ts.len() implies #[trigger] ts[j].line
                <= #[trigger] ts[k].line by {
                if j > 0 {
                    assert(ts[j] == rest[j - 1]);
                }
                if k > 0 {
                    assert(ts[k] == rest[k - 1]);
                }
            }
        }
    }
}

/// The scan of any text ends with exactly one end-of-input token, and every
/// other token stands before it.
pub proof fn lemma_scan_ends_with_eof(s: Seq<char>)
    ensures
        ({
            let ts = scanned(s).tokens;
            &&& ts.len() >= 1
            &&& ts.last().kind == TokenType::EOF
            &&& forall|j: int| 0 <= j < ts.len() - 1 ==> #[trigger] ts[j].kind != TokenType::EOF
        }),
{
    lemma_single_eof_last(s, crate::scanner::alphabetic_flags(s), 0, 0);
}

/// Scanning depends on the text alone: equal texts give equal tokens and
/// equal diagnostics.
pub proof fn lemma_scan_deterministic(a: Seq<char>, b: Seq<char>)
    requires
        a == b,
    ensures
        scanned(a) == scanned(b),
{
}

/// Where a token starts with an alphabetic character, the scanner takes the
/// whole run up to the next whitespace as one word. A run that spells a
/// reserved word exactly gives that word's kind, never an identifier; any
/// other run gives an identifier.
pub proof fn lemma_word_classification(s: Seq<char>, flags: Seq<bool>, i: int, line: nat)
    requires
        0 <= i < s.len(),
        starts_word(s[i], flags[i]),
    ensures
        ({
            let w = run_at(s, i);
            let t = scan_from(s, flags, i, line).tokens[0];
            &&& t == word_model(w, line)
            &&& forall|j: int| 0 <= j < w.len() ==> !is_whitespace(#[trigger] w[j])
            &&& i + w.len() == s.len() || is_whitespace(s[i + w.len()])
            &&& keyword_kind(w) matches Some(k) ==> t.kind == k && t.kind != TokenType::IDENTIFIER
            &&& keyword_kind(w) is None ==> t.kind == TokenType::IDENTIFIER
        }),
{
    lemma_word_len_bound(s, i + 1);
    let w = run_at(s, i);
    assert forall|j: int| 0 <= j < w.len() implies !is_whitespace(#[trigger] w[j]) by {
        if j > 0 {
            assert(w[j] == s[i + j]);
        }
    }
    assert(w.len() == 1 + word_len(s, i + 1));
}

} // verus!
