use vstd::prelude::*;

use crate::token::TokenType;

verus! {

/// The reserved words of the language, each mapped to its token kind.
pub open spec fn keyword_kind(w: Seq<char>) -> Option<TokenType> {
    if w == seq!['a', 'n', 'd'] {
        Some(TokenType::AND)
    } else if w == seq!['c', 'l', 'a', 's', 's'] {
        Some(TokenType::CLASS)
    } else if w == seq!['e', 'l', 's', 'e'] {
        Some(TokenType::ELSE)
    } else if w == seq!['f', 'a', 'l', 's', 'e'] {
        Some(TokenType::FALSE)
    } else if w == seq!['f', 'u', 'n'] {
        Some(TokenType::FUN)
    } else if w == seq!['f', 'o', 'r'] {
        Some(TokenType::FOR)
    } else if w == seq!['i', 'f'] {
        Some(TokenType::IF)
    } else if w == seq!['n', 'i', 'l'] {
        Some(TokenType::NIL)
    } else if w == seq!['o', 'r'] {
        Some(TokenType::OR)
    } else if w == seq!['p', 'r', 'i', 'n', 't'] {
        Some(TokenType::PRINT)
    } else if w == seq!['r', 'e', 't', 'u', 'r', 'n'] {
        Some(TokenType::RETURN)
    } else if w == seq!['s', 'u', 'p', 'e', 'r'] {
        Some(TokenType::SUPER)
    } else if w == seq!['t', 'h', 'i', 's'] {
        Some(TokenType::THIS)
    } else if w == seq!['t', 'r', 'u', 'e'] {
        Some(TokenType::TRUE)
    } else if w == seq!['v', 'a', 'r'] {
        Some(TokenType::VAR)
    } else if w == seq!['w', 'h', 'i', 'l', 'e'] {
        Some(TokenType::While)
    } else {
        None
    }
}

/// Whether `word` is spelled exactly as `spelling`.
fn spelled(word: &Vec<char>, spelling: &[char]) -> (r: bool)
    ensures
        r == (word@ == spelling@),
{
    if word.len() != spelling.len() {
        return false;
    }
    let mut i: usize = 0;
    while i < word.len()
        invariant
            word@.len() == spelling@.len(),
            i <= word.len(),
            forall|j: int| 0 <= j < i ==> word@[j] == spelling@[j],
        decreases word.len() - i,
    {
        if word[i] != spelling[i] {
            return false;
        }
        i = i + 1;
    }
    assert(word@ =~= spelling@);
    true
}

/// The token kind of `word` where it is a reserved word.
pub fn keyword_match(word: &Vec<char>) -> (r: Option<TokenType>)
    ensures
        r == keyword_kind(word@),
{
    if spelled(word, &['a', 'n', 'd']) {
        Some(TokenType::AND)
    } else if spelled(word, &['c', 'l', 'a', 's', 's']) {
        Some(TokenType::CLASS)
    } else if spelled(word, &['e', 'l', 's', 'e']) {
        Some(TokenType::ELSE)
    } else if spelled(word, &['f', 'a', 'l', 's', 'e']) {
        Some(TokenType::FALSE)
    } else if spelled(word, &['f', 'u', 'n']) {
        Some(TokenType::FUN)
    } else if spelled(word, &['f', 'o', 'r']) {
        Some(TokenType::FOR)
    } else if spelled(word, &['i', 'f']) {
        Some(TokenType::IF)
    } else if spelled(word, &['n', 'i', 'l']) {
        Some(TokenType::NIL)
    } else if spelled(word, &['o', 'r']) {
        Some(TokenType::OR)
    } else if spelled(word, &['p', 'r', 'i', 'n', 't']) {
        Some(TokenType::PRINT)
    } else if spelled(word, &['r', 'e', 't', 'u', 'r', 'n']) {
        Some(TokenType::RETURN)
    } else if spelled(word, &['s', 'u', 'p', 'e', 'r']) {
        Some(TokenType::SUPER)
    } else if spelled(word, &['t', 'h', 'i', 's']) {
        Some(TokenType::THIS)
    } else if spelled(word, &['t', 'r', 'u', 'e']) {
        Some(TokenType::TRUE)
    } else if spelled(word, &['v', 'a', 'r']) {
        Some(TokenType::VAR)
    } else if spelled(word, &['w', 'h', 'i', 'l', 'e']) {
        Some(TokenType::While)
    } else {
        None
    }
}

} // verus!
