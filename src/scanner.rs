use vstd::prelude::*;

use crate::cursor::{
    is_whitespace, len_until, lemma_len_until_bound, lemma_word_len_bound, lemma_no_newlines, newline_count, walk_until,
    word_len, CursorModel, SourceCursor,
};
use crate::literals::{
    match_on_keywords, number_model, scan_number, scan_string, string_model, word_model,
};
use crate::numeral::is_digit;
use crate::laws::lemma_scan_ends_with_eof;
use crate::text::{chars_of, is_alphabetic, is_alphabetic_char};
use crate::token::{bare_token, token_models, Token, TokenModel, TokenType};

verus! {

/// A condition met while scanning. None of them stops the scan.
#[derive(Clone, Copy, Debug, PartialEq, Eq, Structural)]
pub enum ScanError {
    /// A character that no rule of the language accepts; it is skipped.
    UnrecognizedCharacter(char),
    /// A string whose closing quote never came; no token is made for it.
    UnterminatedString,
}

/// A scan error and the line on which it was met.
#[derive(Clone, Copy, Debug, PartialEq, Eq, Structural)]
pub struct Diagnostic {
    pub line: usize,
    pub error: ScanError,
}

pub struct DiagnosticModel {
    pub line: nat,
    pub error: ScanError,
}

impl View for Diagnostic {
    type V = DiagnosticModel;

    open spec fn view(&self) -> DiagnosticModel {
        DiagnosticModel { line: self.line as nat, error: self.error }
    }
}

pub open spec fn diagnostic_models(ds: Seq<Diagnostic>) -> Seq<DiagnosticModel> {
    ds.map_values(|d: Diagnostic| d@)
}

/// What one scan produces: the tokens, ending with the end-of-input token,
/// and the diagnostics met on the way.
pub struct ScanOutput {
    pub tokens: Vec<Token>,
    pub diagnostics: Vec<Diagnostic>,
}

pub struct ScanModel {
    pub tokens: Seq<TokenModel>,
    pub diagnostics: Seq<DiagnosticModel>,
}

impl View for ScanOutput {
    type V = ScanModel;

    open spec fn view(&self) -> ScanModel {
        ScanModel {
            tokens: token_models(self.tokens@),
            diagnostics: diagnostic_models(self.diagnostics@),
        }
    }
}

/// What handling one character hands to the scan loop.
pub enum ScanStep {
    /// A token to append.
    Emit(Token),
    /// Nothing to append: whitespace or a comment.
    Skip,
    /// An error to report.
    Report(ScanError),
}

pub enum StepOutput {
    Emit(TokenModel),
    Skip,
    Report(ScanError),
}

impl View for ScanStep {
    type V = StepOutput;

    open spec fn view(&self) -> StepOutput {
        match self {
            ScanStep::Emit(t) => StepOutput::Emit(t@),
            ScanStep::Skip => StepOutput::Skip,
            ScanStep::Report(e) => StepOutput::Report(*e),
        }
    }
}

/// The outcome of one step of the scan, with the position and line that
/// follow it.
pub struct StepModel {
    pub out: StepOutput,
    pub next: int,
    pub line: nat,
}

/// The punctuation marks that are a token on their own.
pub open spec fn single_char_kind(c: char) -> Option<TokenType> {
    if c == '(' {
        Some(TokenType::LeftParen)
    } else if c == ')' {
        Some(TokenType::RightParen)
    } else if c == '[' {
        Some(TokenType::LeftBrace)
    } else if c == ']' {
        Some(TokenType::RightBrace)
    } else if c == ',' {
        Some(TokenType::Comma)
    } else if c == '.' {
        Some(TokenType::DOT)
    } else if c == '-' {
        Some(TokenType::MINUS)
    } else if c == '+' {
        Some(TokenType::PLUS)
    } else if c == ';' {
        Some(TokenType::SemiColon)
    } else if c == '*' {
        Some(TokenType::STAR)
    } else {
        None
    }
}

/// The operators that may be followed by `=`: the kind alone, and the kind
/// with `=`.
pub open spec fn operator_kinds(c: char) -> Option<(TokenType, TokenType)> {
    if c == '!' {
        Some((TokenType::BANG, TokenType::BangEqual))
    } else if c == '=' {
        Some((TokenType::EQUAL, TokenType::EqualEqual))
    } else if c == '>' {
        Some((TokenType::GREATER, TokenType::GreatEqual))
    } else if c == '<' {
        Some((TokenType::LESS, TokenType::LessEqual))
    } else {
        None
    }
}

/// Whether the character at a position where a token may start begins a word:
/// it is alphabetic, and no earlier rule claims it.
pub open spec fn starts_word(c: char, alpha: bool) -> bool {
    &&& alpha
    &&& !is_whitespace(c)
    &&& single_char_kind(c) is None
    &&& operator_kinds(c) is None
    &&& c != '/'
    &&& c != '"'
    &&& !is_digit(c)
}

/// The maximal run of non-whitespace characters that starts at position `i`.
pub open spec fn run_at(s: Seq<char>, i: int) -> Seq<char> {
    s.subrange(i, i + 1 + word_len(s, i + 1))
}

/// The position after the run at position `i` and the whitespace character
/// that ends it, if any.
pub open spec fn past_run_pos(s: Seq<char>, i: int) -> int {
    let e = i + 1 + word_len(s, i + 1);
    if e < s.len() {
        e + 1
    } else {
        e
    }
}

/// The line reached after the run at position `i` and the whitespace
/// character that ends it: one more where that character ends a line.
pub open spec fn past_run_line(s: Seq<char>, i: int, line: nat) -> nat {
    let e = i + 1 + word_len(s, i + 1);
    if e < s.len() && s[e] == '\n' {
        line + 1
    } else {
        line
    }
}

/// One step of the scan at position `i` of `s` (where `i < s.len()`), on line
/// `line`; `alpha` says whether the character there is alphabetic.
pub open spec fn step(s: Seq<char>, i: int, line: nat, alpha: bool) -> StepModel {
    let c = s[i];
    if c == '\n' {
        StepModel { out: StepOutput::Skip, next: i + 1, line: line + 1 }
    } else if c == ' ' || c == '\t' {
        StepModel { out: StepOutput::Skip, next: i + 1, line }
    } else if single_char_kind(c) is Some {
        StepModel {
            out: StepOutput::Emit(bare_token(single_char_kind(c)->0, line)),
            next: i + 1,
            line,
        }
    } else if operator_kinds(c) is Some {
        let (one, two) = operator_kinds(c)->0;
        if i + 1 < s.len() && s[i + 1] == '=' {
            StepModel { out: StepOutput::Emit(bare_token(two, line)), next: i + 2, line }
        } else {
            StepModel { out: StepOutput::Emit(bare_token(one, line)), next: i + 1, line }
        }
    } else if c == '/' {
        if i + 1 < s.len() && s[i + 1] == '/' {
            let n = len_until(s, i + 2, '\n');
            if i + 2 + n < s.len() {
                StepModel { out: StepOutput::Skip, next: i + 3 + n, line: line + 1 }
            } else {
                StepModel { out: StepOutput::Skip, next: s.len() as int, line }
            }
        } else {
            StepModel {
                out: StepOutput::Emit(bare_token(TokenType::SLASH, line)),
                next: i + 1,
                line,
            }
        }
    } else if c == '"' {
        let n = len_until(s, i + 1, '"');
        let body = s.subrange(i + 1, i + 1 + n);
        if i + 1 + n < s.len() {
            StepModel {
                out: StepOutput::Emit(string_model(body, line)),
                next: i + 2 + n,
                line: line + newline_count(body),
            }
        } else {
            StepModel {
                out: StepOutput::Report(ScanError::UnterminatedString),
                next: s.len() as int,
                line: line + newline_count(body),
            }
        }
    } else if is_digit(c) {
        StepModel {
            out: StepOutput::Emit(number_model(run_at(s, i), line)),
            next: past_run_pos(s, i),
            line: past_run_line(s, i, line),
        }
    } else if alpha {
        StepModel {
            out: StepOutput::Emit(word_model(run_at(s, i), line)),
            next: past_run_pos(s, i),
            line: past_run_line(s, i, line),
        }
    } else {
        StepModel { out: StepOutput::Report(ScanError::UnrecognizedCharacter(c)), next: i + 1, line }
    }
}

/// Puts the outcome of a step in front of what the rest of the scan produced.
pub open spec fn record(st: StepModel, rest: ScanModel) -> ScanModel {
    match st.out {
        StepOutput::Emit(t) => ScanModel { tokens: seq![t] + rest.tokens, diagnostics: rest.diagnostics },
        StepOutput::Skip => rest,
        StepOutput::Report(e) => ScanModel {
            tokens: rest.tokens,
            diagnostics: seq![DiagnosticModel { line: st.line, error: e }] + rest.diagnostics,
        },
    }
}

/// The scan of `s` from position `i` on, on line `line`; `flags[j]` says
/// whether `s[j]` is alphabetic.
pub open spec fn scan_from(s: Seq<char>, flags: Seq<bool>, i: int, line: nat) -> ScanModel
    decreases s.len() - i,
    via scan_from_decreases
{
    if i < 0 || i >= s.len() {
        ScanModel { tokens: seq![bare_token(TokenType::EOF, line)], diagnostics: seq![] }
    } else {
        let st = step(s, i, line, flags[i]);
        record(st, scan_from(s, flags, st.next, st.line))
    }
}

/// Every step moves forward, and not past the end of the text.
pub proof fn lemma_step_advances(s: Seq<char>, i: int, line: nat, alpha: bool)
    requires
        0 <= i < s.len(),
    ensures
        i < step(s, i, line, alpha).next <= s.len(),
{
    lemma_len_until_bound(s, i + 1, '"');
    lemma_word_len_bound(s, i + 1);
    if i + 2 <= s.len() {
        lemma_len_until_bound(s, i + 2, '\n');
    }
}

#[via_fn]
proof fn scan_from_decreases(s: Seq<char>, flags: Seq<bool>, i: int, line: nat) {
    if 0 <= i < s.len() {
        lemma_step_advances(s, i, line, flags[i]);
    }
}

/// The scan of a whole text, given which of its characters are alphabetic.
pub open spec fn scan_model(s: Seq<char>, flags: Seq<bool>) -> ScanModel {
    scan_from(s, flags, 0, 0)
}

/// Which characters of `s` are alphabetic.
pub open spec fn alphabetic_flags(s: Seq<char>) -> Seq<bool> {
    Seq::new(s.len(), |j: int| is_alphabetic_char(s[j]))
}

/// The scan of a whole text.
pub open spec fn scanned(s: Seq<char>) -> ScanModel {
    scan_model(s, alphabetic_flags(s))
}

/// Emits the operator whose first character was just consumed: `two` where an
/// `=` follows, which is then consumed too, and `one` otherwise.
fn match_operator(source_chars: &mut SourceCursor, one: TokenType, two: TokenType) -> (t: Token)
    requires
        old(source_chars).wf(),
    ensures
        final(source_chars).wf(),
        ({
            let m = old(source_chars)@;
            if m.pos < m.chars.len() && m.chars[m.pos as int] == '=' {
                &&& t@ == bare_token(two, m.line)
                &&& final(source_chars)@ == CursorModel { chars: m.chars, pos: m.pos + 1, line: m.line }
            } else {
                &&& t@ == bare_token(one, m.line)
                &&& final(source_chars)@ == m
            }
        }),
{
    let line = source_chars.line();
    match source_chars.peek() {
        Some(c) => {
            if c == '=' {
                source_chars.advance();
                Token::new(two, None, None, line)
            } else {
                Token::new(one, None, None, line)
            }
        },
        None => Token::new(one, None, None, line),
    }
}

/// The line on which a character that was just consumed stands: the cursor
/// has already counted it where it ends a line.
pub open spec fn line_before(m: CursorModel, c: char) -> nat {
    if c == '\n' {
        (m.line - 1) as nat
    } else {
        m.line
    }
}

/// Handles the character `current_char` that was just consumed from
/// `char_string`, consuming whatever else belongs to its token. `alphabetic`
/// says whether the character is alphabetic.
pub fn parse_chars(current_char: char, char_string: &mut SourceCursor, alphabetic: bool) -> (r: ScanStep)
    requires
        old(char_string).wf(),
        old(char_string)@.pos >= 1,
        old(char_string)@.chars[old(char_string)@.pos - 1] == current_char,
    ensures
        final(char_string).wf(),
        ({
            let m = old(char_string)@;
            let st = step(m.chars, m.pos - 1, line_before(m, current_char), alphabetic);
            &&& r@ == st.out
            &&& final(char_string)@ == CursorModel { chars: m.chars, pos: st.next as nat, line: st.line }
        }),
{
    let ghost m = char_string@;
    let ghost i = m.pos - 1;
    proof {
        assert(m.chars.subrange(0, m.pos as int).drop_last() =~= m.chars.subrange(0, i));
    }
    let line = char_string.line();
    match current_char {
        ' ' | '\t' | '\n' => ScanStep::Skip,
        '(' => ScanStep::Emit(Token::new(TokenType::LeftParen, None, None, line)),
        ')' => ScanStep::Emit(Token::new(TokenType::RightParen, None, None, line)),
        '[' => ScanStep::Emit(Token::new(TokenType::LeftBrace, None, None, line)),
        ']' => ScanStep::Emit(Token::new(TokenType::RightBrace, None, None, line)),
        ',' => ScanStep::Emit(Token::new(TokenType::Comma, None, None, line)),
        '.' => ScanStep::Emit(Token::new(TokenType::DOT, None, None, line)),
        '-' => ScanStep::Emit(Token::new(TokenType::MINUS, None, None, line)),
        '+' => ScanStep::Emit(Token::new(TokenType::PLUS, None, None, line)),
        ';' => ScanStep::Emit(Token::new(TokenType::SemiColon, None, None, line)),
        '*' => ScanStep::Emit(Token::new(TokenType::STAR, None, None, line)),
        '!' => ScanStep::Emit(match_operator(char_string, TokenType::BANG, TokenType::BangEqual)),
        '=' => ScanStep::Emit(match_operator(char_string, TokenType::EQUAL, TokenType::EqualEqual)),
        '>' => ScanStep::Emit(match_operator(char_string, TokenType::GREATER, TokenType::GreatEqual)),
        '<' => ScanStep::Emit(match_operator(char_string, TokenType::LESS, TokenType::LessEqual)),
        '/' => {
            match char_string.peek() {
                Some(c) => {
                    if c == '/' {
                        char_string.advance();
                        proof {
                            let n = len_until(m.chars, i + 2, '\n');
                            lemma_len_until_bound(m.chars, i + 2, '\n');
                            lemma_no_newlines(m.chars.subrange(i + 2, i + 2 + n));
                        }
                        walk_until(char_string, '\n');
                        ScanStep::Skip
                    } else {
                        ScanStep::Emit(Token::new(TokenType::SLASH, None, None, line))
                    }
                },
                None => ScanStep::Emit(Token::new(TokenType::SLASH, None, None, line)),
            }
        },
        '"' => {
            match scan_string(char_string) {
                Some(t) => ScanStep::Emit(t),
                None => ScanStep::Report(ScanError::UnterminatedString),
            }
        },
        c => {
            if '0' <= c && c <= '9' {
                let t = scan_number(char_string, c);
                assert(run_at(m.chars, i) =~= seq![c] + m.chars.subrange(
                    m.pos as int,
                    (m.pos + word_len(m.chars, m.pos as int)) as int,
                ));
                ScanStep::Emit(t)
            } else if alphabetic {
                let t = match_on_keywords(char_string, c);
                assert(run_at(m.chars, i) =~= seq![c] + m.chars.subrange(
                    m.pos as int,
                    (m.pos + word_len(m.chars, m.pos as int)) as int,
                ));
                ScanStep::Emit(t)
            } else {
                ScanStep::Report(ScanError::UnrecognizedCharacter(c))
            }
        },
    }
}

/// The tokens and diagnostics collected so far, followed by what the rest of
/// the scan produces.
pub open spec fn combine(tokens: Seq<Token>, diagnostics: Seq<Diagnostic>, rest: ScanModel) -> ScanModel {
    ScanModel {
        tokens: token_models(tokens) + rest.tokens,
        diagnostics: diagnostic_models(diagnostics) + rest.diagnostics,
    }
}

/// Scans `chars` in one pass, where `alphabetic[j]` says whether `chars[j]` is
/// alphabetic. Whitespace is skipped, every other character starts a token,
/// a comment or an error, and the tokens end with one end-of-input token.
pub fn scan_classified(chars: Vec<char>, alphabetic: &Vec<bool>) -> (r: ScanOutput)
    requires
        alphabetic@.len() == chars@.len(),
    ensures
        r@ == scan_model(chars@, alphabetic@),
{
    let ghost s = chars@;
    let ghost flags = alphabetic@;
    let mut cursor = SourceCursor::new(chars);
    let mut tokens: Vec<Token> = Vec::new();
    let mut diagnostics: Vec<Diagnostic> = Vec::new();
    assert(token_models(tokens@) + scan_from(s, flags, 0, 0).tokens =~= scan_from(s, flags, 0, 0).tokens);
    assert(diagnostic_models(diagnostics@) + scan_from(s, flags, 0, 0).diagnostics =~= scan_from(s, flags, 0, 0).diagnostics);
    loop
        invariant_except_break
            scan_model(s, flags) == combine(
                tokens@,
                diagnostics@,
                scan_from(s, flags, cursor@.pos as int, cursor@.line),
            ),
        invariant
            cursor.wf(),
            cursor@.chars == s,
            flags == alphabetic@,
            flags.len() == s.len(),
        ensures
            scan_model(s, flags).tokens == token_models(tokens@),
            scan_model(s, flags).diagnostics == diagnostic_models(diagnostics@),
        decreases s.len() - cursor@.pos,
    {
        let pos = cursor.position();
        let ghost before = cursor@;
        let ghost rest = scan_from(s, flags, before.pos as int, before.line);
        let ghost old_tokens = tokens@;
        let ghost old_diagnostics = diagnostics@;
        match cursor.advance() {
            None => {
                let eof = Token::new(TokenType::EOF, None, None, cursor.line());
                tokens.push(eof);
                assert(token_models(tokens@) =~= token_models(old_tokens).push(eof@));
                assert(diagnostic_models(diagnostics@) =~= diagnostic_models(old_diagnostics) + rest.diagnostics);
                break;
            },
            Some(c) => {
                {
                    let step_out = parse_chars(c, &mut cursor, alphabetic[pos]);
                    match step_out {
                        ScanStep::Emit(t) => {
                            tokens.push(t);
                            assert(token_models(tokens@) =~= token_models(old_tokens).push(t@));
                        },
                        ScanStep::Skip => {},
                        ScanStep::Report(e) => {
                            let d = Diagnostic { line: cursor.line(), error: e };
                            diagnostics.push(d);
                            assert(diagnostic_models(diagnostics@) =~= diagnostic_models(old_diagnostics).push(d@));
                        },
                    }
                    let ghost after = scan_from(s, flags, cursor@.pos as int, cursor@.line);
                    assert(token_models(tokens@) + after.tokens =~= token_models(old_tokens) + rest.tokens);
                    assert(diagnostic_models(diagnostics@) + after.diagnostics =~= diagnostic_models(old_diagnostics) + rest.diagnostics);
                }
            },
        }
    }
    ScanOutput { tokens, diagnostics }
}

/// Which characters of `chars` are alphabetic.
fn classify(chars: &Vec<char>) -> (r: Vec<bool>)
    ensures
        r@ == alphabetic_flags(chars@),
{
    let mut r: Vec<bool> = Vec::new();
    let mut i: usize = 0;
    while i < chars.len()
        invariant
            i <= chars.len(),
            r@.len() == i,
            forall|j: int| 0 <= j < i ==> r@[j] == is_alphabetic_char(chars@[j]),
        decreases chars.len() - i,
    {
        let a = is_alphabetic(chars[i]);
        r.push(a);
        i = i + 1;
    }
    assert(r@ =~= alphabetic_flags(chars@));
    r
}

/// Scans `source` in one pass: the tokens, ending with one end-of-input
/// token, and the diagnostics met on the way.
pub fn scan(source: &str) -> (r: ScanOutput)
    ensures
        r@ == scanned(source@),
{
    let chars = chars_of(source);
    let flags = classify(&chars);
    scan_classified(chars, &flags)
}

/// The tokens of `source`, ending with one end-of-input token. The
/// diagnostics of the scan are dropped here; `scan` returns them too.
pub fn scan_tokens(source: String) -> (r: Vec<Token>)
    ensures
        token_models(r@) == scanned(source@).tokens,
        r@.len() >= 1,
        r@.last().token_type == TokenType::EOF,
        forall|j: int| 0 <= j < r@.len() - 1 ==> #[trigger] r@[j].token_type != TokenType::EOF,
{
    let out = scan(source.as_str());
    proof {
        lemma_scan_ends_with_eof(source@);
        assert forall|j: int| 0 <= j < out.tokens@.len() implies #[trigger] out.tokens@[j].token_type
            == token_models(out.tokens@)[j].kind by {}
    }
    out.tokens
}

} // verus!
