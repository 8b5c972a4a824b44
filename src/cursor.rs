use vstd::prelude::*;

verus! {

/// Space, tab and newline separate the words of the language.
pub open spec fn is_whitespace(c: char) -> bool {
    c == ' ' || c == '\t' || c == '\n'
}

/// How many characters from position `i` on come before the next whitespace
/// character or the end of `s`.
pub open spec fn word_len(s: Seq<char>, i: int) -> nat
    decreases s.len() - i,
{
    if i < 0 || i >= s.len() || is_whitespace(s[i]) {
        0
    } else {
        1 + word_len(s, i + 1)
    }
}

/// How many characters from position `i` on come before the next `stop`
/// character or the end of `s`.
pub open spec fn len_until(s: Seq<char>, i: int, stop: char) -> nat
    decreases s.len() - i,
{
    if i < 0 || i >= s.len() || s[i] == stop {
        0
    } else {
        1 + len_until(s, i + 1, stop)
    }
}

/// The number of line terminators in `s`.
pub open spec fn newline_count(s: Seq<char>) -> nat
    decreases s.len(),
{
    if s.len() == 0 {
        0
    } else {
        newline_count(s.drop_last()) + if s.last() == '\n' {
            1nat
        } else {
            0nat
        }
    }
}

/// The character at position `i`, if there is one.
pub open spec fn char_at(s: Seq<char>, i: int) -> Option<char> {
    if 0 <= i < s.len() {
        Some(s[i])
    } else {
        None
    }
}

pub proof fn lemma_word_len_bound(s: Seq<char>, i: int)
    requires
        0 <= i <= s.len(),
    ensures
        i + word_len(s, i) <= s.len(),
        forall|j: int| i <= j < i + word_len(s, i) ==> !is_whitespace(#[trigger] s[j]),
        i + word_len(s, i) < s.len() ==> is_whitespace(s[i + word_len(s, i)]),
    decreases s.len() - i,
{
    if i < s.len() && !is_whitespace(s[i]) {
        lemma_word_len_bound(s, i + 1);
    }
}

pub proof fn lemma_len_until_bound(s: Seq<char>, i: int, stop: char)
    requires
        0 <= i <= s.len(),
    ensures
        i + len_until(s, i, stop) <= s.len(),
        forall|j: int| i <= j < i + len_until(s, i, stop) ==> #[trigger] s[j] != stop,
        i + len_until(s, i, stop) < s.len() ==> s[i + len_until(s, i, stop)] == stop,
    decreases s.len() - i,
{
    if i < s.len() && s[i] != stop {
        lemma_len_until_bound(s, i + 1, stop);
    }
}

/// A sequence without line terminators has a newline count of zero.
pub proof fn lemma_no_newlines(s: Seq<char>)
    requires
        forall|j: int| 0 <= j < s.len() ==> #[trigger] s[j] != '\n',
    ensures
        newline_count(s) == 0,
    decreases s.len(),
{
    if s.len() > 0 {
        lemma_no_newlines(s.drop_last());
    }
}

/// The state of a cursor: the text, the position of the next character to
/// read, and the line reached.
pub struct CursorModel {
    pub chars: Seq<char>,
    pub pos: nat,
    pub line: nat,
}

/// The state after consuming one character, if one is left.
pub open spec fn advanced(m: CursorModel) -> CursorModel {
    if m.pos < m.chars.len() {
        CursorModel {
            chars: m.chars,
            pos: m.pos + 1,
            line: m.line + if m.chars[m.pos as int] == '\n' {
                1nat
            } else {
                0nat
            },
        }
    } else {
        m
    }
}

/// Walks the characters of a text one at a time, with one character of
/// lookahead, counting the line terminators it consumes.
pub struct SourceCursor {
    chars: Vec<char>,
    pos: usize,
    line: usize,
}

impl View for SourceCursor {
    type V = CursorModel;

    closed spec fn view(&self) -> CursorModel {
        CursorModel { chars: self.chars@, pos: self.pos as nat, line: self.line as nat }
    }
}

impl SourceCursor {
    /// The position stays within the text, and the line reached is the number
    /// of line terminators consumed, which is no more than the characters
    /// consumed.
    pub open spec fn wf(&self) -> bool {
        &&& self@.pos <= self@.chars.len()
        &&& self@.line == newline_count(self@.chars.subrange(0, self@.pos as int))
        &&& self@.line <= self@.pos
    }

    /// A cursor at the start of `chars`, on line 0.
    pub fn new(chars: Vec<char>) -> (c: Self)
        ensures
            c.wf(),
            c@ == (CursorModel { chars: chars@, pos: 0, line: 0 }),
    {
        let c = SourceCursor { chars, pos: 0, line: 0 };
        assert(c@.chars.subrange(0, 0).len() == 0);
        c
    }

    /// The next character, without consuming it.
    pub fn peek(&self) -> (r: Option<char>)
        requires
            self.wf(),
        ensures
            r == char_at(self@.chars, self@.pos as int),
    {
        if self.pos < self.chars.len() {
            Some(self.chars[self.pos])
        } else {
            None
        }
    }

    /// Consumes and returns the next character; a line terminator moves the
    /// line counter on by one. At the end of the text nothing changes.
    pub fn advance(&mut self) -> (r: Option<char>)
        requires
            old(self).wf(),
        ensures
            final(self).wf(),
            r == char_at(old(self)@.chars, old(self)@.pos as int),
            final(self)@ == advanced(old(self)@),
    {
        if self.pos < self.chars.len() {
            let c = self.chars[self.pos];
            assert(self.chars@.subrange(0, self.pos + 1).drop_last() =~= self.chars@.subrange(
                0,
                self.pos as int,
            ));
            self.pos = self.pos + 1;
            if c == '\n' {
                self.line = self.line + 1;
            }
            Some(c)
        } else {
            None
        }
    }

    /// The line reached, counting from 0.
    pub fn line(&self) -> (r: usize)
        ensures
            r == self@.line,
    {
        self.line
    }

    /// The position of the next character to read.
    pub fn position(&self) -> (r: usize)
        ensures
            r == self@.pos,
    {
        self.pos
    }
}

/// The state after the run of non-whitespace characters at the position of
/// `m` and the one whitespace character that ends it, if the text goes on.
pub open spec fn past_run(m: CursorModel) -> CursorModel {
    advanced(CursorModel { chars: m.chars, pos: m.pos + word_len(m.chars, m.pos as int), line: m.line })
}

/// Consumes characters up to the next whitespace character, and that
/// whitespace character too, or up to the end of the text. Returns
/// `current_char` followed by the characters before the whitespace.
pub fn walk_to_next_whitespace(source_chars: &mut SourceCursor, current_char: char) -> (run: Vec<char>)
    requires
        old(source_chars).wf(),
    ensures
        final(source_chars).wf(),
        ({
            let m = old(source_chars)@;
            let n = word_len(m.chars, m.pos as int);
            &&& run@ == seq![current_char] + m.chars.subrange(m.pos as int, (m.pos + n) as int)
            &&& final(source_chars)@ == past_run(m)
        }),
{
    let ghost m = source_chars@;
    let mut run: Vec<char> = vec![current_char];
    proof {
        lemma_word_len_bound(m.chars, m.pos as int);
    }
    loop
        invariant
            source_chars.wf(),
            source_chars@.chars == m.chars,
            source_chars@.line == m.line,
            m.pos <= source_chars@.pos <= m.pos + word_len(m.chars, m.pos as int),
            m.pos + word_len(m.chars, m.pos as int) <= m.chars.len(),
            word_len(m.chars, m.pos as int) == (source_chars@.pos - m.pos) + word_len(
                m.chars,
                source_chars@.pos as int,
            ),
            run@ == seq![current_char] + m.chars.subrange(m.pos as int, source_chars@.pos as int),
        ensures
            source_chars.wf(),
            source_chars@.chars == m.chars,
            source_chars@.line == m.line,
            source_chars@.pos == m.pos + word_len(m.chars, m.pos as int),
            run@ == seq![current_char] + m.chars.subrange(m.pos as int, source_chars@.pos as int),
        decreases m.chars.len() - source_chars@.pos,
    {
        let next = source_chars.peek();
        match next {
            Some(c) => {
                if c == ' ' || c == '\t' || c == '\n' {
                    assert(word_len(m.chars, source_chars@.pos as int) == 0);
                    break;
                }
                let ghost p = source_chars@.pos as int;
                source_chars.advance();
                run.push(c);
                assert(run@ =~= seq![current_char] + m.chars.subrange(m.pos as int, p + 1));
            },
            None => {
                assert(word_len(m.chars, source_chars@.pos as int) == 0);
                break;
            },
        }
    }
    source_chars.advance();
    run
}

/// Consumes characters up to and including the next `stop` character, or to
/// the end of the text. Returns the characters before `stop`, and whether
/// `stop` was found.
pub fn walk_until(source_chars: &mut SourceCursor, stop: char) -> (r: (Vec<char>, bool))
    requires
        old(source_chars).wf(),
    ensures
        final(source_chars).wf(),
        ({
            let m = old(source_chars)@;
            let n = len_until(m.chars, m.pos as int, stop);
            let body = m.chars.subrange(m.pos as int, (m.pos + n) as int);
            let found = m.pos + n < m.chars.len();
            &&& r.0@ == body
            &&& r.1 == found
            &&& final(source_chars)@.chars == m.chars
            &&& final(source_chars)@.pos == if found {
                m.pos + n + 1
            } else {
                m.chars.len()
            }
            &&& final(source_chars)@.line == m.line + newline_count(body) + if found && stop
                == '\n' {
                1nat
            } else {
                0nat
            }
        }),
{
    let ghost m = source_chars@;
    let mut body: Vec<char> = Vec::new();
    proof {
        lemma_len_until_bound(m.chars, m.pos as int, stop);
    }
    loop
        invariant
            m == old(source_chars)@,
            source_chars.wf(),
            source_chars@.chars == m.chars,
            m.pos <= source_chars@.pos <= m.pos + len_until(m.chars, m.pos as int, stop),
            m.pos + len_until(m.chars, m.pos as int, stop) <= m.chars.len(),
            len_until(m.chars, m.pos as int, stop) == (source_chars@.pos - m.pos) + len_until(
                m.chars,
                source_chars@.pos as int,
                stop,
            ),
            body@ == m.chars.subrange(m.pos as int, source_chars@.pos as int),
            source_chars@.line == m.line + newline_count(body@),
        decreases m.chars.len() - source_chars@.pos,
    {
        let ghost p = source_chars@.pos as int;
        let next = source_chars.advance();
        match next {
            Some(c) => {
                if c == stop {
                    assert(len_until(m.chars, p, stop) == 0);
                    return (body, true);
                }
                body.push(c);
                assert(body@ =~= m.chars.subrange(m.pos as int, p + 1));
                assert(body@.drop_last() =~= m.chars.subrange(m.pos as int, p));
            },
            None => {
                assert(len_until(m.chars, p, stop) == 0);
                return (body, false);
            },
        }
    }
}

/// Consumes characters up to and including the next `"`, or to the end of the
/// text. Returns the characters before the `"`, or `None` where the text ends
/// first.
pub fn walk_to_next_quote(source_chars: &mut SourceCursor) -> (r: Option<Vec<char>>)
    requires
        old(source_chars).wf(),
    ensures
        final(source_chars).wf(),
        ({
            let m = old(source_chars)@;
            let n = len_until(m.chars, m.pos as int, '"');
            let body = m.chars.subrange(m.pos as int, (m.pos + n) as int);
            let found = m.pos + n < m.chars.len();
            &&& found ==> (r matches Some(b) && b@ == body)
            &&& !found ==> r is None
            &&& final(source_chars)@ == CursorModel {
                chars: m.chars,
                pos: if found {
                    m.pos + n + 1
                } else {
                    m.chars.len()
                },
                line: m.line + newline_count(body),
            }
        }),
{
    let (body, found) = walk_until(source_chars, '"');
    if found {
        Some(body)
    } else {
        None
    }
}

} // verus!
