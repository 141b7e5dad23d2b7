//! Source text as the assembler sees it: a sequence of characters cut into
//! lines, and each line cut into tokens at spaces.
//!
//! Lines and tokens are not copied: each is a [`Span`] of the source.

use vstd::prelude::*;

verus! {

/// A stretch of the source, from `start` up to but not including `end`.
#[derive(Clone, Copy, Debug, PartialEq, Eq)]
pub struct Span {
    pub start: usize,
    pub end: usize,
}

impl Span {
    /// The span lies inside a text of `len` characters.
    pub open spec fn within(self, len: nat) -> bool {
        self.start <= self.end <= len
    }

    /// The characters of `src` that the span covers.
    pub open spec fn text(self, src: Seq<char>) -> Seq<char> {
        src.subrange(self.start as int, self.end as int)
    }

    /// Number of characters in the span.
    pub fn len(&self) -> (n: usize)
        requires
            self.start <= self.end,
        ensures
            n == self.end - self.start,
    {
        self.end - self.start
    }
}

/// The lines of `src` from `pos` on, where the line being read began at
/// `start`.
///
/// A line ends at a line feed, which is not part of it, nor is a carriage
/// return right before that line feed. Text after the last line feed is a
/// line of its own unless it is empty.
pub open spec fn line_spans_from(src: Seq<char>, pos: int, start: int) -> Seq<Span>
    decreases src.len() - pos,
{
    if pos >= src.len() {
        if start < pos {
            seq![Span { start: start as usize, end: pos as usize }]
        } else {
            seq![]
        }
    } else if src[pos] == '\n' {
        let end = if start < pos && src[pos - 1] == '\r' {
            pos - 1
        } else {
            pos
        };
        seq![Span { start: start as usize, end: end as usize }] + line_spans_from(
            src,
            pos + 1,
            pos + 1,
        )
    } else {
        line_spans_from(src, pos + 1, start)
    }
}

/// The lines of `src`, in order.
pub open spec fn line_spans(src: Seq<char>) -> Seq<Span> {
    line_spans_from(src, 0, 0)
}

/// The tokens of `src` between `pos` and `end`, where `open` is the start
/// of the token being read, if one is.
pub open spec fn token_spans_from(src: Seq<char>, pos: int, end: int, open: Option<int>) -> Seq<
    Span,
>
    decreases end - pos,
{
    if pos >= end {
        match open {
            Some(start) => seq![Span { start: start as usize, end: pos as usize }],
            None => seq![],
        }
    } else if src[pos] == ' ' {
        let rest = token_spans_from(src, pos + 1, end, None);
        match open {
            Some(start) => seq![Span { start: start as usize, end: pos as usize }] + rest,
            None => rest,
        }
    } else {
        match open {
            Some(start) => token_spans_from(src, pos + 1, end, open),
            None => token_spans_from(src, pos + 1, end, Some(pos)),
        }
    }
}

/// The tokens of a line: its longest stretches free of spaces, in order.
pub open spec fn token_spans(src: Seq<char>, line: Span) -> Seq<Span> {
    token_spans_from(src, line.start as int, line.end as int, None)
}

/// Every span of `spans` is a nonempty stretch of `line`.
pub open spec fn tokens_within(spans: Seq<Span>, line: Span) -> bool {
    forall|k: int|
        0 <= k < spans.len() ==> line.start <= (#[trigger] spans[k]).start < spans[k].end
            <= line.end
}

/// Cuts the source into lines.
pub fn split_lines(src: &Vec<char>) -> (lines: Vec<Span>)
    ensures
        lines@ == line_spans(src@),
        forall|k: int| 0 <= k < lines@.len() ==> (#[trigger] lines@[k]).within(src@.len()),
{
    let mut lines: Vec<Span> = Vec::new();
    let mut start: usize = 0;
    let mut pos: usize = 0;
    while pos < src.len()
        invariant
            start <= pos <= src@.len(),
            line_spans(src@) == lines@ + line_spans_from(src@, pos as int, start as int),
            forall|k: int| 0 <= k < lines@.len() ==> (#[trigger] lines@[k]).within(src@.len()),
        decreases src@.len() - pos,
    {
        if src[pos] == '\n' {
            let end: usize = if start < pos && src[pos - 1] == '\r' {
                pos - 1
            } else {
                pos
            };
            let line = Span { start, end };
            proof {
                let rest = line_spans_from(src@, pos + 1, pos + 1);
                assert(line_spans_from(src@, pos as int, start as int) == seq![line] + rest);
                assert(lines@ + (seq![line] + rest) =~= lines@.push(line) + rest);
            }
            lines.push(line);
            start = pos + 1;
        }
        pos += 1;
    }
    if start < pos {
        let line = Span { start, end: pos };
        proof {
            assert(line_spans_from(src@, pos as int, start as int) == seq![line]);
            assert(lines@ + seq![line] =~= lines@.push(line));
        }
        lines.push(line);
    } else {
        assert(lines@ + Seq::<Span>::empty() =~= lines@);
    }
    lines
}

/// Cuts a line into tokens.
pub fn split_tokens(src: &Vec<char>, line: Span) -> (tokens: Vec<Span>)
    requires
        line.within(src@.len()),
    ensures
        tokens@ == token_spans(src@, line),
        tokens_within(tokens@, line),
{
    let mut tokens: Vec<Span> = Vec::new();
    let mut open: Option<usize> = None;
    let mut pos: usize = line.start;
    while pos < line.end
        invariant
            line.within(src@.len()),
            line.start <= pos <= line.end,
            open matches Some(start) ==> line.start <= start < pos,
            token_spans(src@, line) == tokens@ + token_spans_from(
                src@,
                pos as int,
                line.end as int,
                match open {
                    Some(start) => Some(start as int),
                    None => None,
                },
            ),
            tokens_within(tokens@, line),
        decreases line.end - pos,
    {
        if src[pos] == ' ' {
            match open {
                Some(start) => {
                    let token = Span { start, end: pos };
                    proof {
                        let rest = token_spans_from(src@, pos + 1, line.end as int, None);
                        assert(tokens@ + (seq![token] + rest) =~= tokens@.push(token) + rest);
                    }
                    tokens.push(token);
                },
                None => {},
            }
            open = None;
        } else if open.is_none() {
            open = Some(pos);
        }
        pos += 1;
    }
    match open {
        Some(start) => {
            let token = Span { start, end: pos };
            proof {
                assert(tokens@ + seq![token] =~= tokens@.push(token));
            }
            tokens.push(token);
        },
        None => {
            assert(tokens@ + Seq::<Span>::empty() =~= tokens@);
        },
    }
    tokens
}

/// `String::push`: the string afterwards is the string before with the
/// character at its end.
#[verifier::external_body]
pub(crate) fn push_char(text: &mut String, c: char)
    ensures
        final(text)@ == old(text)@.push(c),
{
    text.push(c);
}

/// Copies the characters of `span` into a string of their own.
pub fn span_string(src: &Vec<char>, span: Span) -> (text: String)
    requires
        span.within(src@.len()),
    ensures
        text@ == span.text(src@),
{
    let mut text = String::new();
    let mut pos: usize = span.start;
    while pos < span.end
        invariant
            span.within(src@.len()),
            span.start <= pos <= span.end,
            text@ == src@.subrange(span.start as int, pos as int),
        decreases span.end - pos,
    {
        push_char(&mut text, src[pos]);
        assert(src@.subrange(span.start as int, pos as int).push(src@[pos as int])
            =~= src@.subrange(span.start as int, pos + 1));
        pos += 1;
    }
    text
}

/// The characters of a string, one by one.
pub fn collect_chars(source: &str) -> (chars: Vec<char>)
    ensures
        chars@ == source@,
{
    let mut chars: Vec<char> = Vec::new();
    for c in it: source.chars()
        invariant
            chars@ == it.seq().take(it.index() as int),
    {
        chars.push(c);
    }
    chars
}

/// Tells whether the characters of `span` spell `word`.
pub fn span_is(src: &Vec<char>, span: Span, word: &str) -> (same: bool)
    requires
        span.within(src@.len()),
    ensures
        same == (span.text(src@) == word@),
{
    let n: usize = word.unicode_len();
    if span.end - span.start != n {
        return false;
    }
    let mut i: usize = 0;
    while i < n
        invariant
            span.within(src@.len()),
            span.end - span.start == n,
            n == word@.len(),
            i <= n,
            forall|k: int| 0 <= k < i ==> src@[span.start + k] == word@[k],
        decreases n - i,
    {
        if src[span.start + i] != word.get_char(i) {
            assert(span.text(src@)[i as int] != word@[i as int]);
            return false;
        }
        i += 1;
    }
    assert(span.text(src@) =~= word@);
    true
}

/// No character of `src` from `from` up to `to` is `c`.
pub open spec fn free_of(src: Seq<char>, from: int, to: int, c: char) -> bool {
    forall|i: int| from <= i < to ==> src[i] != c
}

/// `span` is a token of `line`: a nonempty stretch without a space that
/// has the start of the line or a space before it, and the end of the line
/// or a space behind it.
pub open spec fn is_token(src: Seq<char>, line: Span, span: Span) -> bool {
    &&& line.start <= span.start < span.end <= line.end
    &&& free_of(src, span.start as int, span.end as int, ' ')
    &&& (span.start == line.start || src[span.start - 1] == ' ')
    &&& (span.end == line.end || src[span.end as int] == ' ')
}

/// `spans` lie one behind the other, each with at least one character
/// between it and the next.
pub open spec fn apart(spans: Seq<Span>) -> bool {
    forall|k: int| 0 <= k < spans.len() - 1 ==> (#[trigger] spans[k]).end < spans[k + 1].start
}

/// Position `i` lies in one of `spans`.
pub open spec fn covered(spans: Seq<Span>, i: int) -> bool {
    exists|k: int| 0 <= k < spans.len() && (#[trigger] spans[k]).start <= i < spans[k].end
}

/// What holds of the tokens that are found from `pos` on in a line that
/// starts at `lo`.
proof fn lemma_token_spans_from(src: Seq<char>, lo: int, pos: int, end: int, open: Option<int>)
    requires
        0 <= lo <= pos <= end <= src.len() <= usize::MAX,
        match open {
            Some(start) => lo <= start < pos && free_of(src, start, pos, ' ') && (start == lo
                || src[start - 1] == ' '),
            None => pos == lo || src[pos - 1] == ' ',
        },
    ensures
        ({
            let toks = token_spans_from(src, pos, end, open);
            let line = Span { start: lo as usize, end: end as usize };
            &&& forall|k: int| 0 <= k < toks.len() ==> is_token(src, line, #[trigger] toks[k])
            &&& apart(toks)
            &&& open matches Some(start) ==> toks.len() > 0 && toks[0].start == start
                && toks[0].end >= pos
            &&& open is None && toks.len() > 0 ==> toks[0].start >= pos
            &&& forall|i: int| pos <= i < end && src[i] != ' ' ==> covered(toks, i)
        }),
    decreases end - pos,
{
    let toks = token_spans_from(src, pos, end, open);
    let line = Span { start: lo as usize, end: end as usize };
    if pos >= end {
    } else if src[pos] == ' ' {
        let rest = token_spans_from(src, pos + 1, end, None);
        lemma_token_spans_from(src, lo, pos + 1, end, None);
        match open {
            Some(start) => {
                let first = Span { start: start as usize, end: pos as usize };
                assert(toks == seq![first] + rest);
                assert(is_token(src, line, first));
                assert forall|k: int| 0 <= k < toks.len() implies is_token(
                    src,
                    line,
                    #[trigger] toks[k],
                ) by {
                    if k > 0 {
                        assert(toks[k] == rest[k - 1]);
                    }
                }
                assert forall|k: int| 0 <= k < toks.len() - 1 implies (#[trigger] toks[k]).end
                    < toks[k + 1].start by {
                    assert(toks[k + 1] == rest[k]);
                    if k > 0 {
                        assert(toks[k] == rest[k - 1]);
                    }
                }
                assert forall|i: int| pos <= i < end && src[i] != ' ' implies covered(toks, i) by {
                    assert(covered(rest, i));
                    let k = choose|k: int|
                        0 <= k < rest.len() && (#[trigger] rest[k]).start <= i < rest[k].end;
                    assert(toks[k + 1] == rest[k]);
                }
            },
            None => {
                assert(toks == rest);
            },
        }
    } else {
        let started = match open {
            Some(start) => start,
            None => pos,
        };
        lemma_token_spans_from(src, lo, pos + 1, end, Some(started));
        assert(toks == token_spans_from(src, pos + 1, end, Some(started)));
        assert forall|i: int| pos <= i < end && src[i] != ' ' implies covered(toks, i) by {
            if i == pos {
                assert(is_token(src, line, toks[0]));
                assert(toks[0].start <= pos < toks[0].end);
            }
        }
    }
}

/// The tokens of a line are its longest stretches free of spaces, in
/// order: each is such a stretch, they lie apart, and no character but a
/// space lies outside them.
pub proof fn lemma_tokens_are_longest_stretches(src: Seq<char>, line: Span)
    requires
        line.within(src.len()),
        src.len() <= usize::MAX,
    ensures
        forall|k: int|
            0 <= k < token_spans(src, line).len() ==> is_token(
                src,
                line,
                #[trigger] token_spans(src, line)[k],
            ),
        apart(token_spans(src, line)),
        forall|i: int|
            line.start <= i < line.end && src[i] != ' ' ==> covered(token_spans(src, line), i),
{
    lemma_token_spans_from(src, line.start as int, line.start as int, line.end as int, None);
}

/// `span` is a line of `src`: a stretch without a line feed that has the
/// start of the text or a line feed before it, and behind it the end of
/// the text, a line feed, or a carriage return and a line feed.
pub open spec fn is_line(src: Seq<char>, span: Span) -> bool {
    &&& span.start <= span.end <= src.len()
    &&& free_of(src, span.start as int, span.end as int, '\n')
    &&& (span.start == 0 || src[span.start - 1] == '\n')
    &&& {
        ||| span.end == src.len() && span.start < span.end
        ||| span.end < src.len() && src[span.end as int] == '\n'
        ||| span.end + 1 < src.len() && src[span.end as int] == '\r' && src[span.end + 1]
            == '\n'
    }
}

/// What holds of the lines that are found from `pos` on when the line
/// being read began at `start`.
proof fn lemma_line_spans_from(src: Seq<char>, pos: int, start: int)
    requires
        0 <= start <= pos <= src.len() <= usize::MAX,
        free_of(src, start, pos, '\n'),
        start == 0 || src[start - 1] == '\n',
    ensures
        ({
            let lines = line_spans_from(src, pos, start);
            &&& forall|k: int| 0 <= k < lines.len() ==> is_line(src, #[trigger] lines[k])
            &&& apart(lines)
            &&& lines.len() > 0 ==> lines[0].start == start
            &&& forall|i: int|
                pos <= i < src.len() && src[i] != '\n' && !(src[i] == '\r' && i + 1 < src.len()
                    && src[i + 1] == '\n') ==> covered(lines, i)
            &&& start < pos ==> lines.len() > 0 && lines[0].end >= pos - 1
        }),
    decreases src.len() - pos,
{
    let lines = line_spans_from(src, pos, start);
    if pos >= src.len() {
    } else if src[pos] == '\n' {
        let end = if start < pos && src[pos - 1] == '\r' {
            pos - 1
        } else {
            pos
        };
        let first = Span { start: start as usize, end: end as usize };
        let rest = line_spans_from(src, pos + 1, pos + 1);
        lemma_line_spans_from(src, pos + 1, pos + 1);
        assert(lines == seq![first] + rest);
        assert(is_line(src, first));
        assert forall|k: int| 0 <= k < lines.len() implies is_line(src, #[trigger] lines[k]) by {
            if k > 0 {
                assert(lines[k] == rest[k - 1]);
            }
        }
        assert forall|k: int| 0 <= k < lines.len() - 1 implies (#[trigger] lines[k]).end < lines[k
            + 1].start by {
            assert(lines[k + 1] == rest[k]);
            if k > 0 {
                assert(lines[k] == rest[k - 1]);
            }
        }
        assert forall|i: int|
            pos <= i < src.len() && src[i] != '\n' && !(src[i] == '\r' && i + 1 < src.len()
                && src[i + 1] == '\n') implies covered(lines, i) by {
            assert(covered(rest, i));
            let k = choose|k: int|
                0 <= k < rest.len() && (#[trigger] rest[k]).start <= i < rest[k].end;
            assert(lines[k + 1] == rest[k]);
        }
    } else {
        lemma_line_spans_from(src, pos + 1, start);
        assert(lines == line_spans_from(src, pos + 1, start));
        assert forall|i: int|
            pos <= i < src.len() && src[i] != '\n' && !(src[i] == '\r' && i + 1 < src.len()
                && src[i + 1] == '\n') implies covered(lines, i) by {
            if i == pos {
                assert(is_line(src, lines[0]));
                assert(lines[0].start <= pos < lines[0].end);
            }
        }
    }
}

/// The lines of a text are its stretches between line feeds, in order:
/// each is such a stretch, they lie apart, and no character lies outside
/// them but the line feeds and the carriage returns right before line
/// feeds.
pub proof fn lemma_lines_are_stretches_between_line_feeds(src: Seq<char>)
    requires
        src.len() <= usize::MAX,
    ensures
        forall|k: int|
            0 <= k < line_spans(src).len() ==> is_line(src, #[trigger] line_spans(src)[k]),
        apart(line_spans(src)),
        forall|i: int|
            0 <= i < src.len() && src[i] != '\n' && !(src[i] == '\r' && i + 1 < src.len()
                && src[i + 1] == '\n') ==> covered(line_spans(src), i),
{
    lemma_line_spans_from(src, 0, 0);
}

} // verus!
