use vstd::prelude::*;
use crate::chars::char_is_whitespace;
use crate::error::{opt_text, ErrorView, FSOParsingError};
use crate::lexer::{
    advance, at_block_comment, at_version_marker, block_end, block_text, count_newlines, find_from,
    inline_space_len, join_comment, lemma_advance_twice, lemma_advance_zero,
    lemma_count_newlines_bound, lemma_count_newlines_concat, lemma_find_from_bound,
    lemma_inline_space_len_bound, lemma_until_len_bound, line_len, line_value, line_value_len,
    scan, scan_from, starts_with, text_until, token_len, trimmed_len, until_len, version_text,
    Position, Scan,
};
use crate::pattern::pattern_is_match;
use crate::text::{chars_to_string, str_to_chars};

verus! {

/// Whether `c` is one of the characters of `set`.
pub fn array_contains<const N: usize>(set: &[char; N], c: char) -> (r: bool)
    ensures
        r == set@.contains(c),
{
    let mut i: usize = 0;
    while i < N
        invariant
            i <= N,
            set@.len() == N,
            forall|j: int| 0 <= j < i ==> set@[j] != c,
        decreases N - i,
    {
        if set[i] == c {
            return true;
        }
        i += 1;
    }
    false
}

/// The mismatch report of `consume_string`: what was expected and what stood
/// in its place.
pub open spec fn expected_reason(expect: Seq<char>, rest: Seq<char>) -> Seq<char> {
    "Expected \""@ + expect + "\", got "@ + rest.take(
        if rest.len() < expect.len() {
            rest.len() as int
        } else {
            expect.len() as int
        },
    )
}

/// Text captured at a semicolon.
pub enum SemicolonCapture {
    /// A version marker, delimiters included.
    Version(String),
    /// A comment line, without its line break.
    Comment(String),
}

/// Adds the capture `add` to the comment text gathered so far.
pub fn join_comment_text(comments: Option<String>, fresh: bool, add: &str) -> (r: String)
    ensures
        r@ == join_comment(opt_text(comments), fresh, add@),
{
    let mut text = match comments {
        Some(c) => c,
        None => String::new(),
    };
    if !fresh {
        text.push('\n');
    }
    text.append(add);
    text
}

/// A scan that has read `k` characters and then goes on as `inner`.
pub open spec fn scan_after(k: nat, inner: Scan) -> Scan {
    Scan { len: k + inner.len, comments: inner.comments, version: inner.version }
}

/// An input cursor with the lexical primitives of the table format.
pub trait FSOParser: Sized {
    /// The unread text and the line breaks read so far.
    spec fn position(&self) -> Position;

    /// The unread text as an owned string.
    fn get(&self) -> (text: String)
        ensures
            text@ == self.position().rest,
    ;

    /// Number of unread characters.
    fn available(&self) -> (n: usize)
        ensures
            n == self.position().rest.len(),
    ;

    /// The unread character at `offset`, if there is one.
    fn peek(&self, offset: usize) -> (c: Option<char>)
        ensures
            c == if offset < self.position().rest.len() {
                Some(self.position().rest[offset as int])
            } else {
                None
            },
    ;

    /// Line breaks read so far.
    fn line(&self) -> (n: usize)
        ensures
            n == self.position().line,
    ;

    /// Reads `count` characters, counting the line breaks among them.
    fn consume(&mut self, count: usize)
        requires
            count <= old(self).position().rest.len(),
        ensures
            final(self).position() == advance(old(self).position(), count as nat),
    ;

    /// The unread characters from `from` up to `to`, as a string.
    fn copy_text(&self, from: usize, to: usize) -> (text: String)
        requires
            from <= to <= self.position().rest.len(),
        ensures
            text@ == self.position().rest.subrange(from as int, to as int),
    {
        let ghost s = self.position().rest;
        let mut text = String::new();
        let mut i: usize = from;
        while i < to
            invariant
                from <= i <= to <= s.len(),
                s == self.position().rest,
                text@ == s.subrange(from as int, i as int),
            decreases to - i,
        {
            let c = self.peek(i).unwrap();
            text.push(c);
            i += 1;
        }
        text
    }

    /// Skips white space within the line, commas, and the characters of
    /// `also_consume`.
    fn consume_whitespace_inline<const N: usize>(&mut self, also_consume: &[char; N])
        ensures
            final(self).position() == advance(
                old(self).position(),
                inline_space_len(old(self).position().rest, also_consume@),
            ),
    {
        let ghost s = self.position().rest;
        let total: usize = self.available();
        let mut i: usize = 0;
        let mut going: bool = true;
        assert(s.skip(0) =~= s);
        while going && i < total
            invariant
                i <= total == s.len(),
                s == self.position().rest,
                inline_space_len(s, also_consume@) == i + inline_space_len(
                    s.skip(i as int),
                    also_consume@,
                ),
                !going ==> inline_space_len(s.skip(i as int), also_consume@) == 0,
            decreases total - i + if going { 1int } else { 0int },
        {
            let c = self.peek(i).unwrap();
            if (c != '\n' && char_is_whitespace(c)) || c == ',' || array_contains(
                also_consume,
                c,
            ) {
                assert(s.skip(i as int).skip(1) =~= s.skip(i + 1));
                i += 1;
            } else {
                going = false;
            }
        }
        self.consume(i);
    }

    /// Reads a bare token: everything up to the next white space or comma.
    fn read_until_whitespace(&mut self) -> (token: String)
        ensures
            token@ == old(self).position().rest.take(
                token_len(old(self).position().rest) as int,
            ),
            final(self).position() == advance(
                old(self).position(),
                token_len(old(self).position().rest),
            ),
    {
        let ghost s = self.position().rest;
        let total: usize = self.available();
        let mut i: usize = 0;
        let mut going: bool = true;
        assert(s.skip(0) =~= s);
        while going && i < total
            invariant
                i <= total == s.len(),
                s == self.position().rest,
                token_len(s) == i + token_len(s.skip(i as int)),
                !going ==> token_len(s.skip(i as int)) == 0,
            decreases total - i + if going { 1int } else { 0int },
        {
            let c = self.peek(i).unwrap();
            if !char_is_whitespace(c) && c != ',' {
                assert(s.skip(i as int).skip(1) =~= s.skip(i + 1));
                i += 1;
            } else {
                going = false;
            }
        }
        let token = self.copy_text(0, i);
        self.consume(i);
        token
    }

    /// Whether `target` stands at `offset` in the unread text.
    fn matches_at(&self, target: &Vec<char>, offset: usize) -> (r: bool)
        requires
            offset + target.len() <= self.position().rest.len(),
        ensures
            r == starts_with(self.position().rest.skip(offset as int), target@),
    {
        let ghost s = self.position().rest.skip(offset as int);
        let total: usize = self.available();
        let mut j: usize = 0;
        while j < target.len()
            invariant
                j <= target.len(),
                offset + target.len() <= total == self.position().rest.len(),
                s == self.position().rest.skip(offset as int),
                forall|k: int| 0 <= k < j ==> s[k] == target@[k],
            decreases target.len() - j,
        {
            let c = self.peek(offset + j).unwrap();
            if c != target[j] {
                return false;
            }
            j += 1;
        }
        assert(s.take(target.len() as int) =~= target@);
        true
    }

    /// The least offset at which `target` occurs in the unread text.
    fn find_target(&self, target: &Vec<char>) -> (r: Option<usize>)
        ensures
            match r {
                Some(i) => find_from(self.position().rest, target@, 0) == Some(i as int),
                None => find_from(self.position().rest, target@, 0) is None,
            },
    {
        let ghost s = self.position().rest;
        let total: usize = self.available();
        if target.len() > total {
            return None;
        }
        if target.len() == 0 {
            return Some(0);
        }
        let last: usize = total - target.len();
        let mut i: usize = 0;
        while i <= last
            invariant
                i <= last + 1,
                last + target.len() == total == s.len(),
                target.len() > 0,
                s == self.position().rest,
                find_from(s, target@, 0) == find_from(s, target@, i as int),
            decreases last + 1 - i,
        {
            if self.matches_at(target, i) {
                return Some(i);
            }
            i += 1;
        }
        None
    }

    /// Reads up to the first occurrence of `target` and returns what precedes
    /// it. The occurrence itself is read too where `consume_target` is set.
    /// Where `target` does not occur, all the rest is read and returned.
    fn read_until_target(&mut self, target: &str, consume_target: bool) -> (text: String)
        ensures
            text@ == text_until(old(self).position().rest, target@),
            final(self).position() == advance(
                old(self).position(),
                until_len(old(self).position().rest, target@, consume_target),
            ),
    {
        let ghost s = self.position().rest;
        let goal = str_to_chars(target);
        let total: usize = self.available();
        match self.find_target(&goal) {
            Some(i) => {
                assert(i + goal.len() <= total) by {
                    lemma_find_from_bound(s, goal@, 0);
                }
                let text = self.copy_text(0, i);
                self.consume(
                    if consume_target {
                        i + goal.len()
                    } else {
                        i
                    },
                );
                text
            },
            None => {
                let text = self.copy_text(0, total);
                self.consume(total);
                text
            },
        }
    }

    /// Reads the value on the current line: up to a line break or the start
    /// of a comment, without trailing white space. A character of
    /// `also_stop` ends the value as well, and is then read with it.
    fn read_until_last_whitespace_of_line_or_stop<const N: usize>(
        &mut self,
        also_stop: &[char; N],
    ) -> (text: String)
        ensures
            text@ == line_value(old(self).position().rest, also_stop@),
            final(self).position() == advance(
                old(self).position(),
                line_value_len(old(self).position().rest, also_stop@),
            ),
    {
        let ghost s = self.position().rest;
        let total: usize = self.available();
        let mut i: usize = 0;
        let mut last_non_whitespace: usize = 0;
        let mut consume_until: usize = 0;
        let mut going: bool = true;
        assert(s.skip(0) =~= s);
        while going && i < total
            invariant
                i <= total == s.len(),
                s == self.position().rest,
                line_len(s, also_stop@) == i + line_len(s.skip(i as int), also_stop@),
                last_non_whitespace == trimmed_len(s.take(i as int)),
                last_non_whitespace <= i,
                !going ==> i < total && line_len(s.skip(i as int), also_stop@) == 0,
                consume_until == if !going && also_stop@.contains(s[i as int]) {
                    i + 1
                } else {
                    last_non_whitespace as int
                },
            decreases total - i + if going { 1int } else { 0int },
        {
            let c = self.peek(i).unwrap();
            if array_contains(also_stop, c) {
                consume_until = i + 1;
                going = false;
            } else if c == '\n' || c == ';' {
                going = false;
            } else {
                assert(s.skip(i as int).skip(1) =~= s.skip(i + 1));
                assert(s.take(i + 1).drop_last() =~= s.take(i as int));
                if !char_is_whitespace(c) {
                    last_non_whitespace = i + 1;
                    consume_until = i + 1;
                }
                i += 1;
            }
        }
        let text = self.copy_text(0, last_non_whitespace);
        self.consume(consume_until);
        text
    }

    /// Reads the literal `expect` if the unread text begins with it, and
    /// fails without reading anything if it does not.
    fn consume_string(&mut self, expect: &str) -> (r: Result<(), FSOParsingError>)
        ensures
            match r {
                Ok(_) => {
                    &&& starts_with(old(self).position().rest, expect@)
                    &&& final(self).position() == advance(old(self).position(), expect@.len())
                },
                Err(e) => {
                    &&& !starts_with(old(self).position().rest, expect@)
                    &&& final(self).position() == old(self).position()
                    &&& e@ == (ErrorView {
                        line: old(self).position().line,
                        reason: expected_reason(expect@, old(self).position().rest),
                        comments: None,
                        version_string: None,
                    })
                },
            },
    {
        let ghost s = self.position().rest;
        let goal = str_to_chars(expect);
        let total: usize = self.available();
        assert(s.skip(0) =~= s);
        if goal.len() <= total && self.matches_at(&goal, 0) {
            self.consume(goal.len());
            Ok(())
        } else {
            let shown: usize = if total < goal.len() {
                total
            } else {
                goal.len()
            };
            let got = self.copy_text(0, shown);
            let mut reason = String::new();
            reason.append("Expected \"");
            reason.append(expect);
            reason.append("\", got ");
            reason.append(got.as_str());
            Err(FSOParsingError::new(self.line(), reason))
        }
    }

    /// Whether a version marker stands at the cursor: two semicolons, and the
    /// version pattern matches the unread text.
    fn version_marker_ahead(&self) -> (r: bool)
        ensures
            r == at_version_marker(self.position().rest),
    {
        if self.peek(0) == Some(';') && self.peek(1) == Some(';') {
            let text = self.get();
            let verdict = pattern_is_match("\\A;;FSO\\x20\\d+(?:\\x2E\\d+)+;;", text.as_str());
            verdict == Some(true)
        } else {
            false
        }
    }

    /// Reads what starts at a semicolon. Where `is_version` is set, that is a
    /// version marker: two semicolons, a body, and the next two semicolons.
    /// Where it is not, it is a comment up to and including the line break.
    fn capture_semicolon(&mut self, is_version: bool) -> (r: SemicolonCapture)
        requires
            old(self).position().rest.len() >= 1,
            is_version ==> old(self).position().rest.len() >= 2,
        ensures
            match r {
                SemicolonCapture::Version(v) => {
                    &&& is_version
                    &&& v@ == version_text(text_until(old(self).position().rest.skip(2), ";;"@))
                    &&& final(self).position() == advance(
                        old(self).position(),
                        2 + until_len(old(self).position().rest.skip(2), ";;"@, true),
                    )
                },
                SemicolonCapture::Comment(c) => {
                    &&& !is_version
                    &&& c@ == text_until(old(self).position().rest, seq!['\n'])
                    &&& final(self).position() == advance(
                        old(self).position(),
                        until_len(old(self).position().rest, seq!['\n'], true),
                    )
                },
            },
    {
        let ghost p0 = self.position();
        if is_version {
            self.consume(2);
            let body = self.read_until_target(";;", true);
            let mut text = String::new();
            text.append(";;");
            text.append(body.as_str());
            text.append(";;");
            proof {
                lemma_until_len_bound(p0.rest.skip(2), ";;"@, true);
                lemma_advance_twice(p0, 2, until_len(p0.rest.skip(2), ";;"@, true));
            }
            SemicolonCapture::Version(text)
        } else {
            proof {
                reveal_strlit("\n");
                assert("\n"@ =~= seq!['\n']);
            }
            let line = self.read_until_target("\n", true);
            SemicolonCapture::Comment(line)
        }
    }

    /// Reads a block comment, whose opening delimiter stands at the cursor,
    /// through its closing delimiter, and returns it with both.
    fn capture_block_comment(&mut self) -> (text: String)
        requires
            at_block_comment(old(self).position().rest),
        ensures
            text@ == block_text(
                old(self).position().rest[0],
                text_until(
                    old(self).position().rest.skip(2),
                    block_end(old(self).position().rest[0]),
                ),
            ),
            final(self).position() == advance(
                old(self).position(),
                2 + until_len(
                    old(self).position().rest.skip(2),
                    block_end(old(self).position().rest[0]),
                    true,
                ),
            ),
    {
        let ghost p0 = self.position();
        let start = self.peek(0).unwrap();
        self.consume(2);
        let mut target = String::new();
        target.push('*');
        target.push(start);
        assert(target@ =~= block_end(start));
        let body = self.read_until_target(target.as_str(), true);
        let mut text = String::new();
        text.push(start);
        text.push('*');
        text.append(body.as_str());
        text.push('*');
        text.push(start);
        proof {
            lemma_until_len_bound(p0.rest.skip(2), block_end(start), true);
            lemma_advance_twice(p0, 2, until_len(p0.rest.skip(2), block_end(start), true));
        }
        text
    }

    /// Skips white space, line breaks and comments, and returns the comment
    /// text gathered and the version marker met, if any. A line break ends
    /// the scan, unread, where `stop_on_newline` is set; a version marker
    /// always ends it.
    fn consume_whitespace(&mut self, stop_on_newline: bool) -> (r: (Option<String>, Option<String>))
        ensures
            opt_text(r.0) == scan(old(self).position().rest, stop_on_newline).comments,
            opt_text(r.1) == scan(old(self).position().rest, stop_on_newline).version,
            final(self).position() == advance(
                old(self).position(),
                scan(old(self).position().rest, stop_on_newline).len,
            ),
    {
        let ghost p0 = self.position();
        let ghost s0 = p0.rest;
        let ghost mut k: nat = 0;
        let mut comments: Option<String> = None;
        let mut version: Option<String> = None;
        let mut fresh: bool = true;
        let mut going: bool = true;
        proof {
            lemma_advance_zero(p0);
        }
        while going
            invariant
                k <= s0.len(),
                s0 == p0.rest,
                self.position() == advance(p0, k),
                going ==> version is None,
                going ==> scan(s0, stop_on_newline) == scan_after(
                    k,
                    scan_from(s0.skip(k as int), stop_on_newline, opt_text(comments), fresh),
                ),
                !going ==> scan(s0, stop_on_newline) == (Scan {
                    len: k,
                    comments: opt_text(comments),
                    version: opt_text(version),
                }),
            decreases s0.len() - k + if going { 1int } else { 0int },
        {
            let ghost cur = s0.skip(k as int);
            let ghost skipped = inline_space_len(cur, Seq::<char>::empty());
            let ghost t = cur.skip(skipped as int);
            let none: [char; 0] = [];
            assert(none@ =~= Seq::<char>::empty());
            self.consume_whitespace_inline(&none);
            proof {
                lemma_inline_space_len_bound(cur, Seq::<char>::empty());
                lemma_advance_twice(p0, k, skipped);
            }
            let first = self.peek(0);
            let second = self.peek(1);
            if first.is_none() {
                proof {
                    k = k + skipped;
                }
                going = false;
            } else if first == Some('\n') {
                if stop_on_newline {
                    proof {
                        k = k + skipped;
                    }
                    going = false;
                } else {
                    self.consume(1);
                    fresh = true;
                    proof {
                        lemma_advance_twice(p0, k + skipped, 1);
                        k = k + skipped + 1;
                    }
                }
            } else if first == Some(';') {
                let marker = self.version_marker_ahead();
                let ghost used = if marker {
                    2 + until_len(t.skip(2), ";;"@, true)
                } else {
                    until_len(t, seq!['\n'], true)
                };
                proof {
                    lemma_until_len_bound(t.skip(2), ";;"@, true);
                    lemma_until_len_bound(t, seq!['\n'], true);
                }
                match self.capture_semicolon(marker) {
                    SemicolonCapture::Version(v) => {
                        version = Some(v);
                        going = false;
                    },
                    SemicolonCapture::Comment(line) => {
                        comments = Some(join_comment_text(comments, true, line.as_str()));
                        fresh = false;
                    },
                }
                proof {
                    lemma_advance_twice(p0, k + skipped, used);
                    k = k + skipped + used;
                }
            } else if first == Some('/') && second == Some('/') {
                let ghost used = until_len(t, seq!['\n'], true);
                proof {
                    reveal_strlit("\n");
                    assert("\n"@ =~= seq!['\n']);
                }
                let line = self.read_until_target("\n", true);
                comments = Some(join_comment_text(comments, true, line.as_str()));
                fresh = false;
                proof {
                    lemma_until_len_bound(t, seq!['\n'], true);
                    lemma_advance_twice(p0, k + skipped, used);
                    k = k + skipped + used;
                }
            } else if (first == Some('/') || first == Some('!')) && second == Some('*') {
                let ghost used = 2 + until_len(t.skip(2), block_end(t[0]), true);
                let block = self.capture_block_comment();
                comments = Some(join_comment_text(comments, fresh, block.as_str()));
                fresh = false;
                proof {
                    lemma_until_len_bound(t.skip(2), block_end(t[0]), true);
                    lemma_advance_twice(p0, k + skipped, used);
                    assert(t.skip(2).skip(used - 2) =~= s0.skip((k + skipped + used) as int));
                    k = k + skipped + used;
                }
            } else {
                proof {
                    k = k + skipped;
                }
                going = false;
            }
        }
        (comments, version)
    }
}

/// A cursor over a text held in memory.
pub struct FSOTableFileParser {
    text: Vec<char>,
    state: FSOParserState,
}

/// Characters and line breaks read so far.
struct FSOParserState {
    pos: usize,
    line: usize,
}

impl FSOTableFileParser {
    #[verifier::type_invariant]
    spec fn well_formed(&self) -> bool {
        &&& self.state.pos <= self.text@.len()
        &&& self.state.line == count_newlines(self.text@.take(self.state.pos as int))
    }

    /// A cursor at the start of `text`, on line 0.
    pub fn from_text(text: &str) -> (parser: Self)
        ensures
            parser.position() == (Position { rest: text@, line: 0 }),
    {
        let chars = str_to_chars(text);
        assert(chars@.skip(0) =~= chars@);
        FSOTableFileParser { text: chars, state: FSOParserState { pos: 0, line: 0 } }
    }
}

impl FSOParser for FSOTableFileParser {
    closed spec fn position(&self) -> Position {
        Position { rest: self.text@.skip(self.state.pos as int), line: self.state.line as nat }
    }

    fn get(&self) -> (text: String) {
        proof {
            use_type_invariant(self);
        }
        let text = chars_to_string(&self.text, self.state.pos, self.text.len());
        text
    }

    fn available(&self) -> (n: usize) {
        proof {
            use_type_invariant(self);
        }
        self.text.len() - self.state.pos
    }

    fn peek(&self, offset: usize) -> (c: Option<char>) {
        proof {
            use_type_invariant(self);
        }
        if offset < self.text.len() - self.state.pos {
            Some(self.text[self.state.pos + offset])
        } else {
            None
        }
    }

    fn line(&self) -> (n: usize) {
        self.state.line
    }

    fn consume(&mut self, count: usize) {
        proof {
            use_type_invariant(&*self);
        }
        let ghost start = self.state.pos as int;
        let ghost line0 = self.state.line as nat;
        let total: usize = self.text.len();
        let mut i: usize = 0;
        let mut newlines: usize = 0;
        while i < count
            invariant
                total == self.text@.len(),
                start == self.state.pos,
                line0 == self.state.line,
                start + count <= self.text@.len(),
                i <= count,
                newlines == count_newlines(self.text@.subrange(start, start + i)),
                newlines <= i,
            decreases count - i,
        {
            if self.text[self.state.pos + i] == '\n' {
                newlines += 1;
            }
            i += 1;
            assert(self.text@.subrange(start, start + i).drop_last()
                =~= self.text@.subrange(start, start + i - 1));
        }
        proof {
            let t = self.text@;
            lemma_count_newlines_concat(t.take(start), t.subrange(start, start + count));
            assert(t.take(start) + t.subrange(start, start + count) =~= t.take(start + count));
            lemma_count_newlines_bound(t.take(start + count));
            assert(t.skip(start).take(count as int) =~= t.subrange(start, start + count));
            assert(t.skip(start).skip(count as int) =~= t.skip(start + count));
        }
        self.state = FSOParserState {
            pos: self.state.pos + count,
            line: self.state.line + newlines,
        };
    }
}

} // verus!
