use vstd::prelude::*;
use crate::chars::is_whitespace;
use crate::pattern::regex_is_match;

verus! {

/// Where a cursor stands: the text that is still unread and the number of
/// line breaks read so far.
pub struct Position {
    pub rest: Seq<char>,
    pub line: nat,
}

/// Number of line breaks in `s`.
pub open spec fn count_newlines(s: Seq<char>) -> nat
    decreases s.len(),
{
    if s.len() == 0 {
        0
    } else {
        count_newlines(s.drop_last()) + if s.last() == '\n' {
            1nat
        } else {
            0nat
        }
    }
}

/// The position reached from `p` by reading `k` characters.
pub open spec fn advance(p: Position, k: nat) -> Position {
    Position { rest: p.rest.skip(k as int), line: p.line + count_newlines(p.rest.take(k as int)) }
}

/// Line breaks are counted piecewise over a concatenation.
pub proof fn lemma_count_newlines_concat(a: Seq<char>, b: Seq<char>)
    ensures
        count_newlines(a + b) == count_newlines(a) + count_newlines(b),
    decreases b.len(),
{
    if b.len() == 0 {
    } else {
        lemma_count_newlines_concat(a, b.drop_last());
        assert((a + b).drop_last() =~= a + b.drop_last());
    }
}

/// There are no more line breaks than characters.
pub proof fn lemma_count_newlines_bound(s: Seq<char>)
    ensures
        count_newlines(s) <= s.len(),
    decreases s.len(),
{
    if s.len() > 0 {
        lemma_count_newlines_bound(s.drop_last());
    }
}

/// Reading `a` characters and then `b` more is reading `a + b`.
pub proof fn lemma_advance_twice(p: Position, a: nat, b: nat)
    requires
        a + b <= p.rest.len(),
    ensures
        advance(advance(p, a), b) == advance(p, a + b),
{
    let s = p.rest;
    assert(s.skip(a as int).skip(b as int) =~= s.skip((a + b) as int));
    assert(s.take(a as int) + s.skip(a as int).take(b as int) =~= s.take((a + b) as int));
    lemma_count_newlines_concat(s.take(a as int), s.skip(a as int).take(b as int));
}

/// Reading nothing leaves the position as it is.
pub proof fn lemma_advance_zero(p: Position)
    ensures
        advance(p, 0) == p,
{
    assert(p.rest.skip(0) =~= p.rest);
}

/// White space within a line, a comma, or one of the characters in `also`.
pub open spec fn is_inline_space(c: char, also: Seq<char>) -> bool {
    (c != '\n' && is_whitespace(c)) || c == ',' || also.contains(c)
}

/// Number of leading characters of `s` that are inline space.
pub open spec fn inline_space_len(s: Seq<char>, also: Seq<char>) -> nat
    decreases s.len(),
{
    if s.len() > 0 && is_inline_space(s[0], also) {
        1 + inline_space_len(s.skip(1), also)
    } else {
        0
    }
}

/// A character that can stand in a bare token: no white space, no comma.
pub open spec fn is_token_char(c: char) -> bool {
    !is_whitespace(c) && c != ','
}

/// Number of leading characters of `s` that can stand in a bare token.
pub open spec fn token_len(s: Seq<char>) -> nat
    decreases s.len(),
{
    if s.len() > 0 && is_token_char(s[0]) {
        1 + token_len(s.skip(1))
    } else {
        0
    }
}

/// `s` begins with `t`.
pub open spec fn starts_with(s: Seq<char>, t: Seq<char>) -> bool {
    t.len() <= s.len() && s.take(t.len() as int) == t
}

/// The least index at or after `i` at which `t` occurs in `s`.
pub open spec fn find_from(s: Seq<char>, t: Seq<char>, i: int) -> Option<int>
    decreases s.len() - i,
{
    if i < 0 || i + t.len() > s.len() {
        None
    } else if t.len() == 0 || starts_with(s.skip(i), t) {
        Some(i)
    } else {
        find_from(s, t, i + 1)
    }
}

/// What precedes the first occurrence of `target` in `s`; all of `s` where
/// `target` does not occur.
pub open spec fn text_until(s: Seq<char>, target: Seq<char>) -> Seq<char> {
    match find_from(s, target, 0) {
        Some(i) => s.take(i),
        None => s,
    }
}

/// Number of characters read when reading up to `target`: what precedes its
/// first occurrence, and the occurrence itself where `consume_target` is set;
/// all of `s` where `target` does not occur.
pub open spec fn until_len(s: Seq<char>, target: Seq<char>, consume_target: bool) -> nat {
    match find_from(s, target, 0) {
        Some(i) => if consume_target {
            (i + target.len()) as nat
        } else {
            i as nat
        },
        None => s.len(),
    }
}

/// Where `target` is found at or after `i`, it lies within `s`.
pub proof fn lemma_find_from_bound(s: Seq<char>, t: Seq<char>, i: int)
    ensures
        find_from(s, t, i) matches Some(k) ==> i <= k && k + t.len() <= s.len(),
    decreases s.len() - i,
{
    if i < 0 || i + t.len() > s.len() {
    } else if t.len() == 0 || starts_with(s.skip(i), t) {
    } else {
        lemma_find_from_bound(s, t, i + 1);
    }
}

/// Reading up to a target stays within the text, and reads something where
/// there is text and the target, one character or more, is read too.
pub proof fn lemma_until_len_bound(s: Seq<char>, target: Seq<char>, consume_target: bool)
    ensures
        until_len(s, target, consume_target) <= s.len(),
        text_until(s, target).len() <= until_len(s, target, consume_target),
        s.len() > 0 && target.len() > 0 && consume_target ==> until_len(
            s,
            target,
            consume_target,
        ) >= 1,
{
    lemma_find_from_bound(s, target, 0);
}

/// Inline space is counted within the text.
pub proof fn lemma_inline_space_len_bound(s: Seq<char>, also: Seq<char>)
    ensures
        inline_space_len(s, also) <= s.len(),
        inline_space_len(s, also) < s.len() ==> !is_inline_space(
            s[inline_space_len(s, also) as int],
            also,
        ),
    decreases s.len(),
{
    if s.len() > 0 && is_inline_space(s[0], also) {
        lemma_inline_space_len_bound(s.skip(1), also);
    }
}

/// A character that ends the value on a line: a line break, the start of a
/// comment, or one of the characters in `also_stop`.
pub open spec fn is_line_stop(c: char, also_stop: Seq<char>) -> bool {
    also_stop.contains(c) || c == '\n' || c == ';'
}

/// Number of leading characters of `s` before the first line stop.
pub open spec fn line_len(s: Seq<char>, also_stop: Seq<char>) -> nat
    decreases s.len(),
{
    if s.len() > 0 && !is_line_stop(s[0], also_stop) {
        1 + line_len(s.skip(1), also_stop)
    } else {
        0
    }
}

/// Length of `s` without its trailing white space.
pub open spec fn trimmed_len(s: Seq<char>) -> nat
    decreases s.len(),
{
    if s.len() > 0 && is_whitespace(s.last()) {
        trimmed_len(s.drop_last())
    } else {
        s.len()
    }
}

/// The value on a line: what precedes the first line stop, without trailing
/// white space.
pub open spec fn line_value(s: Seq<char>, also_stop: Seq<char>) -> Seq<char> {
    s.take(trimmed_len(s.take(line_len(s, also_stop) as int)) as int)
}

/// Number of characters read when reading the value on a line: through the
/// stop character where it is one of `also_stop`, else the value alone.
pub open spec fn line_value_len(s: Seq<char>, also_stop: Seq<char>) -> nat {
    let n = line_len(s, also_stop);
    if n < s.len() && also_stop.contains(s[n as int]) {
        n + 1
    } else {
        trimmed_len(s.take(n as int))
    }
}

/// Leading characters that are no line stop lie within the text.
pub proof fn lemma_line_len_bound(s: Seq<char>, also_stop: Seq<char>)
    ensures
        line_len(s, also_stop) <= s.len(),
    decreases s.len(),
{
    if s.len() > 0 && !is_line_stop(s[0], also_stop) {
        lemma_line_len_bound(s.skip(1), also_stop);
    }
}

/// Trimming does not lengthen a text.
pub proof fn lemma_trimmed_len_bound(s: Seq<char>)
    ensures
        trimmed_len(s) <= s.len(),
    decreases s.len(),
{
    if s.len() > 0 && is_whitespace(s.last()) {
        lemma_trimmed_len_bound(s.drop_last());
    }
}

/// Reading the value on a line stays within the text.
pub proof fn lemma_line_value_len_bound(s: Seq<char>, also_stop: Seq<char>)
    ensures
        line_value_len(s, also_stop) <= s.len(),
        line_value(s, also_stop).len() <= line_value_len(s, also_stop),
{
    lemma_line_len_bound(s, also_stop);
    lemma_trimmed_len_bound(s.take(line_len(s, also_stop) as int));
}

/// The regular expression for a version marker at the start of a text.
pub open spec fn version_pattern() -> Seq<char> {
    "\\A;;FSO\\x20\\d+(?:\\x2E\\d+)+;;"@
}

/// `s` begins with a version marker: two semicolons, and the version pattern
/// matches.
pub open spec fn at_version_marker(s: Seq<char>) -> bool {
    s.len() >= 2 && s[0] == ';' && s[1] == ';' && regex_is_match(version_pattern(), s) == Some(
        true,
    )
}

/// `s` begins a block comment: `/*` or `!*`.
pub open spec fn at_block_comment(s: Seq<char>) -> bool {
    s.len() >= 2 && (s[0] == '/' || s[0] == '!') && s[1] == '*'
}

/// `s` begins a line comment: `;` or `//`.
pub open spec fn at_line_comment(s: Seq<char>) -> bool {
    s.len() >= 1 && (s[0] == ';' || (s.len() >= 2 && s[0] == '/' && s[1] == '/'))
}

/// The closing delimiter of the block comment that `start` opened.
pub open spec fn block_end(start: char) -> Seq<char> {
    seq!['*', start]
}

/// A block comment as captured: opener, body, and a closer of its own kind.
pub open spec fn block_text(start: char, body: Seq<char>) -> Seq<char> {
    seq![start, '*'] + body + seq!['*', start]
}

/// A version marker as captured: the body between two pairs of semicolons.
pub open spec fn version_text(body: Seq<char>) -> Seq<char> {
    ";;"@ + body + ";;"@
}

/// The comment text after one more capture: `add` follows what was there,
/// after a line break unless `fresh` is set.
pub open spec fn join_comment(comments: Option<Seq<char>>, fresh: bool, add: Seq<char>) -> Seq<
    char,
> {
    let base = match comments {
        Some(c) => c,
        None => Seq::<char>::empty(),
    };
    if fresh {
        base + add
    } else {
        base + seq!['\n'] + add
    }
}

/// What a scan over white space and comments yields.
pub struct Scan {
    /// Number of characters read.
    pub len: nat,
    /// The comment text gathered, if any.
    pub comments: Option<Seq<char>>,
    /// The version marker that ended the scan, if one did.
    pub version: Option<Seq<char>>,
}

/// The scan of `s`, with `comments` already gathered. `fresh` is set at the
/// start and after a line break, and cleared after every capture. A line
/// comment joins what was gathered without a line break between them; a
/// block comment does so only where `fresh` is set.
pub open spec fn scan_from(
    s: Seq<char>,
    stop_on_newline: bool,
    comments: Option<Seq<char>>,
    fresh: bool,
) -> Scan
    decreases s.len(),
{
    let skipped = inline_space_len(s, Seq::<char>::empty());
    let t = s.skip(skipped as int);
    if skipped >= s.len() {
        Scan { len: skipped, comments, version: None }
    } else if t[0] == '\n' {
        if stop_on_newline {
            Scan { len: skipped, comments, version: None }
        } else {
            let inner = scan_from(t.skip(1), stop_on_newline, comments, true);
            Scan { len: skipped + 1 + inner.len, ..inner }
        }
    } else if at_version_marker(t) {
        let body = t.skip(2);
        Scan {
            len: skipped + 2 + until_len(body, ";;"@, true),
            comments,
            version: Some(version_text(text_until(body, ";;"@))),
        }
    } else if at_line_comment(t) {
        let used = until_len(t, seq!['\n'], true);
        let gathered = Some(join_comment(comments, true, text_until(t, seq!['\n'])));
        proof {
            lemma_until_len_bound(t, seq!['\n'], true);
        }
        let inner = scan_from(t.skip(used as int), stop_on_newline, gathered, false);
        Scan { len: skipped + used + inner.len, ..inner }
    } else if at_block_comment(t) {
        let body = t.skip(2);
        let used = until_len(body, block_end(t[0]), true);
        let gathered = Some(
            join_comment(comments, fresh, block_text(t[0], text_until(body, block_end(t[0])))),
        );
        proof {
            lemma_until_len_bound(body, block_end(t[0]), true);
        }
        let inner = scan_from(body.skip(used as int), stop_on_newline, gathered, false);
        Scan { len: skipped + 2 + used + inner.len, ..inner }
    } else {
        Scan { len: skipped, comments, version: None }
    }
}

/// The scan of `s` from scratch.
pub open spec fn scan(s: Seq<char>, stop_on_newline: bool) -> Scan {
    scan_from(s, stop_on_newline, None, true)
}

/// Nothing at the start of `t` is for a scan to read: the text is at its
/// end, or begins with a line break that ends the scan, or with a character
/// that is neither inline space nor the start of a comment or version marker.
pub open spec fn settled(t: Seq<char>, stop_on_newline: bool) -> bool {
    t.len() == 0 || (!is_inline_space(t[0], Seq::<char>::empty()) && if t[0] == '\n' {
        stop_on_newline
    } else {
        !at_version_marker(t) && !at_line_comment(t) && !at_block_comment(t)
    })
}

/// A scan of a settled text reads nothing.
pub proof fn lemma_settled_scan(
    t: Seq<char>,
    stop_on_newline: bool,
    comments: Option<Seq<char>>,
    fresh: bool,
)
    requires
        settled(t, stop_on_newline),
    ensures
        scan_from(t, stop_on_newline, comments, fresh) == (Scan {
            len: 0,
            comments,
            version: None,
        }),
{
}

/// A scan that no version marker ended stays within the text and leaves it
/// settled.
#[verifier::rlimit(60)]
pub proof fn lemma_scan_from_settles(
    s: Seq<char>,
    stop_on_newline: bool,
    comments: Option<Seq<char>>,
    fresh: bool,
)
    requires
        scan_from(s, stop_on_newline, comments, fresh).version is None,
    ensures
        scan_from(s, stop_on_newline, comments, fresh).len <= s.len(),
        settled(
            s.skip(scan_from(s, stop_on_newline, comments, fresh).len as int),
            stop_on_newline,
        ),
    decreases s.len(),
{
    let none = Seq::<char>::empty();
    let skipped = inline_space_len(s, none);
    let t = s.skip(skipped as int);
    let out = scan_from(s, stop_on_newline, comments, fresh);
    lemma_inline_space_len_bound(s, none);
    if skipped >= s.len() {
    } else if t[0] == '\n' {
        if stop_on_newline {
        } else {
            let inner = scan_from(t.skip(1), stop_on_newline, comments, true);
            lemma_scan_from_settles(t.skip(1), stop_on_newline, comments, true);
        }
    } else if at_version_marker(t) {
    } else if at_line_comment(t) {
        let used = until_len(t, seq!['\n'], true);
        let gathered = Some(join_comment(comments, true, text_until(t, seq!['\n'])));
        lemma_until_len_bound(t, seq!['\n'], true);
        let inner = scan_from(t.skip(used as int), stop_on_newline, gathered, false);
        lemma_scan_from_settles(t.skip(used as int), stop_on_newline, gathered, false);
    } else if at_block_comment(t) {
        let body = t.skip(2);
        let used = until_len(body, block_end(t[0]), true);
        let gathered = Some(
            join_comment(comments, fresh, block_text(t[0], text_until(body, block_end(t[0])))),
        );
        lemma_until_len_bound(body, block_end(t[0]), true);
        let inner = scan_from(body.skip(used as int), stop_on_newline, gathered, false);
        lemma_scan_from_settles(body.skip(used as int), stop_on_newline, gathered, false);
    } else {
    }
}

/// Scanning twice in a row, with nothing read in between, finds nothing the
/// second time: no characters are read and neither comment nor version text
/// is returned. This holds of every scan that did not end at a version
/// marker; after a marker the scan ends at once, whatever follows.
pub proof fn lemma_scan_twice(s: Seq<char>, stop_on_newline: bool)
    requires
        scan(s, stop_on_newline).version is None,
    ensures
        scan(s, stop_on_newline).len <= s.len(),
        scan(s.skip(scan(s, stop_on_newline).len as int), stop_on_newline) == (Scan {
            len: 0,
            comments: None,
            version: None,
        }),
{
    lemma_scan_from_settles(s, stop_on_newline, None, true);
    lemma_settled_scan(s.skip(scan(s, stop_on_newline).len as int), stop_on_newline, None, true);
}

} // verus!
