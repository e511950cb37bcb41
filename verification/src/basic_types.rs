use vstd::prelude::*;
use crate::builder::{FSOBuilder, FSOBuilderListState};
use crate::error::{ErrorView, FSOParsingError};
use crate::lexer::{
    advance, inline_space_len, lemma_advance_twice, lemma_inline_space_len_bound, line_value,
    line_value_len, token_len,
};
use crate::number::{
    decimal_text, is_digit, read_signed, read_unsigned, render_signed, render_unsigned,
    signed_in_range, signed_text, unsigned_in_range,
};
use crate::parser::FSOParser;
use crate::text::str_to_chars;

verus! {

/// The lower-case form of an ASCII capital; any other character as it is.
pub open spec fn lower(c: char) -> char {
    if 'A' <= c <= 'Z' {
        ((c as u32) + 32) as char
    } else {
        c
    }
}

/// `s` with its ASCII capitals in lower case.
pub open spec fn lowered(s: Seq<char>) -> Seq<char> {
    Seq::new(s.len(), |i: int| lower(s[i]))
}

/// The truth value that a token spells, whatever its case.
pub open spec fn bool_of(token: Seq<char>) -> Option<bool> {
    let l = lowered(token);
    if l == "yes"@ || l == "true"@ || l == "on"@ {
        Some(true)
    } else if l == "no"@ || l == "false"@ || l == "off"@ {
        Some(false)
    } else {
        None
    }
}

/// The bare token that follows the inline space at the start of `s`.
pub open spec fn next_token(s: Seq<char>) -> Seq<char> {
    let t = s.skip(inline_space_len(s, Seq::<char>::empty()) as int);
    t.take(token_len(t) as int)
}

/// Number of characters read for a bare token: inline space, then the token.
pub open spec fn next_token_len(s: Seq<char>) -> nat {
    let skipped = inline_space_len(s, Seq::<char>::empty());
    skipped + token_len(s.skip(skipped as int))
}

/// The report for a token that spells no truth value.
pub open spec fn bool_reason(token: Seq<char>) -> Seq<char> {
    "Expected boolean value, got "@ + token + "."@
}

/// Whether `token`, with its ASCII capitals in lower case, is `word`.
pub fn lowered_equals(token: &Vec<char>, word: &str) -> (r: bool)
    ensures
        r == (lowered(token@) == word@),
{
    let goal = str_to_chars(word);
    if goal.len() != token.len() {
        return false;
    }
    let mut i: usize = 0;
    while i < token.len()
        invariant
            i <= token.len() == goal.len(),
            goal@ == word@,
            forall|j: int| 0 <= j < i ==> lowered(token@)[j] == goal@[j],
        decreases token.len() - i,
    {
        let c: char = token[i];
        let l: char = if 'A' <= c && c <= 'Z' {
            let n: u32 = (c as u32) + 32;
            n as u8 as char
        } else {
            c
        };
        if l != goal[i] {
            return false;
        }
        i += 1;
    }
    assert(lowered(token@) =~= goal@);
    true
}

/// Reads a truth value: `yes`, `true` or `on` for true, `no`, `false` or
/// `off` for false, in any case. The token is read in either case.
pub fn parse_bool<P: FSOParser>(state: &mut P) -> (r: Result<bool, FSOParsingError>)
    ensures
        final(state).position() == advance(
            old(state).position(),
            next_token_len(old(state).position().rest),
        ),
        match r {
            Ok(b) => bool_of(next_token(old(state).position().rest)) == Some(b),
            Err(e) => {
                &&& bool_of(next_token(old(state).position().rest)) is None
                &&& e@ == (ErrorView {
                    line: final(state).position().line,
                    reason: bool_reason(next_token(old(state).position().rest)),
                    comments: None,
                    version_string: None,
                })
            },
        },
{
    let ghost p0 = state.position();
    let ghost skipped = inline_space_len(p0.rest, Seq::<char>::empty());
    let none: [char; 0] = [];
    assert(none@ =~= Seq::<char>::empty());
    state.consume_whitespace_inline(&none);
    let token = state.read_until_whitespace();
    proof {
        lemma_inline_space_len_bound(p0.rest, Seq::<char>::empty());
        lemma_token_len_bound(p0.rest.skip(skipped as int));
        lemma_advance_twice(p0, skipped, token_len(p0.rest.skip(skipped as int)));
    }
    let letters = str_to_chars(token.as_str());
    if lowered_equals(&letters, "yes") || lowered_equals(&letters, "true") || lowered_equals(
        &letters,
        "on",
    ) {
        Ok(true)
    } else if lowered_equals(&letters, "no") || lowered_equals(&letters, "false")
        || lowered_equals(&letters, "off") {
        Ok(false)
    } else {
        let mut reason = String::new();
        reason.append("Expected boolean value, got ");
        reason.append(token.as_str());
        reason.append(".");
        Err(FSOParsingError::new(state.line(), reason))
    }
}

/// A bare token lies within the text.
pub proof fn lemma_token_len_bound(s: Seq<char>)
    ensures
        token_len(s) <= s.len(),
    decreases s.len(),
{
    if s.len() > 0 && crate::lexer::is_token_char(s[0]) {
        lemma_token_len_bound(s.skip(1));
    }
}

/// The text that a truth value is written as.
pub open spec fn bool_text(value: bool) -> Seq<char> {
    if value {
        "YES"@
    } else {
        "NO"@
    }
}

/// Writes a truth value as `YES` or `NO`.
pub fn spew_bool<B: FSOBuilder>(value: bool, state: &mut B)
    ensures
        final(state).text() == old(state).text() + bool_text(value),
        final(state).lists() == old(state).lists(),
{
    state.append(
        if value {
            "YES"
        } else {
            "NO"
        },
    );
}

/// Number of characters of `s`, from `i` on, that continue a number: digits,
/// a sign at the very start, and one dot unless `have_dot` is set.
pub open spec fn number_len_from(s: Seq<char>, i: nat, have_dot: bool, allow_minus: bool) -> nat
    decreases s.len() - i,
{
    if i >= s.len() {
        i
    } else if is_digit(s[i as int]) || ((s[i as int] == '+' || (s[i as int] == '-'
        && allow_minus)) && i == 0) {
        number_len_from(s, i + 1, have_dot, allow_minus)
    } else if s[i as int] == '.' && !have_dot {
        number_len_from(s, i + 1, true, allow_minus)
    } else {
        i
    }
}

/// Length of the number at the start of `s`: an optional sign, digits, and,
/// where `allow_dot` is set, one dot among them.
pub open spec fn number_len(s: Seq<char>, allow_dot: bool, allow_minus: bool) -> nat {
    number_len_from(s, 0, !allow_dot, allow_minus)
}

/// What follows the inline space at the start of `s`.
pub open spec fn after_space(s: Seq<char>) -> Seq<char> {
    s.skip(inline_space_len(s, Seq::<char>::empty()) as int)
}

/// The number, as written, that follows the inline space at the start of `s`.
pub open spec fn number_lexeme(s: Seq<char>, allow_dot: bool, allow_minus: bool) -> Seq<char> {
    after_space(s).take(number_len(after_space(s), allow_dot, allow_minus) as int)
}

/// Number of characters read for a number: inline space, then the number.
pub open spec fn number_consumed(s: Seq<char>, allow_dot: bool, allow_minus: bool) -> nat {
    inline_space_len(s, Seq::<char>::empty()) + number_len(
        after_space(s),
        allow_dot,
        allow_minus,
    )
}

/// The name of the kind of number in reports.
pub open spec fn number_kind(allow_dot: bool) -> Seq<char> {
    if allow_dot {
        "float"@
    } else {
        "int"@
    }
}

/// The report for text that is no number of the kind asked for.
pub open spec fn number_reason(allow_dot: bool, got: Seq<char>) -> Seq<char> {
    "Expected "@ + number_kind(allow_dot) + ", got "@ + got + "!"@
}

/// The first `n` characters of `s`, or all of it if it is shorter.
pub open spec fn snippet(s: Seq<char>, n: nat) -> Seq<char> {
    if s.len() < n {
        s
    } else {
        s.take(n as int)
    }
}

/// A number stays within the text.
pub proof fn lemma_number_len_bound(s: Seq<char>, i: nat, have_dot: bool, allow_minus: bool)
    requires
        i <= s.len(),
    ensures
        i <= number_len_from(s, i, have_dot, allow_minus) <= s.len(),
    decreases s.len() - i,
{
    if i >= s.len() {
    } else if is_digit(s[i as int]) || ((s[i as int] == '+' || (s[i as int] == '-'
        && allow_minus)) && i == 0) {
        lemma_number_len_bound(s, i + 1, have_dot, allow_minus);
    } else if s[i as int] == '.' && !have_dot {
        lemma_number_len_bound(s, i + 1, true, allow_minus);
    }
}

/// The report for a failed number.
pub fn number_error(allow_dot: bool, got: &str, line: usize) -> (e: FSOParsingError)
    ensures
        e@ == (ErrorView {
            line: line as nat,
            reason: number_reason(allow_dot, got@),
            comments: None,
            version_string: None,
        }),
{
    let mut reason = String::new();
    reason.append("Expected ");
    reason.append(
        if allow_dot {
            "float"
        } else {
            "int"
        },
    );
    reason.append(", got ");
    reason.append(got);
    reason.append("!");
    FSOParsingError::new(line, reason)
}

/// Reads a number as written: after inline space, an optional sign (a minus
/// only where `allow_minus` is set), digits, and one dot among them where
/// `allow_dot` is set. Fails, with only the inline space read, where no such
/// character is there.
pub fn parse_number<P: FSOParser>(state: &mut P, allow_dot: bool, allow_minus: bool) -> (r: Result<
    String,
    FSOParsingError,
>)
    ensures
        final(state).position() == advance(
            old(state).position(),
            number_consumed(old(state).position().rest, allow_dot, allow_minus),
        ),
        match r {
            Ok(lexeme) => {
                &&& lexeme@.len() > 0
                &&& lexeme@ == number_lexeme(old(state).position().rest, allow_dot, allow_minus)
            },
            Err(e) => {
                &&& number_lexeme(old(state).position().rest, allow_dot, allow_minus).len() == 0
                &&& e@ == (ErrorView {
                    line: final(state).position().line,
                    reason: number_reason(
                        allow_dot,
                        snippet(after_space(old(state).position().rest), 4),
                    ),
                    comments: None,
                    version_string: None,
                })
            },
        },
{
    let ghost p0 = state.position();
    let ghost skipped = inline_space_len(p0.rest, Seq::<char>::empty());
    let ghost t = after_space(p0.rest);
    let none: [char; 0] = [];
    assert(none@ =~= Seq::<char>::empty());
    state.consume_whitespace_inline(&none);
    proof {
        lemma_inline_space_len_bound(p0.rest, Seq::<char>::empty());
    }
    let total: usize = state.available();
    let mut have_dot: bool = !allow_dot;
    let mut to_consume: usize = 0;
    let mut going: bool = true;
    while going && to_consume < total
        invariant
            to_consume <= total == t.len(),
            t == state.position().rest,
            number_len(t, allow_dot, allow_minus) == number_len_from(
                t,
                to_consume as nat,
                have_dot,
                allow_minus,
            ),
            !going ==> number_len_from(t, to_consume as nat, have_dot, allow_minus) == to_consume,
        decreases total - to_consume + if going { 1int } else { 0int },
    {
        let c = state.peek(to_consume).unwrap();
        if ('0' <= c && c <= '9') || ((c == '+' || (c == '-' && allow_minus)) && to_consume == 0) {
            to_consume += 1;
        } else if c == '.' && !have_dot {
            to_consume += 1;
            have_dot = true;
        } else {
            going = false;
        }
    }
    if to_consume == 0 {
        let shown: usize = if total < 4 {
            total
        } else {
            4
        };
        let got = state.copy_text(0, shown);
        proof {
            lemma_advance_twice(p0, skipped, 0);
        }
        return Err(number_error(allow_dot, got.as_str(), state.line()));
    }
    let lexeme = state.copy_text(0, to_consume);
    state.consume(to_consume);
    proof {
        lemma_advance_twice(p0, skipped, to_consume as nat);
    }
    Ok(lexeme)
}

/// What a failed number shows of the input: the number as written, or the
/// first four characters where there is none.
pub open spec fn number_shown(s: Seq<char>, allow_dot: bool, allow_minus: bool) -> Seq<char> {
    if number_lexeme(s, allow_dot, allow_minus).len() == 0 {
        snippet(after_space(s), 4)
    } else {
        number_lexeme(s, allow_dot, allow_minus)
    }
}

/// Reads a signed integer within `min..=max`.
pub fn parse_signed<P: FSOParser>(state: &mut P, min: i64, max: i64) -> (r: Result<
    i64,
    FSOParsingError,
>)
    requires
        min <= 0 <= max,
    ensures
        final(state).position() == advance(
            old(state).position(),
            number_consumed(old(state).position().rest, false, true),
        ),
        match r {
            Ok(v) => signed_in_range(
                number_lexeme(old(state).position().rest, false, true),
                min as int,
                max as int,
            ) == Some(v as int),
            Err(e) => {
                &&& signed_in_range(
                    number_lexeme(old(state).position().rest, false, true),
                    min as int,
                    max as int,
                ) is None
                &&& e@ == (ErrorView {
                    line: final(state).position().line,
                    reason: number_reason(
                        false,
                        number_shown(old(state).position().rest, false, true),
                    ),
                    comments: None,
                    version_string: None,
                })
            },
        },
{
    match parse_number(state, false, true) {
        Ok(lexeme) => {
            let digits = str_to_chars(lexeme.as_str());
            match read_signed(&digits, min, max) {
                Some(v) => Ok(v),
                None => Err(number_error(false, lexeme.as_str(), state.line())),
            }
        },
        Err(e) => Err(e),
    }
}

/// Reads an unsigned integer of at most `max`. A minus sign is no part of it.
pub fn parse_unsigned<P: FSOParser>(state: &mut P, max: u64) -> (r: Result<u64, FSOParsingError>)
    ensures
        final(state).position() == advance(
            old(state).position(),
            number_consumed(old(state).position().rest, false, false),
        ),
        match r {
            Ok(v) => unsigned_in_range(
                number_lexeme(old(state).position().rest, false, false),
                max as nat,
            ) == Some(v as nat),
            Err(e) => {
                &&& unsigned_in_range(
                    number_lexeme(old(state).position().rest, false, false),
                    max as nat,
                ) is None
                &&& e@ == (ErrorView {
                    line: final(state).position().line,
                    reason: number_reason(
                        false,
                        number_shown(old(state).position().rest, false, false),
                    ),
                    comments: None,
                    version_string: None,
                })
            },
        },
{
    match parse_number(state, false, false) {
        Ok(lexeme) => {
            let digits = str_to_chars(lexeme.as_str());
            match read_unsigned(&digits, max) {
                Some(v) => Ok(v),
                None => Err(number_error(false, lexeme.as_str(), state.line())),
            }
        },
        Err(e) => Err(e),
    }
}

/// Writes a signed integer in decimal.
pub fn spew_signed<B: FSOBuilder>(value: i64, state: &mut B)
    ensures
        final(state).text() == old(state).text() + signed_text(value as int),
        final(state).lists() == old(state).lists(),
{
    let text = render_signed(value);
    state.append(text.as_str());
}

/// Writes an unsigned integer in decimal.
pub fn spew_unsigned<B: FSOBuilder>(value: u64, state: &mut B)
    ensures
        final(state).text() == old(state).text() + decimal_text(value as nat),
        final(state).lists() == old(state).lists(),
{
    let text = render_unsigned(value);
    state.append(text.as_str());
}

/// `s` holds a decimal digit.
pub open spec fn has_digit(s: Seq<char>) -> bool {
    exists|i: int| 0 <= i < s.len() && is_digit(#[trigger] s[i])
}

/// `s` is a number with an optional sign and an optional fraction, and at
/// least one digit.
pub open spec fn is_float_text(s: Seq<char>) -> bool {
    number_len(s, true, true) == s.len() && has_digit(s)
}

/// The number at the start of a text is a number by itself.
pub proof fn lemma_number_len_take(s: Seq<char>, i: nat, have_dot: bool, allow_minus: bool)
    requires
        i <= s.len(),
    ensures
        number_len_from(
            s.take(number_len_from(s, i, have_dot, allow_minus) as int),
            i,
            have_dot,
            allow_minus,
        ) == number_len_from(s, i, have_dot, allow_minus),
    decreases s.len() - i,
{
    let n = number_len_from(s, i, have_dot, allow_minus);
    lemma_number_len_bound(s, i, have_dot, allow_minus);
    if i >= s.len() {
    } else if is_digit(s[i as int]) || ((s[i as int] == '+' || (s[i as int] == '-'
        && allow_minus)) && i == 0) {
        lemma_number_len_bound(s, i + 1, have_dot, allow_minus);
        lemma_number_len_take(s, i + 1, have_dot, allow_minus);
    } else if s[i as int] == '.' && !have_dot {
        lemma_number_len_bound(s, i + 1, true, allow_minus);
        lemma_number_len_take(s, i + 1, true, allow_minus);
    }
}

/// Whether `text` holds a decimal digit.
pub fn contains_digit(text: &Vec<char>) -> (r: bool)
    ensures
        r == has_digit(text@),
{
    let mut i: usize = 0;
    while i < text.len()
        invariant
            i <= text.len(),
            forall|j: int| 0 <= j < i ==> !is_digit(text@[j]),
        decreases text.len() - i,
    {
        let c: char = text[i];
        if '0' <= c && c <= '9' {
            return true;
        }
        i += 1;
    }
    false
}

/// A number with a fraction, kept as it is written.
#[derive(Debug)]
pub struct FSOFloat {
    lexeme: String,
}

impl View for FSOFloat {
    type V = Seq<char>;

    closed spec fn view(&self) -> Seq<char> {
        self.lexeme@
    }
}

impl FSOFloat {
    #[verifier::type_invariant]
    spec fn well_formed(&self) -> bool {
        is_float_text(self.lexeme@)
    }

    /// The number that `text` writes, where it writes one.
    pub fn from_text(text: &str) -> (r: Option<Self>)
        ensures
            match r {
                Some(f) => is_float_text(text@) && f@ == text@,
                None => !is_float_text(text@),
            },
    {
        let letters = str_to_chars(text);
        let mut have_dot: bool = false;
        let mut i: usize = 0;
        let mut going: bool = true;
        while going && i < letters.len()
            invariant
                i <= letters.len(),
                number_len(letters@, true, true) == number_len_from(
                    letters@,
                    i as nat,
                    have_dot,
                    true,
                ),
                !going ==> i < letters.len() && number_len_from(letters@, i as nat, have_dot, true)
                    == i,
            decreases letters.len() - i + if going { 1int } else { 0int },
        {
            let c: char = letters[i];
            if ('0' <= c && c <= '9') || ((c == '+' || c == '-') && i == 0) {
                i += 1;
            } else if c == '.' && !have_dot {
                i += 1;
                have_dot = true;
            } else {
                going = false;
            }
        }
        if going && contains_digit(&letters) {
            Some(FSOFloat { lexeme: text.to_owned() })
        } else {
            None
        }
    }

    /// A copy of the number.
    pub fn duplicate(&self) -> (copy: Self)
        ensures
            copy@ == self@,
    {
        proof {
            use_type_invariant(self);
        }
        FSOFloat { lexeme: self.lexeme.clone() }
    }

    /// The number as it is written.
    pub fn as_text(&self) -> (text: String)
        ensures
            text@ == self@,
            is_float_text(text@),
    {
        proof {
            use_type_invariant(self);
        }
        self.lexeme.clone()
    }
}

/// Reads a number with an optional fraction. Text of the right characters
/// but without a digit, such as a lone sign or dot, is no number.
pub fn parse_float<P: FSOParser>(state: &mut P) -> (r: Result<FSOFloat, FSOParsingError>)
    ensures
        final(state).position() == advance(
            old(state).position(),
            number_consumed(old(state).position().rest, true, true),
        ),
        match r {
            Ok(f) => {
                &&& f@ == number_lexeme(old(state).position().rest, true, true)
                &&& has_digit(f@)
            },
            Err(e) => {
                &&& !has_digit(number_lexeme(old(state).position().rest, true, true))
                &&& e@ == (ErrorView {
                    line: final(state).position().line,
                    reason: number_reason(
                        true,
                        number_shown(old(state).position().rest, true, true),
                    ),
                    comments: None,
                    version_string: None,
                })
            },
        },
{
    let ghost t = after_space(old(state).position().rest);
    match parse_number(state, true, true) {
        Ok(lexeme) => {
            proof {
                lemma_number_len_bound(t, 0, false, true);
                lemma_number_len_take(t, 0, false, true);
            }
            match FSOFloat::from_text(lexeme.as_str()) {
                Some(f) => Ok(f),
                None => Err(number_error(true, lexeme.as_str(), state.line())),
            }
        },
        Err(e) => Err(e),
    }
}

/// Writes a number with a fraction as it was written.
pub fn spew_float<B: FSOBuilder>(value: &FSOFloat, state: &mut B)
    ensures
        final(state).text() == old(state).text() + value@,
        final(state).lists() == old(state).lists(),
{
    let text = value.as_text();
    state.append(text.as_str());
}

/// The double quote, which may open and close a string.
pub open spec fn quote() -> Seq<char> {
    seq!['"']
}

/// Number of characters at the start of `s` before a string's value: inline
/// space, and one double quote if it stands after that.
pub open spec fn string_lead(s: Seq<char>) -> nat {
    let skipped = inline_space_len(s, Seq::<char>::empty());
    if skipped < s.len() && s[skipped as int] == '"' {
        skipped + 1
    } else {
        skipped
    }
}

/// The string at the start of `s`: after inline space and an opening double
/// quote, if there is one, the value on the line, which a double quote ends
/// too.
pub open spec fn string_value(s: Seq<char>) -> Seq<char> {
    line_value(s.skip(string_lead(s) as int), quote())
}

/// Number of characters read for a string.
pub open spec fn string_consumed(s: Seq<char>) -> nat {
    string_lead(s) + line_value_len(s.skip(string_lead(s) as int), quote())
}

/// Reads a string: the rest of the line up to a comment, without the white
/// space before it and at its end; after an opening double quote, up to the
/// closing one, which is read too. This cannot fail.
pub fn parse_string<P: FSOParser>(state: &mut P) -> (text: String)
    ensures
        text@ == string_value(old(state).position().rest),
        final(state).position() == advance(
            old(state).position(),
            string_consumed(old(state).position().rest),
        ),
{
    let ghost p0 = state.position();
    let ghost skipped = inline_space_len(p0.rest, Seq::<char>::empty());
    let ghost lead = string_lead(p0.rest);
    let none: [char; 0] = [];
    let quotes: [char; 1] = ['"'];
    assert(none@ =~= Seq::<char>::empty());
    assert(quotes@ =~= quote());
    state.consume_whitespace_inline(&none);
    proof {
        lemma_inline_space_len_bound(p0.rest, Seq::<char>::empty());
    }
    if state.peek(0) == Some('"') {
        state.consume(1);
        proof {
            lemma_advance_twice(p0, skipped, 1);
        }
    }
    let text = state.read_until_last_whitespace_of_line_or_stop(&quotes);
    proof {
        crate::lexer::lemma_line_value_len_bound(p0.rest.skip(lead as int), quote());
        lemma_advance_twice(p0, lead, line_value_len(p0.rest.skip(lead as int), quote()));
    }
    text
}

/// A string as written: within double quotes inside an inline list, bare
/// elsewhere.
pub open spec fn string_text(value: Seq<char>, lists: Seq<FSOBuilderListState>) -> Seq<char> {
    if lists.len() > 0 && lists.last() == FSOBuilderListState::InlineList {
        quote() + value + quote()
    } else {
        value
    }
}

/// Writes a string, within double quotes where the builder is inside an
/// inline list.
pub fn spew_string<B: FSOBuilder>(value: &str, state: &mut B)
    ensures
        final(state).text() == old(state).text() + string_text(value@, old(state).lists()),
        final(state).lists() == old(state).lists(),
{
    let ghost before = state.text();
    match state.current_list() {
        Some(FSOBuilderListState::InlineList) => {
            let mut quoted = String::new();
            quoted.push('"');
            quoted.append(value);
            quoted.push('"');
            state.append(quoted.as_str());
        },
        _ => {
            state.append(value);
        },
    }
}

} // verus!
