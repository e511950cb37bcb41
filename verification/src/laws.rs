use vstd::prelude::*;
use crate::basic_types::{
    after_space, bool_text, is_float_text, lemma_number_len_bound, lowered, next_token,
    next_token_len, number_consumed, number_len_from,
};
use crate::builder::FSOBuilderListState;
use crate::error::GobbleView;
use crate::grammar::{
    first_match, has_default, lemma_first_match_bound, scalar_outcome, signed_bounds,
    union_outcome, union_start, unsigned_bound, variant_items, Outcome,
};
use crate::lexer::{
    advance, count_newlines, inline_space_len, is_inline_space, is_token_char, lemma_advance_zero,
    lemma_count_newlines_concat, lemma_settled_scan, scan, settled, starts_with, token_len,
    Position,
};
use crate::number::{
    decimal_text, is_digit, lemma_decimal_round_trip, lemma_decimal_text_digits, signed_in_range,
    signed_text,
};
use crate::schema::{ScalarKind, UnionSchema};
use crate::value::Val;
use crate::writer::{scalar_text, union_text};

verus! {

/// The order of the variants decides which one is read, not the length of
/// their tokens: where the token of variant `k` stands at the cursor and the
/// token of no variant before it does, the union is read as variant `k` and
/// nothing else. Its token is then read and its fields follow; only their
/// failure fails the union.
pub proof fn lemma_first_declared_variant_wins(
    u: UnionSchema,
    p: Position,
    hang: Option<GobbleView>,
    k: int,
)
    requires
        0 <= k < u.variants@.len(),
        !u.variants@[k].default_capture,
        starts_with(union_start(p, hang).rest, u.variants@[k].token@),
        forall|j: int|
            0 <= j < k ==> (#[trigger] u.variants@[j]).default_capture || !starts_with(
                union_start(p, hang).rest,
                u.variants@[j].token@,
            ),
    ensures
        first_match(u.variants@, union_start(p, hang).rest, 0) == Some(k),
        union_outcome(u, p, hang).pos == variant_items(
            u.variants@[k].fields,
            0,
            advance(union_start(p, hang), u.variants@[k].token@.len()),
            Seq::<Val>::empty(),
        ).pos,
        match union_outcome(u, p, hang).result {
            Ok((v, carry)) => v == Val::Variant(
                k as nat,
                variant_items(
                    u.variants@[k].fields,
                    0,
                    advance(union_start(p, hang), u.variants@[k].token@.len()),
                    Seq::<Val>::empty(),
                ).values,
            ) && carry is None,
            Err(_) => variant_items(
                u.variants@[k].fields,
                0,
                advance(union_start(p, hang), u.variants@[k].token@.len()),
                Seq::<Val>::empty(),
            ).error is Some,
        },
{
    lemma_first_match_bound(u.variants@, union_start(p, hang).rest, 0);
}

/// A union whose last variant is a default capture does not fail where no
/// token matches: it is read as that variant, which holds the next bare
/// token of the input, be it empty.
pub proof fn lemma_default_capture_never_fails(u: UnionSchema, p: Position, hang: Option<GobbleView>)
    requires
        has_default(u.variants@),
        first_match(u.variants@, union_start(p, hang).rest, 0) is None,
    ensures
        union_outcome(u, p, hang) == (Outcome {
            pos: advance(union_start(p, hang), token_len(union_start(p, hang).rest)),
            result: Ok(
                (
                    Val::Variant(
                        (u.variants@.len() - 1) as nat,
                        seq![
                            Val::Text(
                                union_start(p, hang).rest.take(
                                    token_len(union_start(p, hang).rest) as int,
                                ),
                            ),
                        ],
                    ),
                    None,
                ),
            ),
        }),
{
}

/// A character that a number can hold: a digit, a sign or a dot.
pub open spec fn is_number_char(c: char) -> bool {
    is_digit(c) || c == '+' || c == '-' || c == '.'
}

/// Text of digits, signs and dots has no line break, and no inline space
/// stands at its start.
pub proof fn lemma_number_chars_plain(s: Seq<char>, rest: Seq<char>)
    requires
        s.len() > 0,
        forall|i: int| 0 <= i < s.len() ==> is_number_char(#[trigger] s[i]),
    ensures
        count_newlines(s) == 0,
        inline_space_len(s + rest, Seq::<char>::empty()) == 0,
{
    assert(!is_inline_space((s + rest)[0], Seq::<char>::empty()));
    lemma_no_newlines(s);
}

/// Text without a line break character has no line breaks.
pub proof fn lemma_no_newlines(s: Seq<char>)
    requires
        forall|i: int| 0 <= i < s.len() ==> #[trigger] s[i] != '\n',
    ensures
        count_newlines(s) == 0,
    decreases s.len(),
{
    if s.len() > 0 {
        lemma_no_newlines(s.drop_last());
    }
}

/// Whether a dot has been read once the number in `s` is read from `i` on.
pub open spec fn dot_after(s: Seq<char>, i: nat, have_dot: bool) -> bool
    decreases s.len() - i,
{
    if i >= s.len() {
        have_dot
    } else if s[i as int] == '.' {
        dot_after(s, i + 1, true)
    } else {
        dot_after(s, i + 1, have_dot)
    }
}

/// A number that is all of `s` is the number at the start of `s + rest`
/// where `rest` does not go on with it: `rest` does not begin with a digit,
/// nor with a dot unless the number has one.
pub proof fn lemma_number_len_extend(
    s: Seq<char>,
    rest: Seq<char>,
    i: nat,
    have_dot: bool,
    allow_minus: bool,
)
    requires
        i <= s.len(),
        s.len() > 0,
        number_len_from(s, i, have_dot, allow_minus) == s.len(),
        rest.len() > 0 ==> !is_digit(rest[0]) && (rest[0] == '.' ==> dot_after(s, i, have_dot)),
    ensures
        number_len_from(s + rest, i, have_dot, allow_minus) == s.len(),
    decreases s.len() - i,
{
    let t = s + rest;
    if i < s.len() {
        assert(t[i as int] == s[i as int]);
        lemma_number_len_bound(s, i, have_dot, allow_minus);
        if is_digit(s[i as int]) || ((s[i as int] == '+' || (s[i as int] == '-' && allow_minus))
            && i == 0) {
            lemma_number_len_extend(s, rest, i + 1, have_dot, allow_minus);
        } else if s[i as int] == '.' && !have_dot {
            lemma_number_len_extend(s, rest, i + 1, true, allow_minus);
        }
    } else if rest.len() > 0 {
        assert(t[i as int] == rest[0]);
    }
}

/// Text that is a sign, if `signed` is set, and then digits is a number all
/// through.
pub proof fn lemma_digits_are_number(s: Seq<char>, i: nat, have_dot: bool, allow_minus: bool)
    requires
        i <= s.len(),
        forall|j: int|
            i <= j < s.len() ==> is_digit(#[trigger] s[j]) || (j == 0 && (s[j] == '+' || (s[j]
                == '-' && allow_minus))),
    ensures
        number_len_from(s, i, have_dot, allow_minus) == s.len(),
    decreases s.len() - i,
{
    if i < s.len() {
        lemma_digits_are_number(s, i + 1, have_dot, allow_minus);
    }
}

/// Reading `text` moves the cursor over it and leaves the line as it is
/// where `text` has no line break.
pub proof fn lemma_advance_over(text: Seq<char>, rest: Seq<char>, line: nat)
    requires
        count_newlines(text) == 0,
    ensures
        advance(Position { rest: text + rest, line }, text.len()) == (Position { rest, line }),
{
    assert((text + rest).skip(text.len() as int) =~= rest);
    assert((text + rest).take(text.len() as int) =~= text);
}

/// The decimal notation of an integer is read back as that integer.
pub proof fn lemma_signed_text_value(n: int, min: int, max: int)
    requires
        min <= n <= max,
    ensures
        signed_in_range(signed_text(n), min, max) == Some(n),
        signed_text(n).len() > 0,
        forall|i: int| 0 <= i < signed_text(n).len() ==> is_number_char(#[trigger] signed_text(n)[i]),
        forall|j: int|
            0 <= j < signed_text(n).len() ==> is_digit(#[trigger] signed_text(n)[j]) || (j == 0
                && signed_text(n)[j] == '-'),
{
    if n < 0 {
        let d = decimal_text((-n) as nat);
        lemma_decimal_text_digits((-n) as nat);
        lemma_decimal_round_trip((-n) as nat);
        assert(signed_text(n).skip(1) =~= d);
        assert(forall|j: int| 1 <= j < signed_text(n).len() ==> signed_text(n)[j] == d[j - 1]);
    } else {
        lemma_decimal_text_digits(n as nat);
        lemma_decimal_round_trip(n as nat);
        assert(is_digit(decimal_text(n as nat)[0]));
    }
}

/// Writing a signed integer and reading the text back gives the integer:
/// the text of `n`, followed by anything that does not begin with a digit,
/// is read as `n`, and the cursor is left before what follows.
pub proof fn lemma_signed_round_trip(kind: ScalarKind, n: int, rest: Seq<char>, line: nat)
    requires
        kind == ScalarKind::I32 || kind == ScalarKind::I64,
        signed_bounds(kind).0 <= n <= signed_bounds(kind).1,
        rest.len() > 0 ==> !is_digit(rest[0]),
    ensures
        scalar_outcome(kind, Position { rest: signed_text(n) + rest, line }) == (Outcome {
            pos: Position { rest, line },
            result: Ok((Val::Int(n), None)),
        }),
{
    let text = signed_text(n);
    let all = text + rest;
    lemma_signed_text_value(n, signed_bounds(kind).0, signed_bounds(kind).1);
    lemma_number_chars_plain(text, rest);
    assert(after_space(all) =~= all);
    lemma_digits_are_number(text, 0, true, true);
    lemma_dot_after_set(text, 0);
    lemma_number_len_extend(text, rest, 0, true, true);
    assert(all.take(text.len() as int) =~= text);
    lemma_advance_over(text, rest, line);
}

/// Once a dot has been read it stays read.
pub proof fn lemma_dot_after_set(s: Seq<char>, i: nat)
    ensures
        dot_after(s, i, true),
    decreases s.len() - i,
{
    if i < s.len() {
        lemma_dot_after_set(s, i + 1);
    }
}

/// Writing an unsigned integer and reading the text back gives the integer:
/// the text of `n`, followed by anything that does not begin with a digit,
/// is read as `n`, and the cursor is left before what follows.
pub proof fn lemma_unsigned_round_trip(kind: ScalarKind, n: nat, rest: Seq<char>, line: nat)
    requires
        kind == ScalarKind::U32 || kind == ScalarKind::U64,
        n <= unsigned_bound(kind),
        rest.len() > 0 ==> !is_digit(rest[0]),
    ensures
        scalar_outcome(kind, Position { rest: decimal_text(n) + rest, line }) == (Outcome {
            pos: Position { rest, line },
            result: Ok((Val::UInt(n), None)),
        }),
{
    let text = decimal_text(n);
    let all = text + rest;
    lemma_decimal_text_digits(n);
    lemma_decimal_round_trip(n);
    assert(is_digit(text[0]));
    lemma_number_chars_plain(text, rest);
    assert(after_space(all) =~= all);
    lemma_digits_are_number(text, 0, true, false);
    lemma_dot_after_set(text, 0);
    lemma_number_len_extend(text, rest, 0, true, false);
    assert(all.take(text.len() as int) =~= text);
    lemma_advance_over(text, rest, line);
}

/// A number that is all of `s` holds nothing but digits, signs and dots.
pub proof fn lemma_number_text_chars(s: Seq<char>, i: nat, have_dot: bool, allow_minus: bool)
    requires
        i <= s.len(),
        number_len_from(s, i, have_dot, allow_minus) == s.len(),
    ensures
        forall|j: int| i <= j < s.len() ==> is_number_char(#[trigger] s[j]),
    decreases s.len() - i,
{
    if i < s.len() {
        lemma_number_len_bound(s, i, have_dot, allow_minus);
        if is_digit(s[i as int]) || ((s[i as int] == '+' || (s[i as int] == '-' && allow_minus))
            && i == 0) {
            lemma_number_text_chars(s, i + 1, have_dot, allow_minus);
        } else if s[i as int] == '.' && !have_dot {
            lemma_number_text_chars(s, i + 1, true, allow_minus);
        }
    }
}

/// Writing a number with a fraction and reading the text back gives the
/// number as it was written: the text, followed by anything that does not go
/// on with it, is read whole, and the cursor is left before what follows.
/// What follows goes on with the number where it begins with a digit, or
/// with a dot while the number has none.
pub proof fn lemma_float_round_trip(
    kind: ScalarKind,
    text: Seq<char>,
    rest: Seq<char>,
    line: nat,
)
    requires
        kind == ScalarKind::F32 || kind == ScalarKind::F64,
        is_float_text(text),
        rest.len() > 0 ==> !is_digit(rest[0]) && (rest[0] == '.' ==> dot_after(text, 0, false)),
    ensures
        scalar_outcome(kind, Position { rest: text + rest, line }) == (Outcome {
            pos: Position { rest, line },
            result: Ok((Val::Float(text), None)),
        }),
{
    let all = text + rest;
    lemma_number_text_chars(text, 0, false, true);
    lemma_number_chars_plain(text, rest);
    assert(after_space(all) =~= all);
    lemma_number_len_extend(text, rest, 0, false, true);
    assert(all.take(text.len() as int) =~= text);
    lemma_advance_over(text, rest, line);
}

/// Writing a truth value and reading the text back gives the value: `YES`
/// or `NO`, followed by anything that does not go on with the token, is read
/// as the value written, and the cursor is left before what follows.
pub proof fn lemma_bool_round_trip(b: bool, rest: Seq<char>, line: nat)
    requires
        rest.len() > 0 ==> !is_token_char(rest[0]),
    ensures
        scalar_outcome(ScalarKind::Bool, Position { rest: bool_text(b) + rest, line }) == (Outcome {
            pos: Position { rest, line },
            result: Ok((Val::Bool(b), None)),
        }),
{
    reveal_strlit("YES");
    reveal_strlit("NO");
    reveal_strlit("yes");
    reveal_strlit("no");
    reveal_strlit("true");
    reveal_strlit("on");
    reveal_strlit("false");
    reveal_strlit("off");
    let text = bool_text(b);
    let all = text + rest;
    assert(!is_inline_space(all[0], Seq::<char>::empty()));
    assert(inline_space_len(all, Seq::<char>::empty()) == 0);
    assert(all.skip(0) =~= all);
    lemma_token_extend(text, rest, 0);
    assert(all.take(text.len() as int) =~= text);
    assert(next_token(all) == text);
    if b {
        assert(lowered(text) =~= "yes"@);
    } else {
        assert(lowered(text) =~= "no"@);
        assert(lowered(text).len() != "yes"@.len());
        assert(lowered(text).len() != "true"@.len());
        assert(lowered(text)[0] != "on"@[0]);
    }
    lemma_no_newlines(text);
    lemma_advance_over(text, rest, line);
}

/// A bare token that is all of `s` is the bare token at the start of
/// `s + rest` where `rest` does not go on with it.
pub proof fn lemma_token_extend(s: Seq<char>, rest: Seq<char>, i: nat)
    requires
        i <= s.len(),
        forall|j: int| i <= j < s.len() ==> is_token_char(#[trigger] s[j]),
        rest.len() > 0 ==> !is_token_char(rest[0]),
    ensures
        crate::lexer::token_len((s + rest).skip(i as int)) == s.len() - i,
    decreases s.len() - i,
{
    let t = (s + rest).skip(i as int);
    if i < s.len() {
        assert(t[0] == s[i as int]);
        assert(t.skip(1) =~= (s + rest).skip((i + 1) as int));
        lemma_token_extend(s, rest, i + 1);
    } else {
        assert(t =~= rest);
    }
}

/// Writing a variant without fields and reading the text back gives the
/// variant, where its token can be found again: nothing at the start of the
/// text is for a scan to read, and the token of no variant before it stands
/// at the start of the text. The cursor is left after the token.
pub proof fn lemma_bare_variant_round_trip(
    u: UnionSchema,
    k: int,
    lists: Seq<FSOBuilderListState>,
    rest: Seq<char>,
    line: nat,
)
    requires
        0 <= k < u.variants@.len(),
        !u.variants@[k].default_capture,
        u.variants@[k].fields@.len() == 0,
        settled(union_text(u, k as nat, Seq::<Val>::empty(), lists) + rest, false),
        forall|j: int|
            0 <= j < k ==> (#[trigger] u.variants@[j]).default_capture || !starts_with(
                union_text(u, k as nat, Seq::<Val>::empty(), lists) + rest,
                u.variants@[j].token@,
            ),
    ensures
        union_outcome(
            u,
            Position { rest: union_text(u, k as nat, Seq::<Val>::empty(), lists) + rest, line },
            None,
        ) == (Outcome {
            pos: Position {
                rest: " "@ + rest,
                line: line + count_newlines(u.variants@[k].token@),
            },
            result: Ok((Val::Variant(k as nat, Seq::<Val>::empty()), None)),
        }),
{
    let token = u.variants@[k].token@;
    let text = union_text(u, k as nat, Seq::<Val>::empty(), lists);
    let p = Position { rest: text + rest, line };
    assert(text =~= token + " "@);
    lemma_settled_scan(p.rest, false, None, true);
    lemma_advance_zero(p);
    assert(union_start(p, None) == p);
    assert(p.rest.take(token.len() as int) =~= token);
    assert(starts_with(p.rest, token));
    lemma_first_match_bound(u.variants@, p.rest, 0);
    assert(first_match(u.variants@, p.rest, 0) == Some(k));
    assert(p.rest.skip(token.len() as int) =~= " "@ + rest);
}

/// `v` is a value of the kind `kind`, which is not the kind of strings.
pub open spec fn scalar_fits(kind: ScalarKind, v: Val) -> bool {
    match kind {
        ScalarKind::Bool => v is Bool,
        ScalarKind::I32 | ScalarKind::I64 => v matches Val::Int(n) && signed_bounds(kind).0 <= n
            <= signed_bounds(kind).1,
        ScalarKind::U32 | ScalarKind::U64 => v matches Val::UInt(n) && n <= unsigned_bound(kind),
        ScalarKind::F32 | ScalarKind::F64 => v matches Val::Float(t) && is_float_text(t),
        ScalarKind::Text => false,
    }
}

/// A space before a truth value or a number does not change how it is read.
pub proof fn lemma_scalar_skips_space(kind: ScalarKind, s: Seq<char>, line: nat)
    requires
        kind != ScalarKind::Text,
    ensures
        scalar_outcome(kind, Position { rest: " "@ + s, line }) == scalar_outcome(
            kind,
            Position { rest: s, line },
        ),
{
    reveal_strlit(" ");
    let none = Seq::<char>::empty();
    let spaced = " "@ + s;
    let k = inline_space_len(s, none);
    assert(is_inline_space(spaced[0], none));
    assert(spaced.skip(1) =~= s);
    assert(inline_space_len(spaced, none) == 1 + k);
    crate::lexer::lemma_inline_space_len_bound(s, none);
    assert(spaced.skip((1 + k) as int) =~= s.skip(k as int));
    assert(after_space(spaced) == after_space(s));
    let t = after_space(s);
    match kind {
        ScalarKind::Bool => {
            crate::basic_types::lemma_token_len_bound(t);
            assert(next_token_len(spaced) == 1 + next_token_len(s));
            lemma_advance_after_space(s, line, next_token_len(s));
        },
        ScalarKind::I32 | ScalarKind::I64 => {
            lemma_number_len_bound(t, 0, true, true);
            lemma_advance_after_space(s, line, number_consumed(s, false, true));
        },
        ScalarKind::U32 | ScalarKind::U64 => {
            lemma_number_len_bound(t, 0, true, false);
            lemma_advance_after_space(s, line, number_consumed(s, false, false));
        },
        _ => {
            lemma_number_len_bound(t, 0, false, true);
            lemma_advance_after_space(s, line, number_consumed(s, true, true));
        },
    }
}

/// Reading a space and `m` characters after it leaves the cursor where
/// reading the `m` characters alone does.
pub proof fn lemma_advance_after_space(s: Seq<char>, line: nat, m: nat)
    requires
        m <= s.len(),
    ensures
        advance(Position { rest: " "@ + s, line }, 1 + m) == advance(
            Position { rest: s, line },
            m,
        ),
{
    reveal_strlit(" ");
    let spaced = " "@ + s;
    let a = spaced.take((1 + m) as int);
    let b = s.take(m as int);
    assert(a =~= " "@ + b);
    lemma_count_newlines_concat(" "@, b);
    lemma_no_newlines(" "@);
    assert(spaced.skip((1 + m) as int) =~= s.skip(m as int));
}

/// Writing a truth value or a number and reading the text back, after a
/// space and before one, gives the value.
pub proof fn lemma_scalar_round_trip(
    kind: ScalarKind,
    v: Val,
    lists: Seq<FSOBuilderListState>,
    tail: Seq<char>,
    line: nat,
)
    requires
        scalar_fits(kind, v),
    ensures
        scalar_outcome(
            kind,
            Position { rest: " "@ + (scalar_text(v, lists) + (" "@ + tail)), line },
        ) == (Outcome { pos: Position { rest: " "@ + tail, line }, result: Ok((v, None)) }),
{
    reveal_strlit(" ");
    let rest = " "@ + tail;
    let text = scalar_text(v, lists);
    assert(rest[0] == ' ');
    lemma_scalar_skips_space(kind, text + rest, line);
    match v {
        Val::Bool(b) => lemma_bool_round_trip(b, rest, line),
        Val::Int(n) => lemma_signed_round_trip(kind, n, rest, line),
        Val::UInt(n) => lemma_unsigned_round_trip(kind, n, rest, line),
        Val::Float(t) => lemma_float_round_trip(kind, t, rest, line),
        _ => {},
    }
}

} // verus!
