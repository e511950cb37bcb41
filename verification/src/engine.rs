use vstd::prelude::*;
use crate::basic_types::{parse_bool, parse_float, parse_signed, parse_string, parse_unsigned};
use crate::error::{
    clone_opt, opt_gobble, opt_text, ErrorView, FSOParsingError, FSOParsingHangingGobble,
    GobbleView,
};
use crate::grammar;
use crate::grammar::{Items, Outcome, Pending, RecordState};
use crate::lexer::{advance, Position};
use crate::parser::FSOParser;
use crate::schema::{
    FieldDescriptor, RecordSchema, ScalarKind, UnionSchema, ValueShape, VariantDescriptor,
};
use crate::value::{
    copy_value, lemma_values_view_empty, lemma_values_view_push, opt_texts, values_view, FSORecord,
    FSOValue, Val,
};

verus! {

/// What a parse returns: the value and the text carried on, or the failure.
pub type Parsed = Result<(FSOValue, Option<FSOParsingHangingGobble>), FSOParsingError>;

/// What a parse returned, as plain data.
pub open spec fn parsed_view(r: Parsed) -> Result<(Val, Option<GobbleView>), ErrorView> {
    match r {
        Ok((v, g)) => Ok((v@, opt_gobble(g))),
        Err(e) => Err(e@),
    }
}

/// How a parse ended: where it left the cursor and what it returned.
pub open spec fn outcome(pos: Position, r: Parsed) -> Outcome {
    Outcome { pos, result: parsed_view(r) }
}

/// Reads a primitive value.
pub fn parse_scalar<P: FSOParser>(kind: ScalarKind, state: &mut P) -> (r: Parsed)
    ensures
        outcome(final(state).position(), r) == grammar::scalar_outcome(kind, old(state).position()),
{
    match kind {
        ScalarKind::Bool => match parse_bool(state) {
            Ok(b) => Ok((FSOValue::Bool(b), None)),
            Err(e) => Err(e),
        },
        ScalarKind::I32 => match parse_signed(state, i32::MIN as i64, i32::MAX as i64) {
            Ok(v) => Ok((FSOValue::Int(v), None)),
            Err(e) => Err(e),
        },
        ScalarKind::I64 => match parse_signed(state, i64::MIN, i64::MAX) {
            Ok(v) => Ok((FSOValue::Int(v), None)),
            Err(e) => Err(e),
        },
        ScalarKind::U32 => match parse_unsigned(state, u32::MAX as u64) {
            Ok(v) => Ok((FSOValue::UInt(v), None)),
            Err(e) => Err(e),
        },
        ScalarKind::U64 => match parse_unsigned(state, u64::MAX) {
            Ok(v) => Ok((FSOValue::UInt(v), None)),
            Err(e) => Err(e),
        },
        ScalarKind::F32 | ScalarKind::F64 => match parse_float(state) {
            Ok(f) => Ok((FSOValue::Float(f), None)),
            Err(e) => Err(e),
        },
        ScalarKind::Text => {
            let text = parse_string(state);
            Ok((FSOValue::Text(text), None))
        },
    }
}

/// A record in the making: the pending text, whether white space was scanned
/// since the last field, the values of the fields read, and the text
/// attributed to each slot.
pub struct RecordProgress {
    pub pending_comments: Option<String>,
    pub pending_version: Option<String>,
    pub scanned: bool,
    pub values: Vec<FSOValue>,
    pub comments: Vec<Option<String>>,
    pub version_strings: Vec<Option<String>>,
}

/// A record in the making as plain data, at cursor position `pos`.
pub open spec fn progress_view(pos: Position, pr: RecordProgress, error: Option<ErrorView>) -> RecordState {
    RecordState {
        pos,
        pend: Pending {
            comments: opt_text(pr.pending_comments),
            version: opt_text(pr.pending_version),
            scanned: pr.scanned,
        },
        values: values_view(pr.values),
        comments: opt_texts(pr.comments@),
        versions: opt_texts(pr.version_strings@),
        error,
    }
}

/// The failure, if any, as plain data.
pub open spec fn failure(r: Result<(), FSOParsingError>) -> Option<ErrorView> {
    match r {
        Ok(_) => None,
        Err(e) => Some(e@),
    }
}

impl RecordProgress {
    /// A record before anything is read, with `hang` carried in.
    pub fn start(hang: Option<FSOParsingHangingGobble>) -> (pr: Self)
        ensures
            forall|pos: Position| #[trigger]
                progress_view(pos, pr, None) == grammar::record_start(pos, opt_gobble(hang)),
    {
        let pr = match hang {
            Some(g) => RecordProgress {
                pending_comments: g.comments,
                pending_version: g.version_string,
                scanned: true,
                values: Vec::new(),
                comments: Vec::new(),
                version_strings: Vec::new(),
            },
            None => RecordProgress {
                pending_comments: None,
                pending_version: None,
                scanned: false,
                values: Vec::new(),
                comments: Vec::new(),
                version_strings: Vec::new(),
            },
        };
        proof {
            lemma_values_view_empty(pr.values);
            assert(opt_texts(pr.comments@) =~= Seq::<Option<Seq<char>>>::empty());
            assert(opt_texts(pr.version_strings@) =~= Seq::<Option<Seq<char>>>::empty());
        }
        pr
    }

    /// Opens the slot of the next field or table token.
    pub fn open_slot(&mut self)
        ensures
            forall|pos: Position| #[trigger]
                progress_view(pos, *final(self), None) == grammar::open_slot(
                    progress_view(pos, *old(self), None),
                ),
    {
        self.comments.push(None);
        self.version_strings.push(None);
        proof {
            assert(opt_texts(self.comments@) =~= opt_texts(old(self).comments@).push(None));
            assert(opt_texts(self.version_strings@) =~= opt_texts(old(self).version_strings@).push(
                None,
            ));
        }
    }

    /// Attributes the pending text to the open slot, unless the record is
    /// inline.
    pub fn note_slot(&mut self, inline: bool)
        requires
            old(self).comments@.len() > 0,
            old(self).version_strings@.len() > 0,
        ensures
            forall|pos: Position| #[trigger]
                progress_view(pos, *final(self), None) == grammar::note_slot(
                    progress_view(pos, *old(self), None),
                    inline,
                ),
            final(self).comments@.len() == old(self).comments@.len(),
            final(self).version_strings@.len() == old(self).version_strings@.len(),
    {
        if !inline {
            self.scanned = false;
            let last_comment: usize = self.comments.len() - 1;
            let last_version: usize = self.version_strings.len() - 1;
            let comment = clone_opt(&self.pending_comments);
            let version = clone_opt(&self.pending_version);
            self.comments.set(last_comment, comment);
            self.version_strings.set(last_version, version);
            proof {
                assert(opt_texts(self.comments@) =~= opt_texts(old(self).comments@).update(
                    last_comment as int,
                    opt_text(old(self).pending_comments),
                ));
                assert(opt_texts(self.version_strings@) =~= opt_texts(
                    old(self).version_strings@,
                ).update(last_version as int, opt_text(old(self).pending_version)));
            }
        }
    }

    /// Takes over the text carried out of a value as the pending text.
    pub fn take_carry(&mut self, carry: Option<FSOParsingHangingGobble>)
        ensures
            final(self).values == old(self).values,
            final(self).comments == old(self).comments,
            final(self).version_strings == old(self).version_strings,
            match carry {
                Some(g) => {
                    &&& opt_text(final(self).pending_comments) == g@.comments
                    &&& opt_text(final(self).pending_version) == g@.version_string
                    &&& final(self).scanned
                },
                None => {
                    &&& final(self).pending_comments == old(self).pending_comments
                    &&& final(self).pending_version == old(self).pending_version
                    &&& final(self).scanned == old(self).scanned
                },
            },
    {
        match carry {
            Some(g) => {
                self.pending_comments = g.comments;
                self.pending_version = g.version_string;
                self.scanned = true;
            },
            None => {},
        }
    }

    /// The failure `e`, carrying the pending text.
    pub fn fail(&self, e: FSOParsingError) -> (r: FSOParsingError)
        ensures
            r@ == grammar::with_context(
                e@,
                Pending {
                    comments: opt_text(self.pending_comments),
                    version: opt_text(self.pending_version),
                    scanned: self.scanned,
                },
            ),
    {
        e.with_context(&self.pending_comments, &self.pending_version)
    }
}

/// Scans white space and comments unless that was done since the last
/// field, or `skip` is set.
pub fn scan_if_needed<P: FSOParser>(state: &mut P, pr: &mut RecordProgress, skip: bool)
    ensures
        progress_view(final(state).position(), *final(pr), None) == grammar::scan_if_needed(
            progress_view(old(state).position(), *old(pr), None),
            skip,
        ),
        final(pr).comments@.len() == old(pr).comments@.len(),
        final(pr).version_strings@.len() == old(pr).version_strings@.len(),
{
    if !skip && !pr.scanned {
        let (comments, version) = state.consume_whitespace(false);
        pr.pending_comments = comments;
        pr.pending_version = version;
        pr.scanned = true;
    }
}

/// Reads the literal that must follow a field, if one is declared.
pub fn gobble_step<P: FSOParser>(
    state: &mut P,
    pr: &RecordProgress,
    gobble: &Option<String>,
) -> (r: Result<(), FSOParsingError>)
    ensures
        progress_view(final(state).position(), *pr, failure(r)) == grammar::gobble_step(
            progress_view(old(state).position(), *pr, None),
            *gobble,
        ),
{
    match gobble {
        None => Ok(()),
        Some(literal) => {
            let none: [char; 0] = [];
            assert(none@ =~= Seq::<char>::empty());
            state.consume_whitespace_inline(&none);
            match state.consume_string(literal.as_str()) {
                Ok(_) => Ok(()),
                Err(e) => Err(pr.fail(e)),
            }
        },
    }
}

/// Reads the opening token of a table.
pub fn table_start_step<P: FSOParser>(state: &mut P, pr: &mut RecordProgress, token: &str) -> (r:
    Result<(), FSOParsingError>)
    requires
        old(pr).comments@.len() > 0,
        old(pr).version_strings@.len() > 0,
    ensures
        progress_view(final(state).position(), *final(pr), failure(r)) == grammar::table_start_step(
            progress_view(old(state).position(), *old(pr), None),
            token@,
        ),
{
    let ghost s0 = progress_view(state.position(), *pr, None);
    scan_if_needed(state, pr, false);
    let ghost s1 = progress_view(state.position(), *pr, None);
    pr.note_slot(false);
    let ghost s2 = progress_view(state.position(), *pr, None);
    assert(s1 == grammar::scan_if_needed(s0, false));
    assert(s2 == grammar::note_slot(s1, false));
    match state.consume_string(token) {
        Ok(_) => Ok(()),
        Err(e) => Err(pr.fail(e)),
    }
}

/// Reads the closing token of a table.
pub fn table_end_step<P: FSOParser>(state: &mut P, pr: &mut RecordProgress, token: &str) -> (r:
    Result<(), FSOParsingError>)
    requires
        old(pr).comments@.len() > 0,
        old(pr).version_strings@.len() > 0,
    ensures
        progress_view(final(state).position(), *final(pr), failure(r)) == grammar::table_end_step(
            progress_view(old(state).position(), *old(pr), None),
            token@,
        ),
{
    let ghost s0 = progress_view(state.position(), *pr, None);
    scan_if_needed(state, pr, false);
    let ghost s1 = progress_view(state.position(), *pr, None);
    pr.note_slot(false);
    let ghost s2 = progress_view(state.position(), *pr, None);
    assert(s1 == grammar::scan_if_needed(s0, false));
    assert(s2 == grammar::note_slot(s1, false));
    pr.scanned = true;
    state.consume_string(token)
}

/// What reading a sequence returned, as plain data.
pub open spec fn items_view(
    pos: Position,
    values: Vec<FSOValue>,
    gobble: Option<FSOParsingHangingGobble>,
    error: Option<ErrorView>,
) -> Items {
    Items { pos, values: values_view(values), gobble: opt_gobble(gobble), error }
}

/// The text that a failure carries, as text to carry on.
pub fn carry_of(e: FSOParsingError) -> (g: FSOParsingHangingGobble)
    ensures
        g@ == (GobbleView { comments: e@.comments, version_string: e@.version_string }),
{
    FSOParsingHangingGobble { comments: e.comments, version_string: e.version_string }
}

/// Reads a value of `shape`, with `hang` carried in from the parse before.
pub fn parse_value<P: FSOParser>(
    shape: &ValueShape,
    state: &mut P,
    hang: Option<FSOParsingHangingGobble>,
) -> (r: Parsed)
    ensures
        outcome(final(state).position(), r) == grammar::parse_spec(
            *shape,
            old(state).position(),
            opt_gobble(hang),
        ),
    decreases shape, 0nat,
{
    match shape {
        ValueShape::Scalar(kind) => parse_scalar(*kind, state),
        ValueShape::Optional(inner) => match parse_value(inner, state, hang) {
            Ok((v, g)) => Ok((FSOValue::Present(Box::new(v)), g)),
            Err(e) => Err(e),
        },
        ValueShape::Wrapper(inner) => match parse_value(inner, state, hang) {
            Ok((v, g)) => Ok((FSOValue::Wrapper(Box::new(v)), g)),
            Err(e) => Err(e),
        },
        ValueShape::List(inner, _) => {
            let open: [char; 1] = ['('];
            let close: [char; 1] = [')'];
            assert(open@ =~= seq!['(']);
            assert(close@ =~= seq![')']);
            state.consume_whitespace_inline(&open);
            let (values, carry) = parse_list(inner, state);
            state.consume_whitespace_inline(&close);
            Ok((FSOValue::List(values), carry))
        },
        ValueShape::Tuple(shapes) => {
            let open: [char; 1] = ['('];
            let close: [char; 1] = [')'];
            assert(open@ =~= seq!['(']);
            assert(close@ =~= seq![')']);
            state.consume_whitespace_inline(&open);
            match parse_tuple(shapes, state, hang) {
                Ok(values) => {
                    state.consume_whitespace_inline(&close);
                    Ok((FSOValue::Tuple(values), None))
                },
                Err(e) => Err(e),
            }
        },
        ValueShape::Record(r) => parse_record(r, state, hang),
        ValueShape::TaggedUnion(u) => parse_union(u, state, hang),
    }
}

/// Reads the elements of a list: elements of shape `elem` until one fails.
/// The text pending at that failure is carried out. An element that reads
/// nothing ends the list too.
pub fn parse_list<P: FSOParser>(elem: &ValueShape, state: &mut P) -> (r: (
    Vec<FSOValue>,
    Option<FSOParsingHangingGobble>,
))
    ensures
        items_view(final(state).position(), r.0, r.1, None) == grammar::list_items(
            *elem,
            old(state).position(),
            None,
            Seq::<Val>::empty(),
        ),
    decreases elem, 1nat,
{
    let ghost p0 = state.position();
    let mut values: Vec<FSOValue> = Vec::new();
    let mut hang: Option<FSOParsingHangingGobble> = None;
    let mut carry: Option<FSOParsingHangingGobble> = None;
    let mut going: bool = true;
    proof {
        lemma_values_view_empty(values);
    }
    while going
        invariant
            going ==> grammar::list_items(*elem, p0, None, Seq::<Val>::empty())
                == grammar::list_items(
                *elem,
                state.position(),
                opt_gobble(hang),
                values_view(values),
            ),
            !going ==> grammar::list_items(*elem, p0, None, Seq::<Val>::empty()) == items_view(
                state.position(),
                values,
                carry,
                None,
            ),
        decreases
                if going {
                    state.position().rest.len() + 1
                } else {
                    0
                },
    {
        let before: usize = state.available();
        let ghost old_values = values;
        let current = hang;
        hang = None;
        match parse_value(elem, state, current) {
            Ok((v, g)) => {
                values.push(v);
                proof {
                    lemma_values_view_push(old_values, values, v);
                }
                if state.available() < before {
                    hang = g;
                } else {
                    carry = g;
                    going = false;
                }
            },
            Err(e) => {
                carry = Some(carry_of(e));
                going = false;
            },
        }
    }
    (values, carry)
}

/// Reads the elements of a tuple, one of each shape in turn. The first
/// failure ends the tuple.
pub fn parse_tuple<P: FSOParser>(
    shapes: &Vec<ValueShape>,
    state: &mut P,
    hang: Option<FSOParsingHangingGobble>,
) -> (r: Result<Vec<FSOValue>, FSOParsingError>)
    ensures
        grammar::tuple_items(
            *shapes,
            0,
            old(state).position(),
            opt_gobble(hang),
            Seq::<Val>::empty(),
        ).pos == final(state).position(),
        match r {
            Ok(values) => grammar::tuple_items(
                *shapes,
                0,
                old(state).position(),
                opt_gobble(hang),
                Seq::<Val>::empty(),
            ) == items_view(final(state).position(), values, None, None),
            Err(e) => grammar::tuple_items(
                *shapes,
                0,
                old(state).position(),
                opt_gobble(hang),
                Seq::<Val>::empty(),
            ).error == Some(e@),
        },
    decreases shapes, 0nat,
{
    let ghost p0 = state.position();
    let ghost h0 = opt_gobble(hang);
    let mut values: Vec<FSOValue> = Vec::new();
    let mut carry = hang;
    let mut i: usize = 0;
    proof {
        lemma_values_view_empty(values);
    }
    while i < shapes.len()
        invariant
            i <= shapes.len(),
            p0 == old(state).position(),
            h0 == opt_gobble(hang),
            grammar::tuple_items(*shapes, 0, p0, h0, Seq::<Val>::empty()) == grammar::tuple_items(
                *shapes,
                i as nat,
                state.position(),
                opt_gobble(carry),
                values_view(values),
            ),
        decreases shapes.len() - i,
    {
        let ghost old_values = values;
        let current = carry;
        carry = None;
        match parse_value(&shapes[i], state, current) {
            Ok((v, _)) => {
                values.push(v);
                proof {
                    lemma_values_view_push(old_values, values, v);
                }
            },
            Err(e) => {
                return Err(e);
            },
        }
        i += 1;
    }
    Ok(values)
}

/// Reads the fields of a variant. An optional field that fails is absent;
/// any other failure ends the variant.
pub fn parse_variant_fields<P: FSOParser>(shapes: &Vec<ValueShape>, state: &mut P) -> (r: Result<
    Vec<FSOValue>,
    FSOParsingError,
>)
    ensures
        grammar::variant_items(*shapes, 0, old(state).position(), Seq::<Val>::empty()).pos
            == final(state).position(),
        match r {
            Ok(values) => grammar::variant_items(
                *shapes,
                0,
                old(state).position(),
                Seq::<Val>::empty(),
            ) == items_view(final(state).position(), values, None, None),
            Err(e) => grammar::variant_items(
                *shapes,
                0,
                old(state).position(),
                Seq::<Val>::empty(),
            ).error == Some(e@),
        },
    decreases shapes, 0nat,
{
    let ghost p0 = state.position();
    let mut values: Vec<FSOValue> = Vec::new();
    let mut i: usize = 0;
    proof {
        lemma_values_view_empty(values);
    }
    while i < shapes.len()
        invariant
            i <= shapes.len(),
            p0 == old(state).position(),
            grammar::variant_items(*shapes, 0, p0, Seq::<Val>::empty()) == grammar::variant_items(
                *shapes,
                i as nat,
                state.position(),
                values_view(values),
            ),
        decreases shapes.len() - i,
    {
        let ghost old_values = values;
        match &shapes[i] {
            ValueShape::Optional(inner) => {
                let v = match parse_value(inner, state, None) {
                    Ok((v, _)) => FSOValue::Present(Box::new(v)),
                    Err(_) => FSOValue::Absent,
                };
                values.push(v);
                proof {
                    lemma_values_view_push(old_values, values, v);
                }
            },
            other => {
                match parse_value(other, state, None) {
                    Ok((v, _)) => {
                        values.push(v);
                        proof {
                            lemma_values_view_push(old_values, values, v);
                        }
                    },
                    Err(e) => {
                        return Err(e);
                    },
                }
            },
        }
        i += 1;
    }
    Ok(values)
}

/// The variant whose token stands at the cursor: the first one in the order
/// in which they are declared, default captures aside.
pub fn match_variant<P: FSOParser>(variants: &Vec<VariantDescriptor>, state: &mut P) -> (r:
    Option<usize>)
    ensures
        match r {
            Some(k) => {
                &&& grammar::first_match(variants@, old(state).position().rest, 0) == Some(
                    k as int,
                )
                &&& k < variants.len()
                &&& final(state).position() == advance(
                    old(state).position(),
                    variants@[k as int].token@.len(),
                )
            },
            None => {
                &&& grammar::first_match(variants@, old(state).position().rest, 0) is None
                &&& final(state).position() == old(state).position()
            },
        },
{
    let ghost p0 = state.position();
    let mut i: usize = 0;
    while i < variants.len()
        invariant
            i <= variants.len(),
            state.position() == p0,
            p0 == old(state).position(),
            grammar::first_match(variants@, p0.rest, 0) == grammar::first_match(
                variants@,
                p0.rest,
                i as int,
            ),
        decreases variants.len() - i,
    {
        if !variants[i].default_capture {
            match state.consume_string(variants[i].token.as_str()) {
                Ok(_) => {
                    assert(grammar::first_match(variants@, p0.rest, i as int) == Some(i as int));
                    return Some(i);
                },
                Err(_) => {},
            }
        }
        i += 1;
    }
    None
}

/// The report for input that no variant matches.
pub fn union_error<P: FSOParser>(variants: &Vec<VariantDescriptor>, state: &P) -> (e:
    FSOParsingError)
    ensures
        e@ == grammar::plain_error(
            state.position().line,
            grammar::union_reason(variants@, state.position().rest),
        ),
{
    let mut list = String::new();
    let mut i: usize = variants.len();
    while i > 0
        invariant
            i <= variants.len(),
            list@ == grammar::expected_list(variants@, i as int),
        decreases i,
    {
        i -= 1;
        let mut entry = String::new();
        entry.append(variants[i].token.as_str());
        entry.append(", ");
        entry.append(list.as_str());
        assert(entry@ =~= variants@[i as int].token@ + ", "@ + list@);
        list = entry;
    }
    let total: usize = state.available();
    let shown: usize = if total < 20 {
        total
    } else {
        20
    };
    let got = state.copy_text(0, shown);
    let mut reason = String::new();
    reason.append("Expected one of ");
    reason.append(list.as_str());
    reason.append("got ");
    reason.append(got.as_str());
    reason.append(".");
    proof {
        let rest = state.position().rest;
        assert(rest.subrange(0, shown as int) =~= crate::basic_types::snippet(rest, 20));
        assert(reason@ =~= grammar::union_reason(variants@, rest));
    }
    FSOParsingError::new(state.line(), reason)
}

/// Reads a tagged union: white space and comments, unless text was carried
/// in; then the first variant whose token stands at the cursor, with its
/// fields; failing that, the next bare token where the last variant is a
/// default capture.
pub fn parse_union<P: FSOParser>(
    u: &UnionSchema,
    state: &mut P,
    hang: Option<FSOParsingHangingGobble>,
) -> (r: Parsed)
    ensures
        outcome(final(state).position(), r) == grammar::union_outcome(
            *u,
            old(state).position(),
            opt_gobble(hang),
        ),
    decreases u, 0nat,
{
    let ghost p0 = state.position();
    let (comments, version) = match hang {
        Some(g) => (g.comments, g.version_string),
        None => state.consume_whitespace(false),
    };
    let ghost p1 = state.position();
    match match_variant(&u.variants, state) {
        Some(k) => {
            proof {
                assert(decreases_to!(u.variants@ => u.variants@[k as int]));
            }
            match parse_variant_fields(&u.variants[k].fields, state) {
                Ok(values) => Ok((FSOValue::Variant(k, values), None)),
                Err(e) => Err(e.with_context(&comments, &version)),
            }
        },
        None => {
            let n: usize = u.variants.len();
            if n > 0 && u.variants[n - 1].default_capture {
                let token = state.read_until_whitespace();
                let mut values: Vec<FSOValue> = Vec::new();
                values.push(FSOValue::Text(token));
                proof {
                    assert(values_view(values) =~= seq![Val::Text(token@)]);
                }
                Ok((FSOValue::Variant(n - 1, values), None))
            } else {
                let e = union_error(&u.variants, state);
                Err(e.with_context(&comments, &version))
            }
        },
    }
}

/// Completes a field whose value was read with `parsed`: a failure fails the
/// record; text carried out of the value becomes the pending text; then the
/// field's literal is read and the value is added.
pub fn finish_field<P: FSOParser>(
    state: &mut P,
    pr: &mut RecordProgress,
    parsed: Parsed,
    gobble: &Option<String>,
    optional: bool,
) -> (r: Result<(), FSOParsingError>)
    ensures
        progress_view(final(state).position(), *final(pr), failure(r)) == grammar::finish_field(
            progress_view(old(state).position(), *old(pr), None),
            outcome(old(state).position(), parsed),
            *gobble,
            optional,
        ),
{
    match parsed {
        Err(e) => Err(pr.fail(e)),
        Ok((v, g)) => {
            pr.take_carry(g);
            let ghost s1 = progress_view(state.position(), *pr, None);
            match gobble_step(state, pr, gobble) {
                Err(e) => Err(e),
                Ok(_) => {
                    let ghost before = pr.values;
                    let value = if optional {
                        FSOValue::Present(Box::new(v))
                    } else {
                        v
                    };
                    pr.values.push(value);
                    proof {
                        lemma_values_view_push(before, pr.values, value);
                    }
                    Ok(())
                },
            }
        },
    }
}

/// Adds `value` as the value of the field at hand.
pub fn add_value(pr: &mut RecordProgress, value: FSOValue)
    ensures
        forall|pos: Position| #[trigger]
            progress_view(pos, *final(pr), None) == grammar::add_value(
                progress_view(pos, *old(pr), None),
                value@,
            ),
        final(pr).comments@.len() == old(pr).comments@.len(),
        final(pr).version_strings@.len() == old(pr).version_strings@.len(),
{
    let ghost before = pr.values;
    pr.values.push(value);
    proof {
        lemma_values_view_push(before, pr.values, value);
    }
}

/// Reads one field of a record, whose slot is open.
pub fn parse_field<P: FSOParser>(
    field: &FieldDescriptor,
    inline: bool,
    state: &mut P,
    pr: &mut RecordProgress,
) -> (r: Result<(), FSOParsingError>)
    requires
        old(pr).comments@.len() > 0,
        old(pr).version_strings@.len() > 0,
    ensures
        progress_view(final(state).position(), *final(pr), failure(r)) == grammar::field_step(
            *field,
            inline,
            progress_view(old(state).position(), *old(pr), None),
        ),
    decreases field, 0nat,
{
    match field {
        FieldDescriptor::Skipped { default } => {
            add_value(pr, copy_value(default));
            Ok(())
        },
        FieldDescriptor::ExistenceFlag { token, gobble } => parse_flag_field(
            token.as_str(),
            gobble,
            inline,
            state,
            pr,
        ),
        FieldDescriptor::Named { token, shape, gobble } => parse_named_field(
            token.as_str(),
            shape,
            gobble,
            inline,
            state,
            pr,
        ),
        FieldDescriptor::Positional { shape, gobble } => parse_positional_field(
            shape,
            gobble,
            inline,
            state,
            pr,
        ),
    }
}

/// Reads an existence flag: whether its token is there.
pub fn parse_flag_field<P: FSOParser>(
    token: &str,
    gobble: &Option<String>,
    inline: bool,
    state: &mut P,
    pr: &mut RecordProgress,
) -> (r: Result<(), FSOParsingError>)
    requires
        old(pr).comments@.len() > 0,
        old(pr).version_strings@.len() > 0,
    ensures
        progress_view(final(state).position(), *final(pr), failure(r)) == grammar::flag_step(
            token@,
            *gobble,
            inline,
            progress_view(old(state).position(), *old(pr), None),
        ),
{
    scan_if_needed(state, pr, inline);
    let ghost s1 = progress_view(state.position(), *pr, None);
    match state.consume_string(token) {
        Ok(_) => {
            let ghost s1b = progress_view(state.position(), *pr, None);
            assert(s1b == grammar::step_over(s1, token@.len()));
            pr.note_slot(inline);
            let ghost s2 = progress_view(state.position(), *pr, None);
            assert(s2 == grammar::note_slot(s1b, inline));
            match gobble_step(state, pr, gobble) {
                Err(e) => Err(e),
                Ok(_) => {
                    add_value(pr, FSOValue::Bool(true));
                    Ok(())
                },
            }
        },
        Err(_) => {
            add_value(pr, FSOValue::Bool(false));
            Ok(())
        },
    }
}

/// Reads a named field: its token, then its value.
pub fn parse_named_field<P: FSOParser>(
    token: &str,
    shape: &ValueShape,
    gobble: &Option<String>,
    inline: bool,
    state: &mut P,
    pr: &mut RecordProgress,
) -> (r: Result<(), FSOParsingError>)
    requires
        old(pr).comments@.len() > 0,
        old(pr).version_strings@.len() > 0,
    ensures
        progress_view(final(state).position(), *final(pr), failure(r)) == grammar::named_step(
            token@,
            *shape,
            *gobble,
            inline,
            progress_view(old(state).position(), *old(pr), None),
        ),
    decreases shape, 1nat,
{
    scan_if_needed(state, pr, inline);
    let ghost s1 = progress_view(state.position(), *pr, None);
    match state.consume_string(token) {
        Ok(_) => {
            let ghost s1b = progress_view(state.position(), *pr, None);
            assert(s1b == grammar::step_over(s1, token@.len()));
            pr.note_slot(inline);
            let ghost s2 = progress_view(state.position(), *pr, None);
            assert(s2 == grammar::note_slot(s1b, inline));
            match shape {
                ValueShape::Optional(inner) => {
                    let parsed = parse_value(inner, state, None);
                    proof {
                        lemma_finish_field_pos(
                            s2,
                            progress_view(state.position(), *pr, None),
                            outcome(state.position(), parsed),
                            *gobble,
                            true,
                        );
                    }
                    finish_field(state, pr, parsed, gobble, true)
                },
                other => {
                    let parsed = parse_value(other, state, None);
                    proof {
                        lemma_finish_field_pos(
                            s2,
                            progress_view(state.position(), *pr, None),
                            outcome(state.position(), parsed),
                            *gobble,
                            false,
                        );
                    }
                    finish_field(state, pr, parsed, gobble, false)
                },
            }
        },
        Err(e) => {
            if crate::schema::is_optional(shape) {
                add_value(pr, FSOValue::Absent);
                Ok(())
            } else {
                Err(pr.fail(e))
            }
        },
    }
}

/// Reads a positional field: its value.
pub fn parse_positional_field<P: FSOParser>(
    shape: &ValueShape,
    gobble: &Option<String>,
    inline: bool,
    state: &mut P,
    pr: &mut RecordProgress,
) -> (r: Result<(), FSOParsingError>)
    requires
        old(pr).comments@.len() > 0,
        old(pr).version_strings@.len() > 0,
    ensures
        progress_view(final(state).position(), *final(pr), failure(r))
            == grammar::positional_step(
            *shape,
            *gobble,
            inline,
            progress_view(old(state).position(), *old(pr), None),
        ),
    decreases shape, 1nat,
{
    scan_if_needed(state, pr, inline);
    let ghost s1 = progress_view(state.position(), *pr, None);
    match shape {
        ValueShape::Optional(inner) => {
            let parsed = parse_value(inner, state, None);
            if parsed.is_err() {
                add_value(pr, FSOValue::Absent);
                Ok(())
            } else {
                let ghost s1c = progress_view(state.position(), *pr, None);
                pr.note_slot(inline);
                let ghost s2 = progress_view(state.position(), *pr, None);
                proof {
                    assert(s2 == grammar::note_slot(s1c, inline));
                    lemma_finish_field_pos(
                        grammar::note_slot(s1, inline),
                        s2,
                        outcome(state.position(), parsed),
                        *gobble,
                        true,
                    );
                }
                finish_field(state, pr, parsed, gobble, true)
            }
        },
        other => {
            pr.note_slot(inline);
            let ghost s2 = progress_view(state.position(), *pr, None);
            assert(s2 == grammar::note_slot(s1, inline));
            let parsed = parse_value(other, state, None);
            proof {
                lemma_finish_field_pos(
                    s2,
                    progress_view(state.position(), *pr, None),
                    outcome(state.position(), parsed),
                    *gobble,
                    false,
                );
            }
            finish_field(state, pr, parsed, gobble, false)
        },
    }
}

/// Completing a field does not depend on where the cursor stood before the
/// value was read.
pub proof fn lemma_finish_field_pos(
    a: RecordState,
    b: RecordState,
    o: Outcome,
    gobble: Option<String>,
    optional: bool,
)
    requires
        b == (RecordState { pos: b.pos, ..a }),
    ensures
        grammar::finish_field(a, o, gobble, optional) == grammar::finish_field(
            b,
            o,
            gobble,
            optional,
        ),
{
}

/// Opens a slot and reads one field into it.
pub fn parse_slot<P: FSOParser>(
    field: &FieldDescriptor,
    inline: bool,
    state: &mut P,
    pr: &mut RecordProgress,
) -> (r: Result<(), FSOParsingError>)
    ensures
        progress_view(final(state).position(), *final(pr), failure(r)) == grammar::field_step(
            *field,
            inline,
            grammar::open_slot(progress_view(old(state).position(), *old(pr), None)),
        ),
    decreases field, 1nat,
{
    let ghost before = progress_view(state.position(), *pr, None);
    pr.open_slot();
    assert(progress_view(state.position(), *pr, None) == grammar::open_slot(before));
    assert(pr.comments@.len() > 0 && pr.version_strings@.len() > 0) by {
        assert(opt_texts(pr.comments@).len() == before.comments.len() + 1);
        assert(opt_texts(pr.version_strings@).len() == before.versions.len() + 1);
    }
    parse_field(field, inline, state, pr)
}

/// Reads the fields of a record in order, until one fails.
pub fn parse_fields<P: FSOParser>(
    fields: &Vec<FieldDescriptor>,
    inline: bool,
    state: &mut P,
    pr: &mut RecordProgress,
) -> (r: Result<(), FSOParsingError>)
    ensures
        progress_view(final(state).position(), *final(pr), failure(r)) == grammar::record_fields(
            *fields,
            inline,
            0,
            progress_view(old(state).position(), *old(pr), None),
        ),
    decreases fields, 0nat,
{
    let ghost s0 = progress_view(state.position(), *pr, None);
    let mut i: usize = 0;
    while i < fields.len()
        invariant
            i <= fields.len(),
            s0 == progress_view(old(state).position(), *old(pr), None),
            grammar::record_fields(*fields, inline, 0, s0) == grammar::record_fields(
                *fields,
                inline,
                i as nat,
                progress_view(state.position(), *pr, None),
            ),
        decreases fields.len() - i,
    {
        let ghost before = progress_view(state.position(), *pr, None);
        let step = parse_slot(&fields[i], inline, state, pr);
        let ghost after = progress_view(state.position(), *pr, failure(step));
        proof {
            assert(after == grammar::field_step(
                fields@[i as int],
                inline,
                grammar::open_slot(before),
            ));
            assert(grammar::record_fields(*fields, inline, i as nat, before)
                == grammar::record_fields(*fields, inline, (i + 1) as nat, after));
        }
        match step {
            Ok(_) => {},
            Err(e) => {
                assert(grammar::record_fields(*fields, inline, (i + 1) as nat, after) == after);
                return Err(e);
            },
        }
        i += 1;
    }
    Ok(())
}

/// Reads a record: the opening token if it is a table, the fields in order,
/// and the closing token. The text read before each field, and not carried
/// on into it, is kept in the field's slot.
pub fn parse_record<P: FSOParser>(
    r: &RecordSchema,
    state: &mut P,
    hang: Option<FSOParsingHangingGobble>,
) -> (parsed: Parsed)
    ensures
        outcome(final(state).position(), parsed) == grammar::record_outcome(
            *r,
            old(state).position(),
            opt_gobble(hang),
        ),
    decreases r, 1nat,
{
    let ghost p0 = state.position();
    let mut pr = RecordProgress::start(hang);
    assert(progress_view(p0, pr, None) == grammar::record_start(p0, opt_gobble(hang)));
    let ghost start = progress_view(p0, pr, None);
    pr.open_slot();
    let ghost s0 = progress_view(p0, pr, None);
    assert(s0 == grammar::open_slot(start));
    assert(pr.comments@.len() > 0 && pr.version_strings@.len() > 0) by {
        assert(opt_texts(pr.comments@).len() == start.comments.len() + 1);
    }
    match &r.table_start {
        Some(token) => {
            match table_start_step(state, &mut pr, token.as_str()) {
                Ok(_) => {},
                Err(e) => {
                    return Err(e);
                },
            }
        },
        None => {},
    }
    let ghost s1 = progress_view(state.position(), pr, None);
    match parse_fields(&r.fields, r.inline, state, &mut pr) {
        Ok(_) => {},
        Err(e) => {
            return Err(e);
        },
    }
    let ghost s2 = progress_view(state.position(), pr, None);
    pr.open_slot();
    assert(progress_view(state.position(), pr, None) == grammar::open_slot(s2));
    assert(pr.comments@.len() > 0 && pr.version_strings@.len() > 0) by {
    }
    match &r.table_end {
        Some(token) => {
            match table_end_step(state, &mut pr, token.as_str()) {
                Ok(_) => {},
                Err(e) => {
                    return Err(e);
                },
            }
        },
        None => {},
    }
    let carry = if pr.scanned {
        Some(
            FSOParsingHangingGobble {
                comments: pr.pending_comments,
                version_string: pr.pending_version,
            },
        )
    } else {
        None
    };
    Ok(
        (
            FSOValue::Record(
                FSORecord {
                    fields: pr.values,
                    comments: pr.comments,
                    version_strings: pr.version_strings,
                },
            ),
            carry,
        ),
    )
}

} // verus!
