//! Trace context across process boundaries, in Datadog's form.
//!
//! The context of a span travels in one header, `x-datadog-trace-context`,
//! whose value is a list of `key=value` pairs joined by `;`:
//!
//! * `trace-id`: the trace id in Datadog's space, in decimal;
//! * `parent-id`: the span id, in decimal;
//! * `sampling-priority`: `2` for a sampled trace, `0` for one that is not;
//!   on the way in `1` counts as sampled too, and so does a header without
//!   this pair;
//! * `origin`: a tag that names where the trace started; optional.
//!
//! Only a context with a trace id and a span id other than zero is written.
//! An origin is written if it is ASCII and holds no `;`, and left out if not.
//! A header that is absent or malformed yields no context, never an error.
use crate::codec::{
    be_bytes, be_value, lemma_be_bytes_of_value, span_id_to_vendor, trace_id_to_vendor,
    trace_vendor_value, DatadogId, SpanId, TraceId,
};
use crate::decimal::{
    decimal_text, format_u64, is_digit, is_digits, lemma_decimal_text_digits, parse_decimal,
    parse_u64,
};
use crate::headers::{first_value, lemma_lookup_index, lookup, pairs_of, Header, HeaderMap};
use crate::pairs::{
    join_pairs, lemma_parse_join, pair_ok, pair_text, parse_pairs, read_pairs, write_pairs,
};
use crate::text::{contains_byte, lacks};
use vstd::prelude::*;
use vstd::string::*;
use vstd::utf8::is_ascii_chars;

verus! {

/// What identifies a span to other processes.
#[derive(Clone, Debug, PartialEq, Eq)]
pub struct SpanContext {
    pub trace_id: TraceId,
    pub span_id: SpanId,
    /// Whether the trace is kept for export.
    pub sampled: bool,
    /// Where the trace started, if that is known.
    pub origin: Option<String>,
}

/// A span context as plain values: the bytes of the two identifiers, the
/// sampling decision and the origin's text.
pub struct ContextView {
    pub trace: Seq<u8>,
    pub span: Seq<u8>,
    pub sampled: bool,
    pub origin: Option<Seq<char>>,
}

impl View for SpanContext {
    type V = ContextView;

    open spec fn view(&self) -> ContextView {
        ContextView {
            trace: self.trace_id.bytes@,
            span: self.span_id.bytes@,
            sampled: self.sampled,
            origin: match self.origin {
                Some(tag) => Some(tag@),
                None => None,
            },
        }
    }
}

/// The name of the header.
pub open spec fn header_name() -> Seq<char> {
    "x-datadog-trace-context"@
}

/// The key of the trace id.
pub open spec fn key_trace_id() -> Seq<char> {
    "trace-id"@
}

/// The key of the span id.
pub open spec fn key_parent_id() -> Seq<char> {
    "parent-id"@
}

/// The key of the sampling priority.
pub open spec fn key_priority() -> Seq<char> {
    "sampling-priority"@
}

/// The key of the origin.
pub open spec fn key_origin() -> Seq<char> {
    "origin"@
}

/// Sixteen or eight zero bytes, as the length says.
pub open spec fn zero_bytes(len: nat) -> Seq<u8> {
    Seq::new(len, |i: int| 0u8)
}

/// Whether a context names a span: both identifiers have their full length
/// and neither is zero.
pub open spec fn context_valid(ctx: ContextView) -> bool {
    &&& ctx.trace.len() == 16
    &&& ctx.span.len() == 8
    &&& ctx.trace != zero_bytes(16)
    &&& be_value(ctx.span) != 0
}

/// Whether an origin can travel in the header: it is ASCII and holds no `;`.
pub open spec fn tag_ok(tag: Seq<char>) -> bool {
    is_ascii_chars(tag) && lacks(tag, ';')
}

/// The sampling priority written for a sampling decision.
pub open spec fn priority_of(sampled: bool) -> nat {
    if sampled {
        2
    } else {
        0
    }
}

/// The pairs written for a context.
pub open spec fn header_pairs(ctx: ContextView) -> Seq<(Seq<char>, Seq<char>)> {
    let required = seq![
        (key_trace_id(), decimal_text(trace_vendor_value(ctx.trace))),
        (key_parent_id(), decimal_text(be_value(ctx.span))),
        (key_priority(), decimal_text(priority_of(ctx.sampled))),
    ];
    if ctx.origin is Some && tag_ok(ctx.origin->0) {
        required.push((key_origin(), ctx.origin->0))
    } else {
        required
    }
}

/// The header value written for a context.
pub open spec fn header_text(ctx: ContextView) -> Seq<char> {
    join_pairs(header_pairs(ctx))
}

/// The headers after a context was injected: a valid context sets the header,
/// any other leaves the headers as they are.
pub open spec fn injected(headers: Map<Seq<char>, Seq<char>>, ctx: ContextView) -> Map<
    Seq<char>,
    Seq<char>,
> {
    if context_valid(ctx) {
        headers.insert(header_name(), header_text(ctx))
    } else {
        headers
    }
}

/// The sampling decision that a sampling priority stands for: `0` is not
/// sampled, `1` and `2` are, no priority at all is, and anything else is
/// malformed.
pub open spec fn sampled_of(priority: Option<Seq<char>>) -> Option<bool> {
    match priority {
        None => Some(true),
        Some(text) => match parse_decimal(text) {
            Some(p) => if p == 0 {
                Some(false)
            } else if p <= 2 {
                Some(true)
            } else {
                None
            },
            None => None,
        },
    }
}

/// The bytes of the trace id that stands for `id` of Datadog's space.
pub open spec fn trace_bytes(id: u64) -> Seq<u8> {
    zero_bytes(8) + be_bytes(id as nat, 8)
}

/// The context that a list of pairs denotes: both identifiers are required and
/// must be decimal numbers of 64 bits.
pub open spec fn context_of(pairs: Seq<(Seq<char>, Seq<char>)>) -> Option<ContextView> {
    match (lookup(pairs, key_trace_id()), lookup(pairs, key_parent_id())) {
        (Some(trace_text), Some(span_text)) => match (
            parse_decimal(trace_text),
            parse_decimal(span_text),
            sampled_of(lookup(pairs, key_priority())),
        ) {
            (Some(trace), Some(span), Some(sampled)) => Some(
                ContextView {
                    trace: trace_bytes(trace),
                    span: be_bytes(span as nat, 8),
                    sampled,
                    origin: lookup(pairs, key_origin()),
                },
            ),
            _ => None,
        },
        _ => None,
    }
}

/// The context that a header value denotes, if it is well formed.
pub open spec fn extract_value(text: Seq<char>) -> Option<ContextView> {
    if is_ascii_chars(text) {
        match parse_pairs(text) {
            Some(pairs) => context_of(pairs),
            None => None,
        }
    } else {
        None
    }
}

/// The context that a set of headers carries, if any.
pub open spec fn extracted(headers: Map<Seq<char>, Seq<char>>) -> Option<ContextView> {
    if headers.contains_key(header_name()) {
        extract_value(headers[header_name()])
    } else {
        None
    }
}

/// What a context looks like after it has travelled: the trace id keeps its
/// last eight bytes only, and an origin that cannot travel is gone.
pub open spec fn travelled(ctx: ContextView) -> ContextView {
    ContextView {
        trace: zero_bytes(8) + ctx.trace.subrange(8, 16),
        span: ctx.span,
        sampled: ctx.sampled,
        origin: if ctx.origin is Some && tag_ok(ctx.origin->0) {
            ctx.origin
        } else {
            None
        },
    }
}

/// Whether a context travels unchanged: its trace id lies in Datadog's space
/// and its origin, if it has one, can travel.
pub open spec fn portable(ctx: ContextView) -> bool {
    &&& forall|i: int| 0 <= i < 8 ==> ctx.trace[i] == 0
    &&& ctx.origin is Some ==> tag_ok(ctx.origin->0)
}

/// Reads and writes Datadog's trace context header.
#[derive(Clone, Copy, Debug, Default)]
pub struct DatadogPropagator;

impl DatadogPropagator {
    /// A propagator.
    pub fn new() -> (propagator: DatadogPropagator) {
        DatadogPropagator
    }

    /// The name of the header that carries the context.
    pub fn header(&self) -> (name: &'static str)
        ensures
            name@ == header_name(),
    {
        "x-datadog-trace-context"
    }

    /// Writes `context` into `headers`. A context whose trace id or span id is
    /// zero is not written.
    pub fn inject(&self, context: &SpanContext, headers: &mut HeaderMap)
        ensures
            final(headers)@ == injected(old(headers)@, context@),
    {
        let trace = trace_id_to_vendor(context.trace_id);
        let span = span_id_to_vendor(context.span_id);
        if !context.trace_id.check_valid() || span.0 == 0 {
            return ;
        }
        let priority: u64 = if context.sampled {
            2
        } else {
            0
        };
        let mut entries: Vec<Header> = Vec::new();
        entries.push(Header { name: "trace-id".to_owned(), value: format_u64(trace.0) });
        entries.push(Header { name: "parent-id".to_owned(), value: format_u64(span.0) });
        entries.push(Header { name: "sampling-priority".to_owned(), value: format_u64(priority) });
        match &context.origin {
            Some(tag) => {
                if tag.as_str().is_ascii() && !contains_byte(tag.as_str(), 59) {
                    entries.push(Header { name: "origin".to_owned(), value: tag.clone() });
                }
            },
            None => {},
        }
        proof {
            assert(pairs_of(entries@) =~= header_pairs(context@));
        }
        let text = write_pairs(&entries);
        headers.set("x-datadog-trace-context", text);
    }

    /// Reads the context that `headers` carry. Without the header, or with one
    /// that is malformed, there is none.
    pub fn extract(&self, headers: &HeaderMap) -> (context: Option<SpanContext>)
        ensures
            match context {
                Some(found) => extracted(headers@) == Some(found@),
                None => extracted(headers@) is None,
            },
    {
        let text = match headers.get("x-datadog-trace-context") {
            Some(text) => text,
            None => {
                return None;
            },
        };
        let entries = match read_pairs(text) {
            Some(entries) => entries,
            None => {
                return None;
            },
        };
        let trace_text = match first_value(&entries, "trace-id") {
            Some(text) => text,
            None => {
                return None;
            },
        };
        let span_text = match first_value(&entries, "parent-id") {
            Some(text) => text,
            None => {
                return None;
            },
        };
        let trace = match parse_u64(trace_text) {
            Some(id) => id,
            None => {
                return None;
            },
        };
        let span = match parse_u64(span_text) {
            Some(id) => id,
            None => {
                return None;
            },
        };
        let sampled = match first_value(&entries, "sampling-priority") {
            Some(text) => match parse_u64(text) {
                Some(priority) => {
                    if priority > 2 {
                        return None;
                    }
                    priority != 0
                },
                None => {
                    return None;
                },
            },
            None => true,
        };
        let origin = match first_value(&entries, "origin") {
            Some(tag) => Some(tag.to_owned()),
            None => None,
        };
        let trace_id = TraceId::from_vendor(DatadogId(trace));
        let span_id = SpanId::from_vendor(DatadogId(span));
        proof {
            assert(trace_id.bytes@ =~= trace_bytes(trace)) by {
                assert forall|i: int| 0 <= i < 16 implies trace_id.bytes@[i] == trace_bytes(
                    trace,
                )[i] by {
                    if i >= 8 {
                        assert(trace_id.bytes@[i] == trace_id.bytes@.subrange(8, 16)[i - 8]);
                    }
                }
            }
        }
        Some(SpanContext { trace_id, span_id, sampled, origin })
    }
}

/// The text of a number is ASCII and holds neither `;` nor `=`.
pub proof fn lemma_decimal_text_plain(n: nat)
    ensures
        is_ascii_chars(decimal_text(n)),
        lacks(decimal_text(n), ';'),
        lacks(decimal_text(n), '='),
{
    lemma_decimal_text_digits(n);
    let s = decimal_text(n);
    assert forall|i: int| 0 <= i < s.len() implies '\0' <= #[trigger] s[i] <= '\u{7f}' && s[i]
        != ';' && s[i] != '=' by {
        assert(is_digit(s[i]));
    }
}

/// The four keys are ASCII, hold neither `;` nor `=`, and differ in length.
pub proof fn lemma_keys()
    ensures
        key_trace_id().len() == 8,
        key_parent_id().len() == 9,
        key_priority().len() == 17,
        key_origin().len() == 6,
        is_ascii_chars(key_trace_id()) && lacks(key_trace_id(), ';') && lacks(key_trace_id(), '='),
        is_ascii_chars(key_parent_id()) && lacks(key_parent_id(), ';') && lacks(
            key_parent_id(),
            '=',
        ),
        is_ascii_chars(key_priority()) && lacks(key_priority(), ';') && lacks(key_priority(), '='),
        is_ascii_chars(key_origin()) && lacks(key_origin(), ';') && lacks(key_origin(), '='),
{
    reveal_strlit("trace-id");
    reveal_strlit("parent-id");
    reveal_strlit("sampling-priority");
    reveal_strlit("origin");
}

/// The text of pairs that are ASCII is ASCII.
pub proof fn lemma_join_ascii(pairs: Seq<(Seq<char>, Seq<char>)>)
    requires
        forall|i: int|
            0 <= i < pairs.len() ==> is_ascii_chars((#[trigger] pairs[i]).0) && is_ascii_chars(
                pairs[i].1,
            ),
    ensures
        is_ascii_chars(join_pairs(pairs)),
    decreases pairs.len(),
{
    if pairs.len() >= 1 {
        let last = pairs.last();
        let text = pair_text(last);
        assert(is_ascii_chars(last.0) && is_ascii_chars(last.1));
        assert forall|j: int| 0 <= j < text.len() implies '\0' <= #[trigger] text[j]
            <= '\u{7f}' by {
            if j < last.0.len() {
                assert(text[j] == last.0[j]);
            } else if j > last.0.len() {
                assert(text[j] == last.1[j - last.0.len() - 1]);
            }
        }
        if pairs.len() >= 2 {
            let front = pairs.drop_last();
            assert forall|i: int| 0 <= i < front.len() implies is_ascii_chars(
                (#[trigger] front[i]).0,
            ) && is_ascii_chars(front[i].1) by {
                assert(front[i] == pairs[i]);
            }
            lemma_join_ascii(front);
            let head = join_pairs(front);
            let all = join_pairs(pairs);
            assert forall|j: int| 0 <= j < all.len() implies '\0' <= #[trigger] all[j]
                <= '\u{7f}' by {
                if j < head.len() {
                    assert(all[j] == head[j]);
                } else if j > head.len() {
                    assert(all[j] == text[j - head.len() - 1]);
                }
            }
        }
    }
}

/// Reading the header value written for a context gives the context as it has
/// travelled: with the same span id, sampling decision and last eight bytes of
/// the trace id, and with its origin if that can travel.
pub proof fn lemma_extract_header_text(ctx: ContextView)
    requires
        ctx.trace.len() == 16,
        ctx.span.len() == 8,
    ensures
        extract_value(header_text(ctx)) == Some(travelled(ctx)),
{
    let pairs = header_pairs(ctx);
    let trace = trace_vendor_value(ctx.trace);
    let span = be_value(ctx.span);
    lemma_keys();
    lemma_decimal_text_plain(trace);
    lemma_decimal_text_plain(span);
    lemma_decimal_text_plain(priority_of(ctx.sampled));
    lemma_decimal_text_digits(trace);
    lemma_decimal_text_digits(span);
    lemma_decimal_text_digits(priority_of(ctx.sampled));
    crate::codec::lemma_be_value_bound(ctx.trace.subrange(8, 16));
    crate::codec::lemma_be_value_bound(ctx.span);
    crate::codec::lemma_pow256_values();
    assert forall|i: int| 0 <= i < pairs.len() implies pair_ok(#[trigger] pairs[i])
        && is_ascii_chars(pairs[i].0) && is_ascii_chars(pairs[i].1) by {}
    lemma_parse_join(pairs);
    lemma_join_ascii(pairs);
    lemma_lookup_index(pairs, key_trace_id(), 0);
    lemma_lookup_index(pairs, key_parent_id(), 1);
    lemma_lookup_index(pairs, key_priority(), 2);
    lemma_lookup_index(pairs, key_origin(), 3);
    lemma_be_bytes_of_value(ctx.trace.subrange(8, 16));
    lemma_be_bytes_of_value(ctx.span);
    let found = context_of(pairs);
    assert(found is Some);
    assert(found->0.trace =~= travelled(ctx).trace);
    assert(found->0.span =~= travelled(ctx).span);
}

/// A valid context that is injected and extracted again comes back as it has
/// travelled, whatever the headers held before.
pub proof fn lemma_extract_after_inject(headers: Map<Seq<char>, Seq<char>>, ctx: ContextView)
    requires
        context_valid(ctx),
    ensures
        extracted(injected(headers, ctx)) == Some(travelled(ctx)),
{
    lemma_extract_header_text(ctx);
}

/// Round trip: a valid context whose trace id lies in Datadog's space and
/// whose origin can travel comes back unchanged from injecting and extracting:
/// trace id, span id, sampling decision and origin.
pub proof fn lemma_round_trip(headers: Map<Seq<char>, Seq<char>>, ctx: ContextView)
    requires
        context_valid(ctx),
        portable(ctx),
    ensures
        extracted(injected(headers, ctx)) == Some(ctx),
{
    lemma_extract_header_text(ctx);
    assert(travelled(ctx).trace =~= ctx.trace);
}

/// Headers without the trace context header carry no context.
pub proof fn lemma_extract_absent(headers: Map<Seq<char>, Seq<char>>)
    requires
        !headers.contains_key(header_name()),
    ensures
        extracted(headers) is None,
{
}

/// A header value that is malformed, or lacks the trace id or the span id, or
/// gives one of them as anything but a decimal number of 64 bits, denotes no
/// context.
pub proof fn lemma_extract_missing_field(text: Seq<char>)
    requires
        parse_pairs(text) matches Some(pairs) ==> {
            ||| lookup(pairs, key_trace_id()) is None
            ||| lookup(pairs, key_parent_id()) is None
            ||| parse_decimal(lookup(pairs, key_trace_id())->0) is None
            ||| parse_decimal(lookup(pairs, key_parent_id())->0) is None
        },
    ensures
        extract_value(text) is None,
{
}

} // verus!
