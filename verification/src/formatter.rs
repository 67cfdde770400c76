//! Log lines that Datadog can correlate with traces.
//!
//! An event becomes one line of JSON, ended by a newline, with the members
//! `timestamp`, `level`, `fields` and `target`, in that order. An event written
//! while a span is active has two members more, `dd.span_id` and `dd.trace_id`:
//! the identifiers of that span in Datadog's space. They are JSON integers
//! with every digit written out, so a reader that takes them as unsigned
//! 64-bit integers gets the identifiers back exactly. Without an active span
//! the two members are not there at all.
//!
//! The timestamp is the time at which the line is formatted. The level is
//! written in lower case. Texts are quoted by `serde_json`; when it fails, the
//! event is reported as not formatted and the caller may write the fallback
//! line instead.
use crate::codec::{be_value, span_id_to_vendor, trace_id_to_vendor, trace_vendor_value, DatadogId};
use crate::decimal::{
    decimal_text, lemma_parse_decimal_text, parse_decimal, push_decimal, push_signed,
    signed_text,
};
use crate::propagator::SpanContext;
use vstd::prelude::*;
use vstd::string::*;

verus! {

/// The error of `serde_json`.
#[verifier::external_type_specification]
#[verifier::external_body]
pub struct ExJsonError(serde_json::Error);

/// What `serde_json` gives for a string: its JSON text, which is the string in
/// double quotes with what JSON does not take escaped, or nothing if it fails.
pub uninterp spec fn json_string_result(s: Seq<char>) -> Option<Seq<char>>;

/// `serde_json::to_string` on a string slice. Whether it succeeds, and the
/// text that it gives when it does, depend on the string alone: nothing more
/// is claimed, and in particular not that it succeeds.
#[verifier::external_body]
fn json_string(s: &str) -> (out: Result<String, serde_json::Error>)
    ensures
        json_string_result(s@) == (match out { Ok(text) => Some(text@), Err(_) => None }),
{
    serde_json::to_string(s)
}

/// `chrono::Utc::now` followed by `DateTime::to_rfc3339`: the current time in
/// UTC as RFC 3339 text. Nothing is claimed of the text, which depends on the
/// clock.
#[verifier::external_body]
fn current_timestamp() -> (text: String) {
    chrono::Utc::now().to_rfc3339()
}

/// Why an event could not be formatted.
#[derive(Clone, Copy, Debug, PartialEq, Eq, Structural)]
pub enum FormatError {
    /// A text of the event could not be written as JSON.
    Serialization,
}

/// The severity of an event.
#[derive(Clone, Copy, Debug, PartialEq, Eq, Structural)]
pub enum Level {
    Trace,
    Debug,
    Info,
    Warn,
    Error,
}

/// The value of one field of an event.
#[derive(Clone, Debug, PartialEq, Eq)]
pub enum FieldValue {
    Text(String),
    Signed(i64),
    Unsigned(u64),
    Flag(bool),
}

/// One field of an event.
#[derive(Clone, Debug, PartialEq, Eq)]
pub struct Field {
    pub name: String,
    pub value: FieldValue,
}

/// An event to be logged.
#[derive(Clone, Debug, PartialEq, Eq)]
pub struct LogEvent {
    pub level: Level,
    /// The part of the program that the event comes from.
    pub target: String,
    pub fields: Vec<Field>,
}

/// The identifiers of the active span, in Datadog's space.
#[derive(Clone, Copy, Debug, PartialEq, Eq)]
pub struct TraceInfo {
    pub trace_id: DatadogId,
    pub span_id: DatadogId,
}

/// One member of a JSON object: its key and its value, both as JSON text.
#[derive(Clone, Debug, PartialEq, Eq)]
pub struct Member {
    pub key: String,
    pub text: String,
}

/// The key and value text of each member, in order.
pub open spec fn members_of(members: Seq<Member>) -> Seq<(Seq<char>, Seq<char>)> {
    members.map_values(|m: Member| (m.key@, m.text@))
}

/// The text of one member: key, colon, value.
pub open spec fn member_text(member: (Seq<char>, Seq<char>)) -> Seq<char> {
    member.0 + seq![':'] + member.1
}

/// The texts of the members with commas between them.
pub open spec fn members_text(members: Seq<(Seq<char>, Seq<char>)>) -> Seq<char>
    decreases members.len(),
{
    if members.len() == 0 {
        Seq::empty()
    } else if members.len() == 1 {
        member_text(members[0])
    } else {
        members_text(members.drop_last()) + seq![','] + member_text(members.last())
    }
}

/// The JSON text of an object with the given members.
pub open spec fn object_text(members: Seq<(Seq<char>, Seq<char>)>) -> Seq<char> {
    seq!['{'] + members_text(members) + seq!['}']
}

/// The name of a level, in lower case.
pub open spec fn level_name(level: Level) -> Seq<char> {
    match level {
        Level::Trace => "trace"@,
        Level::Debug => "debug"@,
        Level::Info => "info"@,
        Level::Warn => "warn"@,
        Level::Error => "error"@,
    }
}

/// The JSON text of a level: its name in double quotes.
pub open spec fn level_text(level: Level) -> Seq<char> {
    seq!['"'] + level_name(level) + seq!['"']
}

/// The JSON text of a field's value: a quoted string, a number with all its
/// digits, or `true` or `false`; nothing for a string that cannot be quoted.
pub open spec fn value_result(value: FieldValue) -> Option<Seq<char>> {
    match value {
        FieldValue::Text(s) => json_string_result(s@),
        FieldValue::Signed(v) => Some(signed_text(v as int)),
        FieldValue::Unsigned(v) => Some(decimal_text(v as nat)),
        FieldValue::Flag(b) => if b {
            Some("true"@)
        } else {
            Some("false"@)
        },
    }
}

/// The member that a field becomes: its quoted name and its value's text.
pub open spec fn member_result(field: Field) -> Option<(Seq<char>, Seq<char>)> {
    both(json_string_result(field.name@), value_result(field.value))
}

/// The identifiers that a line carries for the active span, if there is one.
pub open spec fn trace_info_of(context: Option<&SpanContext>) -> Option<TraceInfo> {
    match context {
        Some(ctx) => Some(
            TraceInfo {
                trace_id: DatadogId(trace_vendor_value(ctx.trace_id.bytes@) as u64),
                span_id: DatadogId(be_value(ctx.span_id.bytes@) as u64),
            },
        ),
        None => None,
    }
}

/// The two members that tie a line to a span: the span id first.
pub open spec fn correlation_members(info: Option<TraceInfo>) -> Seq<(Seq<char>, Seq<char>)> {
    match info {
        Some(ids) => seq![
            ("\"dd.span_id\""@, decimal_text(ids.span_id.0 as nat)),
            ("\"dd.trace_id\""@, decimal_text(ids.trace_id.0 as nat)),
        ],
        None => Seq::empty(),
    }
}

/// The members of a line, given the JSON texts of its timestamp, fields and
/// target.
pub open spec fn line_members(
    timestamp: Seq<char>,
    level: Level,
    fields: Seq<(Seq<char>, Seq<char>)>,
    target: Seq<char>,
    info: Option<TraceInfo>,
) -> Seq<(Seq<char>, Seq<char>)> {
    seq![
        ("\"timestamp\""@, timestamp),
        ("\"level\""@, level_text(level)),
        ("\"fields\""@, object_text(fields)),
        ("\"target\""@, target),
    ] + correlation_members(info)
}

/// A line, given the JSON texts of its timestamp, fields and target: the
/// object of its members and a newline.
pub open spec fn rendered(
    timestamp: Seq<char>,
    level: Level,
    fields: Seq<(Seq<char>, Seq<char>)>,
    target: Seq<char>,
    info: Option<TraceInfo>,
) -> Seq<char> {
    object_text(line_members(timestamp, level, fields, target, info)) + seq!['\n']
}

/// The line for an event formatted at the time `timestamp`, or nothing if a
/// text of the event, or the timestamp, cannot be quoted.
pub open spec fn line_result(timestamp: Seq<char>, event: LogEvent, info: Option<TraceInfo>) -> Option<
    Seq<char>,
> {
    match (json_string_result(timestamp), json_string_result(event.target@), fields_result(event.fields@)) {
        (Some(time), Some(target), Some(fields)) => Some(
            rendered(time, event.level, fields, target, info),
        ),
        _ => None,
    }
}

/// The line written when an event cannot be formatted: level and target as
/// they are, with a note, and no fields.
pub open spec fn fallback_text(event: LogEvent) -> Seq<char> {
    level_name(event.level) + seq![' '] + event.target@ + " (event not formatted)\n"@
}

/// The identifiers of the active span in Datadog's space, if a span is active.
pub fn lookup_trace_info(context: Option<&SpanContext>) -> (info: Option<TraceInfo>)
    ensures
        info == trace_info_of(context),
{
    match context {
        Some(ctx) => Some(
            TraceInfo {
                trace_id: trace_id_to_vendor(ctx.trace_id),
                span_id: span_id_to_vendor(ctx.span_id),
            },
        ),
        None => None,
    }
}

/// What becomes of the outcome of quoting a text: the text, or the report
/// that the event cannot be serialized.
pub fn quoted(outcome: Result<String, serde_json::Error>) -> (out: Result<String, FormatError>)
    ensures
        match outcome {
            Ok(text) => out == Ok::<String, FormatError>(text),
            Err(_) => out == Err::<String, FormatError>(FormatError::Serialization),
        },
{
    match outcome {
        Ok(text) => Ok(text),
        Err(_) => Err(FormatError::Serialization),
    }
}

/// The JSON text of a string, or the report that it cannot be serialized.
pub fn quote(s: &str) -> (out: Result<String, FormatError>)
    ensures
        match out {
            Ok(text) => json_string_result(s@) == Some(text@),
            Err(e) => e == FormatError::Serialization && json_string_result(s@) is None,
        },
{
    quoted(json_string(s))
}

/// The name of a level, in lower case.
pub fn level_str(level: Level) -> (name: &'static str)
    ensures
        name@ == level_name(level),
{
    match level {
        Level::Trace => "trace",
        Level::Debug => "debug",
        Level::Info => "info",
        Level::Warn => "warn",
        Level::Error => "error",
    }
}

/// The JSON text of an object with the given members.
pub fn write_object(members: &Vec<Member>) -> (text: String)
    ensures
        text@ == object_text(members_of(members@)),
{
    proof {
        reveal_strlit("{");
        reveal_strlit("}");
        reveal_strlit(",");
        reveal_strlit(":");
    }
    let mut text = String::new();
    text.append("{");
    let mut i: usize = 0;
    while i < members.len()
        invariant
            i <= members@.len(),
            text@ == seq!['{'] + members_text(members_of(members@).take(i as int)),
        decreases members@.len() - i,
    {
        let ghost done = members_of(members@).take(i as int);
        let ghost next = members_of(members@).take(i + 1);
        proof {
            reveal_strlit(",");
            reveal_strlit(":");
            assert(next.drop_last() =~= done);
            assert(next.last() == (members@[i as int].key@, members@[i as int].text@));
        }
        if i > 0 {
            text.append(",");
        }
        text.append(members[i].key.as_str());
        text.append(":");
        text.append(members[i].text.as_str());
        proof {
            assert(","@ =~= seq![',']);
            assert(":"@ =~= seq![':']);
            assert(text@ =~= seq!['{'] + members_text(next));
        }
        i += 1;
    }
    proof {
        assert(members_of(members@).take(i as int) =~= members_of(members@));
        assert("{"@ =~= seq!['{']);
        assert("}"@ =~= seq!['}']);
    }
    text.append("}");
    text
}

/// The JSON text of a field's value. Only a string can fail to be written.
pub fn value_json(value: &FieldValue) -> (out: Result<String, FormatError>)
    ensures
        match out {
            Ok(text) => value_result(*value) == Some(text@),
            Err(e) => e == FormatError::Serialization && value_result(*value) is None,
        },
{
    match value {
        FieldValue::Text(s) => quote(s.as_str()),
        FieldValue::Signed(v) => {
            let mut text = String::new();
            push_signed(&mut text, *v);
            Ok(text)
        },
        FieldValue::Unsigned(v) => {
            let mut text = String::new();
            push_decimal(&mut text, *v);
            Ok(text)
        },
        FieldValue::Flag(b) => {
            if *b {
                Ok("true".to_owned())
            } else {
                Ok("false".to_owned())
            }
        },
    }
}

/// The members that an event's fields become, if every one of them can be.
pub fn fields_json(fields: &Vec<Field>) -> (out: Result<Vec<Member>, FormatError>)
    ensures
        match out {
            Ok(members) => fields_result(fields@) == Some(members_of(members@)),
            Err(e) => e == FormatError::Serialization && fields_result(fields@) is None,
        },
{
    let mut members: Vec<Member> = Vec::new();
    let mut i: usize = 0;
    while i < fields.len()
        invariant
            i <= fields@.len(),
            forall|j: int| 0 <= j < i ==> (#[trigger] member_result(fields@[j])) is Some,
            members_of(members@) == members_some(fields@).take(i as int),
        decreases fields@.len() - i,
    {
        let ghost member = member_result(fields@[i as int]);
        let key = match quote(fields[i].name.as_str()) {
            Ok(text) => text,
            Err(e) => return Err(e),
        };
        let text = match value_json(&fields[i].value) {
            Ok(text) => text,
            Err(e) => return Err(e),
        };
        let ghost before = members_of(members@);
        members.push(Member { key, text });
        proof {
            assert(member == Some((key@, text@)));
            assert(members_some(fields@)[i as int] == member->0);
            assert(members_of(members@) =~= before.push((key@, text@)));
            assert(members_of(members@) =~= members_some(fields@).take(i + 1));
        }
        i += 1;
    }
    proof {
        assert(members_some(fields@).take(i as int) =~= members_some(fields@));
    }
    Ok(members)
}

/// The line with the given JSON texts for timestamp and target and the given
/// members for the fields. The two correlation members are written exactly
/// when `info` holds identifiers.
pub fn render_line(
    timestamp: &str,
    level: Level,
    fields: &Vec<Member>,
    target: &str,
    info: Option<TraceInfo>,
) -> (line: String)
    ensures
        line@ == rendered(timestamp@, level, members_of(fields@), target@, info),
{
    proof {
        reveal_strlit("\"");
        reveal_strlit("\n");
    }
    let mut level_json = String::new();
    level_json.append("\"");
    level_json.append(level_str(level));
    level_json.append("\"");
    proof {
        assert("\""@ =~= seq!['"']);
        assert(level_json@ =~= level_text(level));
    }
    let mut members: Vec<Member> = Vec::new();
    members.push(Member { key: "\"timestamp\"".to_owned(), text: timestamp.to_owned() });
    members.push(Member { key: "\"level\"".to_owned(), text: level_json });
    members.push(Member { key: "\"fields\"".to_owned(), text: write_object(fields) });
    members.push(Member { key: "\"target\"".to_owned(), text: target.to_owned() });
    match info {
        Some(ids) => {
            let mut span = String::new();
            push_decimal(&mut span, ids.span_id.0);
            let mut trace = String::new();
            push_decimal(&mut trace, ids.trace_id.0);
            members.push(Member { key: "\"dd.span_id\"".to_owned(), text: span });
            members.push(Member { key: "\"dd.trace_id\"".to_owned(), text: trace });
        },
        None => {},
    }
    proof {
        assert(members_of(members@) =~= line_members(
            timestamp@,
            level,
            members_of(fields@),
            target@,
            info,
        ));
    }
    let mut line = write_object(&members);
    line.append("\n");
    proof {
        assert("\n"@ =~= seq!['\n']);
    }
    line
}

/// The line written in place of an event that could not be formatted.
pub fn fallback_line(event: &LogEvent) -> (line: String)
    ensures
        line@ == fallback_text(*event),
{
    proof {
        reveal_strlit(" ");
    }
    let mut line = String::new();
    line.append(level_str(event.level));
    line.append(" ");
    line.append(event.target.as_str());
    line.append(" (event not formatted)\n");
    proof {
        assert(" "@ =~= seq![' ']);
        assert(line@ =~= fallback_text(*event));
    }
    line
}

/// Formats events as lines of JSON with Datadog's correlation members.
#[derive(Clone, Copy, Debug, Default)]
pub struct DatadogFormatter;

impl DatadogFormatter {
    /// The line for `event`, formatted at the time `timestamp`, for an event
    /// written while `context` was the active span's context, if any.
    pub fn format_at(&self, timestamp: &str, event: &LogEvent, context: Option<&SpanContext>) -> (out:
        Result<String, FormatError>)
        ensures
            agrees(
                out,
                line_result(timestamp@, *event, trace_info_of(context)),
            ),
    {
        let time = match quote(timestamp) {
            Ok(text) => text,
            Err(e) => {
                return Err(e);
            },
        };
        let target = match quote(event.target.as_str()) {
            Ok(text) => text,
            Err(e) => {
                return Err(e);
            },
        };
        let fields = match fields_json(&event.fields) {
            Ok(members) => members,
            Err(e) => {
                return Err(e);
            },
        };
        let info = lookup_trace_info(context);
        Ok(render_line(time.as_str(), event.level, &fields, target.as_str(), info))
    }

    /// The line for `event`, with the current time as its timestamp.
    pub fn format_event(&self, event: &LogEvent, context: Option<&SpanContext>) -> (out: Result<
        String,
        FormatError,
    >)
        ensures
            exists|timestamp: Seq<char>|
                agrees(
                    out,
                    #[trigger] line_result(timestamp, *event, trace_info_of(context)),
                ),
    {
        let timestamp = current_timestamp();
        let out = self.format_at(timestamp.as_str(), event, context);
        proof {
            assert(agrees(out, line_result(timestamp@, *event, trace_info_of(context))));
        }
        out
    }

    /// The line for `event` with the current time as its timestamp, or the
    /// fallback line if the event cannot be formatted. The flag tells which.
    pub fn format_or_fallback(&self, event: &LogEvent, context: Option<&SpanContext>) -> (out: (
        String,
        bool,
    ))
        ensures
            exists|timestamp: Seq<char>|
                match #[trigger] line_result(timestamp, *event, trace_info_of(context)) {
                    Some(line) => out.1 && out.0@ == line,
                    None => !out.1 && out.0@ == fallback_text(*event),
                },
    {
        let formatted = self.format_event(event, context);
        let ghost timestamp = choose|timestamp: Seq<char>|
            agrees(formatted, #[trigger] line_result(timestamp, *event, trace_info_of(context)));
        let out = match formatted {
            Ok(line) => (line, true),
            Err(_) => (fallback_line(event), false),
        };
        proof {
            assert(line_result(timestamp, *event, trace_info_of(context)) is Some <==> out.1);
        }
        out
    }
}

/// A line written without an active span has the four members `timestamp`,
/// `level`, `fields` and `target` and no other: the correlation members are
/// not there.
pub proof fn lemma_no_correlation_without_span(
    timestamp: Seq<char>,
    level: Level,
    fields: Seq<(Seq<char>, Seq<char>)>,
    target: Seq<char>,
)
    ensures
        line_members(timestamp, level, fields, target, None) == seq![
            ("\"timestamp\""@, timestamp),
            ("\"level\""@, level_text(level)),
            ("\"fields\""@, object_text(fields)),
            ("\"target\""@, target),
        ],
{
    assert(line_members(timestamp, level, fields, target, None) =~= seq![
        ("\"timestamp\""@, timestamp),
        ("\"level\""@, level_text(level)),
        ("\"fields\""@, object_text(fields)),
        ("\"target\""@, target),
    ]);
}

/// A line written in an active span has six members; the fifth is
/// `dd.span_id` and the sixth `dd.trace_id`, and reading their values as
/// decimal numbers of 64 bits gives the span's two identifiers in Datadog's
/// space back exactly.
pub proof fn lemma_correlation_lossless(
    timestamp: Seq<char>,
    level: Level,
    fields: Seq<(Seq<char>, Seq<char>)>,
    target: Seq<char>,
    ids: TraceInfo,
)
    ensures
        line_members(timestamp, level, fields, target, Some(ids)).len() == 6,
        line_members(timestamp, level, fields, target, Some(ids))[4].0 == "\"dd.span_id\""@,
        line_members(timestamp, level, fields, target, Some(ids))[5].0 == "\"dd.trace_id\""@,
        parse_decimal(line_members(timestamp, level, fields, target, Some(ids))[4].1) == Some(
            ids.span_id.0,
        ),
        parse_decimal(line_members(timestamp, level, fields, target, Some(ids))[5].1) == Some(
            ids.trace_id.0,
        ),
{
    lemma_parse_decimal_text(ids.span_id.0);
    lemma_parse_decimal_text(ids.trace_id.0);
}

/// Lines of different spans never carry the same identifier text: what is
/// written for an identifier is written for no other.
pub proof fn lemma_correlation_distinct(a: TraceInfo, b: TraceInfo)
    ensures
        a.span_id.0 != b.span_id.0 ==> correlation_members(Some(a))[0].1 != correlation_members(
            Some(b),
        )[0].1,
        a.trace_id.0 != b.trace_id.0 ==> correlation_members(Some(a))[1].1 != correlation_members(
            Some(b),
        )[1].1,
{
    lemma_parse_decimal_text(a.span_id.0);
    lemma_parse_decimal_text(b.span_id.0);
    lemma_parse_decimal_text(a.trace_id.0);
    lemma_parse_decimal_text(b.trace_id.0);
}


/// Two results together, where both are there.
pub open spec fn both(key: Option<Seq<char>>, text: Option<Seq<char>>) -> Option<
    (Seq<char>, Seq<char>),
> {
    match (key, text) {
        (Some(k), Some(t)) => Some((k, t)),
        _ => None,
    }
}

/// The member of each field, for fields that all have one.
pub open spec fn members_some(fields: Seq<Field>) -> Seq<(Seq<char>, Seq<char>)> {
    fields.map_values(|f: Field| member_result(f)->0)
}

/// The members that an event's fields become, or nothing if the name or the
/// value of one of them cannot be quoted.
pub open spec fn fields_result(fields: Seq<Field>) -> Option<Seq<(Seq<char>, Seq<char>)>> {
    if forall|i: int| 0 <= i < fields.len() ==> (#[trigger] member_result(fields[i])) is Some {
        Some(members_some(fields))
    } else {
        None
    }
}

/// Whether an outcome is what was expected: the expected line, or the report
/// of a failed serialization where no line was to be expected.
pub open spec fn agrees(out: Result<String, FormatError>, expected: Option<Seq<char>>) -> bool {
    match out {
        Ok(line) => expected == Some(line@),
        Err(e) => e == FormatError::Serialization && expected is None,
    }
}

} // verus!
