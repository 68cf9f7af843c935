//! Typed events of the trainer protocol, and the decoder that turns raw
//! output lines into them.
//!
//! A line is decoded by the `type` discriminator of its JSON object; a
//! line outside the wire format becomes a plain `Log` event carrying the
//! raw text — at `INFO` severity for the output stream, `ERROR` for the
//! error stream. Empty lines are skipped.

use vstd::prelude::*;

use crate::json::{
    lookup, pairs_view, parse_i32, parse_object_line, spec_int_val, spec_is_int_text,
    spec_lookup, spec_parse_object, JsonField, JsonFieldV,
};
use crate::strutil::str_eq;

verus! {

/// One event emitted by a training run. Immutable once produced.
///
/// A metric value keeps its source text, so nothing is lost to rounding;
/// callers convert it when they need arithmetic.
#[derive(Debug, Clone)]
pub enum RunnerEvent {
    Log { level: String, message: String, ts: String },
    Metric { key: String, value: String, step: i32, ts: String },
    Progress { current: i32, total: i32, ts: String },
    Artifact { kind: String, path: String, sha256: String, ts: String },
    Status { state: String, error: Option<String>, ts: String },
    Device { name: String, ts: String },
}

/// Mathematical image of a `RunnerEvent`.
pub enum RunnerEventV {
    Log { level: Seq<char>, message: Seq<char>, ts: Seq<char> },
    Metric { key: Seq<char>, value: Seq<char>, step: int, ts: Seq<char> },
    Progress { current: int, total: int, ts: Seq<char> },
    Artifact { kind: Seq<char>, path: Seq<char>, sha256: Seq<char>, ts: Seq<char> },
    Status { state: Seq<char>, error: Option<Seq<char>>, ts: Seq<char> },
    Device { name: Seq<char>, ts: Seq<char> },
}

impl View for RunnerEvent {
    type V = RunnerEventV;

    open spec fn view(&self) -> RunnerEventV {
        match self {
            RunnerEvent::Log { level, message, ts } => RunnerEventV::Log {
                level: level@,
                message: message@,
                ts: ts@,
            },
            RunnerEvent::Metric { key, value, step, ts } => RunnerEventV::Metric {
                key: key@,
                value: value@,
                step: *step as int,
                ts: ts@,
            },
            RunnerEvent::Progress { current, total, ts } => RunnerEventV::Progress {
                current: *current as int,
                total: *total as int,
                ts: ts@,
            },
            RunnerEvent::Artifact { kind, path, sha256, ts } => RunnerEventV::Artifact {
                kind: kind@,
                path: path@,
                sha256: sha256@,
                ts: ts@,
            },
            RunnerEvent::Status { state, error, ts } => RunnerEventV::Status {
                state: state@,
                error: crate::records::opt_view(*error),
                ts: ts@,
            },
            RunnerEvent::Device { name, ts } => RunnerEventV::Device { name: name@, ts: ts@ },
        }
    }
}

/// A field that fits an `i32`.
pub open spec fn spec_i32_field(f: Option<JsonFieldV>) -> Option<int> {
    match f {
        Some(JsonFieldV::N(t)) => if spec_is_int_text(t) && -2147483648 <= spec_int_val(t)
            <= 2147483647 {
            Some(spec_int_val(t))
        } else {
            None
        },
        _ => None,
    }
}

/// What a field list decodes to, by its `type` discriminator. Every
/// required field must be present with the right shape, else the line is
/// not a structured event.
pub open spec fn spec_decode_fields(f: Seq<(Seq<char>, JsonFieldV)>) -> Option<RunnerEventV> {
    match spec_lookup(f, "type"@) {
        Some(JsonFieldV::S(t)) => {
            if t == "log"@ {
                match (spec_lookup(f, "level"@), spec_lookup(f, "message"@), spec_lookup(
                    f,
                    "ts"@,
                )) {
                    (
                        Some(JsonFieldV::S(level)),
                        Some(JsonFieldV::S(message)),
                        Some(JsonFieldV::S(ts)),
                    ) => Some(RunnerEventV::Log { level, message, ts }),
                    _ => None,
                }
            } else if t == "metric"@ {
                match (spec_lookup(f, "key"@), spec_lookup(f, "value"@), spec_lookup(f, "ts"@)) {
                    (Some(JsonFieldV::S(key)), Some(JsonFieldV::N(value)), Some(
                        JsonFieldV::S(ts),
                    )) => match spec_i32_field(spec_lookup(f, "step"@)) {
                        Some(step) => Some(RunnerEventV::Metric { key, value, step, ts }),
                        None => None,
                    },
                    _ => None,
                }
            } else if t == "progress"@ {
                match spec_lookup(f, "ts"@) {
                    Some(JsonFieldV::S(ts)) => match (
                        spec_i32_field(spec_lookup(f, "current"@)),
                        spec_i32_field(spec_lookup(f, "total"@)),
                    ) {
                        (Some(current), Some(total)) => Some(
                            RunnerEventV::Progress { current, total, ts },
                        ),
                        _ => None,
                    },
                    _ => None,
                }
            } else if t == "artifact"@ {
                match (spec_lookup(f, "kind"@), spec_lookup(f, "path"@), spec_lookup(
                    f,
                    "sha256"@,
                ), spec_lookup(f, "ts"@)) {
                    (
                        Some(JsonFieldV::S(kind)),
                        Some(JsonFieldV::S(path)),
                        Some(JsonFieldV::S(sha256)),
                        Some(JsonFieldV::S(ts)),
                    ) => Some(RunnerEventV::Artifact { kind, path, sha256, ts }),
                    _ => None,
                }
            } else if t == "status"@ {
                match (spec_lookup(f, "state"@), spec_lookup(f, "error"@), spec_lookup(
                    f,
                    "ts"@,
                )) {
                    (Some(JsonFieldV::S(state)), Some(JsonFieldV::Null), Some(
                        JsonFieldV::S(ts),
                    )) => Some(RunnerEventV::Status { state, error: None, ts }),
                    (Some(JsonFieldV::S(state)), Some(JsonFieldV::S(e)), Some(
                        JsonFieldV::S(ts),
                    )) => Some(RunnerEventV::Status { state, error: Some(e), ts }),
                    _ => None,
                }
            } else if t == "device"@ {
                match (spec_lookup(f, "name"@), spec_lookup(f, "ts"@)) {
                    (Some(JsonFieldV::S(name)), Some(JsonFieldV::S(ts))) => Some(
                        RunnerEventV::Device { name, ts },
                    ),
                    _ => None,
                }
            } else {
                None
            }
        },
        _ => None,
    }
}

/// What a whole line decodes to as a structured event, if it is one.
pub open spec fn spec_parse_event(s: Seq<char>) -> Option<RunnerEventV> {
    match spec_parse_object(s) {
        Some(f) => spec_decode_fields(f),
        None => None,
    }
}

/// What a line decodes to: nothing for an empty line; the structured
/// event when the line is one; otherwise a `Log` carrying the raw line,
/// `ERROR` for the error stream, `INFO` otherwise, stamped `now`.
pub open spec fn spec_decode_line(s: Seq<char>, from_stderr: bool, now: Seq<char>) -> Option<
    RunnerEventV,
> {
    if s.len() == 0 {
        None
    } else {
        match spec_parse_event(s) {
            Some(e) => Some(e),
            None => Some(
                RunnerEventV::Log {
                    level: if from_stderr {
                        "ERROR"@
                    } else {
                        "INFO"@
                    },
                    message: s,
                    ts: now,
                },
            ),
        }
    }
}

/// A field that fits an `i32`, executably.
fn i32_field(f: Option<JsonField>) -> (r: Option<i32>)
    ensures
        match r {
            Some(v) => spec_i32_field(
                match f {
                    Some(x) => Some(x@),
                    None => None,
                },
            ) == Some(v as int),
            None => spec_i32_field(
                match f {
                    Some(x) => Some(x@),
                    None => None,
                },
            ) is None,
        },
{
    match f {
        Some(JsonField::N(t)) => parse_i32(t.as_str()),
        _ => None,
    }
}

/// Decode a parsed field list into a typed event.
fn decode_fields(fields: &Vec<(String, JsonField)>) -> (r: Option<RunnerEvent>)
    ensures
        match r {
            Some(e) => spec_decode_fields(pairs_view(fields@)) == Some(e@),
            None => spec_decode_fields(pairs_view(fields@)) is None,
        },
{
    let t = match lookup(fields, "type") {
        Some(JsonField::S(t)) => t,
        _ => {
            return None;
        },
    };
    if str_eq(t.as_str(), "log") {
        match (lookup(fields, "level"), lookup(fields, "message"), lookup(fields, "ts")) {
            (Some(JsonField::S(level)), Some(JsonField::S(message)), Some(JsonField::S(ts))) => Some(
                RunnerEvent::Log { level, message, ts },
            ),
            _ => None,
        }
    } else if str_eq(t.as_str(), "metric") {
        match (lookup(fields, "key"), lookup(fields, "value"), lookup(fields, "ts")) {
            (Some(JsonField::S(key)), Some(JsonField::N(value)), Some(JsonField::S(ts))) => {
                match i32_field(lookup(fields, "step")) {
                    Some(step) => Some(RunnerEvent::Metric { key, value, step, ts }),
                    None => None,
                }
            },
            _ => None,
        }
    } else if str_eq(t.as_str(), "progress") {
        match lookup(fields, "ts") {
            Some(JsonField::S(ts)) => {
                match (i32_field(lookup(fields, "current")), i32_field(lookup(fields, "total"))) {
                    (Some(current), Some(total)) => Some(
                        RunnerEvent::Progress { current, total, ts },
                    ),
                    _ => None,
                }
            },
            _ => None,
        }
    } else if str_eq(t.as_str(), "artifact") {
        match (
            lookup(fields, "kind"),
            lookup(fields, "path"),
            lookup(fields, "sha256"),
            lookup(fields, "ts"),
        ) {
            (
                Some(JsonField::S(kind)),
                Some(JsonField::S(path)),
                Some(JsonField::S(sha256)),
                Some(JsonField::S(ts)),
            ) => Some(RunnerEvent::Artifact { kind, path, sha256, ts }),
            _ => None,
        }
    } else if str_eq(t.as_str(), "status") {
        match (lookup(fields, "state"), lookup(fields, "error"), lookup(fields, "ts")) {
            (Some(JsonField::S(state)), Some(JsonField::Null), Some(JsonField::S(ts))) => Some(
                RunnerEvent::Status { state, error: None, ts },
            ),
            (Some(JsonField::S(state)), Some(JsonField::S(e)), Some(JsonField::S(ts))) => Some(
                RunnerEvent::Status { state, error: Some(e), ts },
            ),
            _ => None,
        }
    } else if str_eq(t.as_str(), "device") {
        match (lookup(fields, "name"), lookup(fields, "ts")) {
            (Some(JsonField::S(name)), Some(JsonField::S(ts))) => Some(
                RunnerEvent::Device { name, ts },
            ),
            _ => None,
        }
    } else {
        None
    }
}

/// Decode one raw output line, stamping `fallback_ts` on synthesized log
/// events. Returns nothing only for an empty line.
pub fn decode_line(line: &str, from_stderr: bool, fallback_ts: &str) -> (r: Option<RunnerEvent>)
    ensures
        match r {
            Some(e) => spec_decode_line(line@, from_stderr, fallback_ts@) == Some(e@),
            None => line@.len() == 0,
        },
        r is None <==> line@.len() == 0,
{
    if line.unicode_len() == 0 {
        return None;
    }
    let fields = match parse_object_line(line) {
        Some(fields) => fields,
        None => {
            return Some(fallback_log(line, from_stderr, fallback_ts));
        },
    };
    match decode_fields(&fields) {
        Some(e) => Some(e),
        None => Some(fallback_log(line, from_stderr, fallback_ts)),
    }
}

/// The synthesized log event for an unstructured line.
fn fallback_log(line: &str, from_stderr: bool, ts: &str) -> (r: RunnerEvent)
    ensures
        r@ == (RunnerEventV::Log {
            level: if from_stderr {
                "ERROR"@
            } else {
                "INFO"@
            },
            message: line@,
            ts: ts@,
        }),
{
    let level = if from_stderr {
        String::from_str("ERROR")
    } else {
        String::from_str("INFO")
    };
    RunnerEvent::Log { level, message: String::from_str(line), ts: String::from_str(ts) }
}

/// Relies on chrono's `Utc::now` and `to_rfc3339`: the current instant as
/// RFC 3339 text. The instant depends on the clock, so only the shape is
/// assumed: a nonempty string.
#[verifier::external_body]
pub(crate) fn now_rfc3339() -> (r: String)
    ensures
        r@.len() > 0,
{
    chrono::Utc::now().to_rfc3339()
}

/// Decode one raw output line, stamping the present instant on
/// synthesized log events.
pub fn decode_line_now(line: &str, from_stderr: bool) -> (r: Option<RunnerEvent>)
    ensures
        r is None <==> line@.len() == 0,
        spec_parse_event(line@) is Some ==> (r matches Some(e) && Some(e@) == spec_parse_event(
            line@,
        )),
        line@.len() > 0 && spec_parse_event(line@) is None ==> (r matches Some(e) && (e@ matches
        RunnerEventV::Log { level, message, ts } && level == (
        if from_stderr {
            "ERROR"@
        } else {
            "INFO"@
        }) && message == line@ && ts.len() > 0)),
{
    let now = now_rfc3339();
    decode_line(line, from_stderr, now.as_str())
}

} // verus!
