//! The telemetry protocol of supervised programs: `@workflow ` frames on
//! standard error, their decoding into log and progress events, and the
//! decisions of the supervisor that runs a program.
use vstd::prelude::*;
use vstd::string::StringExecFns;
use crate::text::{push_char, same_str, is_blank, is_blank_text};

verus! {

/// The longest frame line kept; longer lines are reported as malformed.
pub const FRAME_LIMIT: usize = 16384;

/// The most characters kept of one text field.
pub const TEXT_LIMIT: usize = 2048;

/// The most malformed-frame warnings reported for one program.
pub const MAX_WARNINGS: u64 = 3;

/// The shortest interval between two published progress events.
pub const PROGRESS_INTERVAL_NS: u128 = 50_000_000;

/// The bytes that open a telemetry frame: `@workflow `.
pub open spec fn frame_prefix() -> Seq<u8> {
    seq![64u8, 119u8, 111u8, 114u8, 107u8, 102u8, 108u8, 111u8, 119u8, 32u8]
}

/// A line is a telemetry frame.
pub open spec fn is_frame(line: Seq<u8>) -> bool {
    line.len() >= 10 && line.take(10) == frame_prefix()
}

/// What a completed line yields.
#[derive(Debug)]
pub enum Frame {
    /// A frame that was cut at the length limit.
    Malformed,
    /// The payload of a frame: the line after the prefix.
    Payload(Vec<u8>),
}

/// Splits program output into lines and recognises telemetry frames.
pub struct FrameSplitter {
    line: Vec<u8>,
    oversized: bool,
}

/// Whether `line` begins with the frame prefix.
fn starts_with_prefix(line: &Vec<u8>) -> (r: bool)
    ensures
        r == is_frame(line@),
{
    if line.len() < 10 {
        return false;
    }
    let ok = line[0] == 64u8 && line[1] == 119u8 && line[2] == 111u8 && line[3] == 114u8 && line[4] == 107u8
        && line[5] == 102u8 && line[6] == 108u8 && line[7] == 111u8 && line[8] == 119u8 && line[9] == 32u8;
    proof {
        if ok {
            assert(line@.take(10) =~= frame_prefix());
        } else {
            if line@.take(10) == frame_prefix() {
                assert(line@.take(10)[0] == frame_prefix()[0]);
                assert(line@.take(10)[1] == frame_prefix()[1]);
                assert(line@.take(10)[2] == frame_prefix()[2]);
                assert(line@.take(10)[3] == frame_prefix()[3]);
                assert(line@.take(10)[4] == frame_prefix()[4]);
                assert(line@.take(10)[5] == frame_prefix()[5]);
                assert(line@.take(10)[6] == frame_prefix()[6]);
                assert(line@.take(10)[7] == frame_prefix()[7]);
                assert(line@.take(10)[8] == frame_prefix()[8]);
                assert(line@.take(10)[9] == frame_prefix()[9]);
            }
        }
    }
    ok
}

impl FrameSplitter {
    /// The bytes of the current line kept so far.
    pub closed spec fn line_spec(&self) -> Seq<u8> {
        self.line@
    }

    /// Whether the current line went past the length limit.
    pub closed spec fn oversized_spec(&self) -> bool {
        self.oversized
    }

    /// A line never holds more than the limit.
    #[verifier::type_invariant]
    spec fn bounded(&self) -> bool {
        self.line@.len() <= FRAME_LIMIT
    }

    /// Starts between lines.
    pub fn new() -> (r: Self)
        ensures
            r.line_spec() == Seq::<u8>::empty(),
            !r.oversized_spec(),
    {
        FrameSplitter { line: Vec::new(), oversized: false }
    }

    /// Consumes one output byte. A newline completes the line: a frame
    /// yields its payload, or `Malformed` when it was cut; other lines
    /// yield nothing. Bytes past the limit are dropped and mark the line.
    pub fn push_byte(&mut self, byte: u8) -> (r: Option<Frame>)
        ensures
            final(self).line_spec().len() <= FRAME_LIMIT,
            byte == 10u8 ==> {
                &&& final(self).line_spec() == Seq::<u8>::empty()
                &&& !final(self).oversized_spec()
                &&& !is_frame(old(self).line_spec()) ==> r is None
                &&& is_frame(old(self).line_spec()) && old(self).oversized_spec() ==> (r matches Some(Frame::Malformed))
                &&& is_frame(old(self).line_spec()) && !old(self).oversized_spec()
                    ==> (r matches Some(Frame::Payload(p)) && p@ == old(self).line_spec().skip(10))
            },
            byte != 10u8 ==> {
                &&& r is None
                &&& old(self).line_spec().len() < FRAME_LIMIT ==> final(self).line_spec() == old(self).line_spec().push(byte)
                    && final(self).oversized_spec() == old(self).oversized_spec()
                &&& old(self).line_spec().len() >= FRAME_LIMIT ==> final(self).line_spec() == old(self).line_spec()
                    && final(self).oversized_spec()
            },
    {
        proof {
            use_type_invariant(&*self);
        }
        if byte == 10u8 {
            let frame = starts_with_prefix(&self.line);
            let oversized = self.oversized;
            let mut line: Vec<u8> = Vec::new();
            std::mem::swap(&mut line, &mut self.line);
            self.oversized = false;
            if !frame {
                return None;
            }
            if oversized {
                return Some(Frame::Malformed);
            }
            let mut payload: Vec<u8> = Vec::new();
            let mut i: usize = 10;
            while i < line.len()
                invariant
                    10 <= i <= line@.len(),
                    payload@ == line@.subrange(10, i as int),
                decreases line@.len() - i,
            {
                payload.push(line[i]);
                i = i + 1;
                assert(payload@ =~= line@.subrange(10, i as int));
            }
            assert(payload@ =~= line@.skip(10));
            Some(Frame::Payload(payload))
        } else {
            if self.line.len() < FRAME_LIMIT {
                let mut line: Vec<u8> = Vec::new();
                std::mem::swap(&mut line, &mut self.line);
                line.push(byte);
                self.line = line;
            } else {
                self.oversized = true;
            }
            None
        }
    }

    /// Whether output ended inside an unterminated frame.
    pub fn ends_inside_frame(&self) -> (r: bool)
        ensures
            r == is_frame(self.line_spec()),
    {
        starts_with_prefix(&self.line)
    }
}

/// One field of a decoded frame object.
#[derive(Debug)]
pub enum JsonField {
    /// The field is absent.
    Absent,
    /// The field is `null`.
    Null,
    /// The field is a number representable as `u64`.
    Unsigned(u64),
    /// The field is a string.
    Text(String),
    /// The field holds any other value.
    Other,
}

/// The fields of a frame object that the protocol reads.
#[derive(Debug)]
pub struct FrameFields {
    /// Protocol version.
    pub version: JsonField,
    /// `log` or `progress`.
    pub kind: JsonField,
    /// Log level.
    pub level: JsonField,
    /// Log message.
    pub message: JsonField,
    /// Completed units of progress.
    pub completed: JsonField,
    /// Total units of progress, when known.
    pub total: JsonField,
    /// Progress stage.
    pub stage: JsonField,
    /// Progress unit.
    pub unit: JsonField,
}

/// A decoded telemetry event.
#[derive(Debug)]
pub enum TelemetryEvent {
    /// A log line at one of the accepted levels.
    Log { level: String, message: String },
    /// Progress of one stage.
    Progress { stage: String, completed: u64, total: Option<u64>, unit: String },
}

/// A control character (general category Cc).
pub open spec fn is_control(c: char) -> bool {
    (c as u32) <= 0x1f || (0x7f <= (c as u32) && (c as u32) <= 0x9f)
}

/// The characters of `s` that are not control characters.
pub open spec fn printable(s: Seq<char>) -> Seq<char>
    decreases s.len(),
{
    if s.len() == 0 {
        Seq::empty()
    } else if is_control(s.last()) {
        printable(s.drop_last())
    } else {
        printable(s.drop_last()).push(s.last())
    }
}

/// A text field as kept: its printable characters, at most the limit.
pub open spec fn clean_spec(s: Seq<char>) -> Seq<char> {
    let p = printable(s);
    if p.len() <= TEXT_LIMIT { p } else { p.take(TEXT_LIMIT as int) }
}

/// Printable characters of a prefix are a prefix of the printable
/// characters of the whole.
proof fn lemma_printable_prefix(s: Seq<char>, k: int)
    requires
        0 <= k <= s.len(),
    ensures
        printable(s.take(k)).len() <= printable(s).len(),
        printable(s).take(printable(s.take(k)).len() as int) == printable(s.take(k)),
    decreases s.len() - k,
{
    if k < s.len() {
        lemma_printable_prefix(s, k + 1);
        let t = s.take(k + 1);
        assert(t.drop_last() =~= s.take(k));
        assert(t.last() == s[k]);
        let pk = printable(s.take(k));
        let pk1 = printable(t);
        if !is_control(s[k]) {
            assert(pk1 == pk.push(s[k]));
            assert(pk1.take(pk.len() as int) =~= pk);
            assert(printable(s).take(pk.len() as int) =~= printable(s).take(pk1.len() as int).take(pk.len() as int));
        }
    } else {
        assert(s.take(k) =~= s);
        assert(printable(s).take(printable(s).len() as int) =~= printable(s));
    }
}

/// Whether `c` is a control character.
fn control_char(c: char) -> (r: bool)
    ensures
        r == is_control(c),
{
    let v = c as u32;
    v <= 0x1f || (0x7f <= v && v <= 0x9f)
}

/// Keeps the printable characters of a text field, at most the limit.
pub fn clean_text(value: &str) -> (r: String)
    ensures
        r@ == clean_spec(value@),
{
    let mut out = String::new();
    let mut kept: usize = 0;
    let mut chars = value.chars();
    let ghost mut seen: int = 0;
    let ghost all = value@;
    loop
        invariant
            0 <= seen <= all.len(),
            all == value@,
            vstd::std_specs::iter::IteratorSpec::remaining(&chars) == all.skip(seen),
            vstd::std_specs::iter::IteratorSpec::obeys_prophetic_iter_laws(&chars),
            out@ == printable(all.take(seen)),
            kept as nat == out@.len(),
            kept <= TEXT_LIMIT,
        ensures
            out@ == clean_spec(all),
        decreases all.len() - seen,
    {
        if kept == TEXT_LIMIT {
            proof {
                lemma_printable_prefix(all, seen);
            }
            return out;
        }
        let ghost before = chars;
        match chars.next() {
            None => {
                proof {
                    assert(all.skip(seen).len() == 0);
                    assert(all.take(seen) =~= all);
                }
                break;
            },
            Some(c) => {
                proof {
                    assert(c == all[seen]);
                    assert(all.take(seen + 1).drop_last() =~= all.take(seen));
                    assert(all.take(seen + 1).last() == all[seen]);
                    assert(vstd::std_specs::iter::IteratorSpec::remaining(&chars) =~= all.skip(seen + 1));
                }
                if !control_char(c) {
                    push_char(&mut out, c);
                    kept = kept + 1;
                }
                proof {
                    seen = seen + 1;
                }
            },
        }
    }
    out
}

/// The accepted log levels.
pub open spec fn is_level(level: Seq<char>) -> bool {
    level == "debug"@ || level == "info"@ || level == "warning"@ || level == "error"@ || level == "success"@
}

/// The total of a progress frame: absent and `null` mean unknown; any
/// other value must be an unsigned number.
pub open spec fn total_of(f: JsonField) -> Option<Option<u64>> {
    match f {
        JsonField::Absent => Some(None),
        JsonField::Null => Some(None),
        JsonField::Unsigned(n) => Some(Some(n)),
        _ => None,
    }
}

/// The event a frame object describes, if it is a valid one: version 1;
/// a log at an accepted level with a message; or progress with a completed
/// count not past a known total and a nonblank stage and unit. Texts are
/// cleaned.
pub open spec fn decoded_event(f: FrameFields) -> Option<(u8, Seq<char>, Seq<char>, u64, Option<u64>)> {
    if !(f.version matches JsonField::Unsigned(v) && v == 1) {
        None
    } else {
        match f.kind {
            JsonField::Text(kind) => {
                if kind@ == "log"@ {
                    match (f.level, f.message) {
                        (JsonField::Text(level), JsonField::Text(message)) =>
                            if is_level(level@) {
                                Some((0u8, level@, clean_spec(message@), 0u64, None))
                            } else {
                                None
                            },
                        _ => None,
                    }
                } else if kind@ == "progress"@ {
                    match (f.completed, total_of(f.total), f.stage, f.unit) {
                        (JsonField::Unsigned(completed), Some(total), JsonField::Text(stage), JsonField::Text(unit)) =>
                            if (total matches Some(n) && completed > n) || is_blank(clean_spec(stage@))
                                || is_blank(clean_spec(unit@)) {
                                None
                            } else {
                                Some((1u8, clean_spec(stage@), clean_spec(unit@), completed, total))
                            },
                        _ => None,
                    }
                } else {
                    None
                }
            },
            _ => None,
        }
    }
}

/// The shape of an event, as `decoded_event` gives it.
pub open spec fn event_shape(e: TelemetryEvent) -> (u8, Seq<char>, Seq<char>, u64, Option<u64>) {
    match e {
        TelemetryEvent::Log { level, message } => (0u8, level@, message@, 0u64, None),
        TelemetryEvent::Progress { stage, completed, total, unit } => (1u8, stage@, unit@, completed, total),
    }
}

/// Whether `level` is an accepted log level.
fn accepted_level(level: &str) -> (r: bool)
    ensures
        r == is_level(level@),
{
    same_str(level, "debug") || same_str(level, "info") || same_str(level, "warning") || same_str(level, "error")
        || same_str(level, "success")
}

/// Decodes the fields of a frame object into an event; invalid frames give
/// nothing.
pub fn decode_event(fields: &FrameFields) -> (r: Option<TelemetryEvent>)
    ensures
        r is None <==> decoded_event(*fields) is None,
        r matches Some(e) ==> decoded_event(*fields) == Some(event_shape(e)),
{
    match fields.version {
        JsonField::Unsigned(v) => {
            if v != 1 {
                return None;
            }
        },
        _ => {
            return None;
        },
    }
    let kind = match &fields.kind {
        JsonField::Text(kind) => kind,
        _ => {
            return None;
        },
    };
    if same_str(kind.as_str(), "log") {
        let level = match &fields.level {
            JsonField::Text(level) => level,
            _ => {
                return None;
            },
        };
        let message = match &fields.message {
            JsonField::Text(message) => message,
            _ => {
                return None;
            },
        };
        if !accepted_level(level.as_str()) {
            return None;
        }
        Some(TelemetryEvent::Log { level: level.clone(), message: clean_text(message.as_str()) })
    } else if same_str(kind.as_str(), "progress") {
        let completed = match fields.completed {
            JsonField::Unsigned(c) => c,
            _ => {
                return None;
            },
        };
        let total = match fields.total {
            JsonField::Absent => None,
            JsonField::Null => None,
            JsonField::Unsigned(n) => Some(n),
            _ => {
                return None;
            },
        };
        match total {
            Some(n) => {
                if completed > n {
                    return None;
                }
            },
            None => {},
        }
        let stage = match &fields.stage {
            JsonField::Text(stage) => clean_text(stage.as_str()),
            _ => {
                return None;
            },
        };
        let unit = match &fields.unit {
            JsonField::Text(unit) => clean_text(unit.as_str()),
            _ => {
                return None;
            },
        };
        if is_blank_text(stage.as_str()) || is_blank_text(unit.as_str()) {
            return None;
        }
        Some(TelemetryEvent::Progress { stage, completed, total, unit })
    } else {
        None
    }
}

/// A version-1 log frame with a string level and a string message decodes
/// exactly when its level is one of `debug`, `info`, `warning`, `error` or
/// `success`, and then to a log event at that level carrying the cleaned
/// message.
pub proof fn law_log_frames_decode_at_the_five_levels(f: FrameFields, level: Seq<char>, message: Seq<char>)
    requires
        f.version matches JsonField::Unsigned(v) && v == 1,
        f.kind matches JsonField::Text(k) && k@ == "log"@,
        f.level matches JsonField::Text(l) && l@ == level,
        f.message matches JsonField::Text(m) && m@ == message,
    ensures
        decoded_event(f) is Some <==> (level == "debug"@ || level == "info"@ || level == "warning"@
            || level == "error"@ || level == "success"@),
        decoded_event(f) is Some ==> decoded_event(f) == Some((0u8, level, clean_spec(message), 0u64, None::<u64>)),
{
}

/// A frame of another version than 1, or of a kind other than `log` and
/// `progress`, decodes to nothing. A version-1 progress frame with an
/// unsigned completed count, a string stage and unit, and a total that is
/// absent, `null` or unsigned decodes exactly when the count does not pass
/// a known total and neither cleaned stage nor cleaned unit is blank, and
/// then to that progress.
pub proof fn law_progress_frames_decode_within_their_total(
    f: FrameFields,
    completed: u64,
    total: Option<u64>,
    stage: Seq<char>,
    unit: Seq<char>,
)
    ensures
        !(f.version matches JsonField::Unsigned(v) && v == 1) ==> decoded_event(f) is None,
        (f.kind matches JsonField::Text(k) && k@ != "log"@ && k@ != "progress"@) ==> decoded_event(f) is None,
        ({
            &&& f.version matches JsonField::Unsigned(v) && v == 1
            &&& f.kind matches JsonField::Text(k) && k@ == "progress"@
            &&& f.completed matches JsonField::Unsigned(c) && c == completed
            &&& f.stage matches JsonField::Text(x) && x@ == stage
            &&& f.unit matches JsonField::Text(u) && u@ == unit
            &&& match total {
                None => f.total is Absent || f.total is Null,
                Some(n) => f.total matches JsonField::Unsigned(m) && m == n,
            }
        }) ==> {
            &&& decoded_event(f) is Some <==> (!(total matches Some(n) && completed > n)
                && !is_blank(clean_spec(stage)) && !is_blank(clean_spec(unit)))
            &&& decoded_event(f) is Some ==> decoded_event(f)
                == Some((1u8, clean_spec(stage), clean_spec(unit), completed, total))
        },
{
    reveal_strlit("log");
    reveal_strlit("progress");
    assert("progress"@ != "log"@) by {
        assert("progress"@[0] != "log"@[0]);
    }
}

/// What one field of a frame object holds, with texts as character
/// sequences.
pub enum JsonFieldView {
    /// The field is absent.
    Absent,
    /// The field is `null`.
    Null,
    /// The field is a number representable as `u64`.
    Unsigned(u64),
    /// The field is a string.
    Text(Seq<char>),
    /// The field holds any other value.
    Other,
}

/// The view of one field.
pub open spec fn field_view(f: JsonField) -> JsonFieldView {
    match f {
        JsonField::Absent => JsonFieldView::Absent,
        JsonField::Null => JsonFieldView::Null,
        JsonField::Unsigned(n) => JsonFieldView::Unsigned(n),
        JsonField::Text(s) => JsonFieldView::Text(s@),
        JsonField::Other => JsonFieldView::Other,
    }
}

/// The fields of a frame object that the protocol reads, as views.
pub struct FrameFieldsView {
    pub version: JsonFieldView,
    pub kind: JsonFieldView,
    pub level: JsonFieldView,
    pub message: JsonFieldView,
    pub completed: JsonFieldView,
    pub total: JsonFieldView,
    pub stage: JsonFieldView,
    pub unit: JsonFieldView,
}

/// The view of the fields of a frame object.
pub open spec fn fields_view(f: FrameFields) -> FrameFieldsView {
    FrameFieldsView {
        version: field_view(f.version),
        kind: field_view(f.kind),
        level: field_view(f.level),
        message: field_view(f.message),
        completed: field_view(f.completed),
        total: field_view(f.total),
        stage: field_view(f.stage),
        unit: field_view(f.unit),
    }
}

/// Member `key` of the JSON document `payload`: `None` when the payload is
/// not JSON; a document that is not an object has no members.
pub uninterp spec fn frame_member_of(payload: Seq<u8>, key: Seq<char>) -> Option<JsonFieldView>;

/// The view of an optional field.
pub open spec fn member_view(f: Option<JsonField>) -> Option<JsonFieldView> {
    match f {
        Some(f) => Some(field_view(f)),
        None => None,
    }
}

/// `serde_json::from_slice::<serde_json::Value>` followed by
/// `serde_json::Value::get(key)`: member `key` of the payload, by kind;
/// a number counts as unsigned when `as_u64` gives it. The claim is that the
/// result is the one named by `frame_member_of`, a function of the payload
/// and the key alone.
#[verifier::external_body]
fn frame_member(payload: &[u8], key: &str) -> (r: Option<JsonField>)
    ensures
        member_view(r) == frame_member_of(payload@, key@),
{
    let value: serde_json::Value = serde_json::from_slice(payload).ok()?;
    Some(match value.get(key) {
        None => JsonField::Absent,
        Some(serde_json::Value::Null) => JsonField::Null,
        Some(serde_json::Value::String(text)) => JsonField::Text(text.clone()),
        Some(other) => other.as_u64().map_or(JsonField::Other, JsonField::Unsigned),
    })
}

/// The fields of the frame payload `payload` that the protocol reads, or
/// `None` when it is not JSON.
pub open spec fn frame_fields_of(payload: Seq<u8>) -> Option<FrameFieldsView> {
    let m = |k: Seq<char>| frame_member_of(payload, k);
    if m("version"@) is None || m("kind"@) is None || m("level"@) is None || m("message"@) is None
        || m("completed"@) is None || m("total"@) is None || m("stage"@) is None || m("unit"@) is None {
        None
    } else {
        Some(FrameFieldsView {
            version: m("version"@)->0,
            kind: m("kind"@)->0,
            level: m("level"@)->0,
            message: m("message"@)->0,
            completed: m("completed"@)->0,
            total: m("total"@)->0,
            stage: m("stage"@)->0,
            unit: m("unit"@)->0,
        })
    }
}

/// The event a frame payload describes, if it is JSON and a valid frame.
pub open spec fn frame_event(payload: Seq<u8>) -> Option<(u8, Seq<char>, Seq<char>, u64, Option<u64>)> {
    match frame_fields_of(payload) {
        None => None,
        Some(fv) => decoded_view(fv),
    }
}

/// `decoded_event` over views.
pub open spec fn decoded_view(f: FrameFieldsView) -> Option<(u8, Seq<char>, Seq<char>, u64, Option<u64>)> {
    if !(f.version matches JsonFieldView::Unsigned(v) && v == 1) {
        None
    } else {
        match f.kind {
            JsonFieldView::Text(kind) => {
                if kind == "log"@ {
                    match (f.level, f.message) {
                        (JsonFieldView::Text(level), JsonFieldView::Text(message)) =>
                            if is_level(level) {
                                Some((0u8, level, clean_spec(message), 0u64, None))
                            } else {
                                None
                            },
                        _ => None,
                    }
                } else if kind == "progress"@ {
                    let total = match f.total {
                        JsonFieldView::Absent => Some(None),
                        JsonFieldView::Null => Some(None),
                        JsonFieldView::Unsigned(n) => Some(Some(n)),
                        _ => None,
                    };
                    match (f.completed, total, f.stage, f.unit) {
                        (JsonFieldView::Unsigned(completed), Some(total), JsonFieldView::Text(stage), JsonFieldView::Text(unit)) =>
                            if (total matches Some(n) && completed > n) || is_blank(clean_spec(stage))
                                || is_blank(clean_spec(unit)) {
                                None
                            } else {
                                Some((1u8, clean_spec(stage), clean_spec(unit), completed, total))
                            },
                        _ => None,
                    }
                } else {
                    None
                }
            },
            _ => None,
        }
    }
}

/// A version-1 log payload with a string level and a string message
/// parses exactly when its level is one of `debug`, `info`, `warning`,
/// `error` or `success`, and then to a log event at that level carrying
/// the cleaned message.
pub proof fn law_log_payloads_parse_at_the_five_levels(f: FrameFieldsView, level: Seq<char>, message: Seq<char>)
    requires
        f.version == JsonFieldView::Unsigned(1),
        f.kind == JsonFieldView::Text("log"@),
        f.level == JsonFieldView::Text(level),
        f.message == JsonFieldView::Text(message),
    ensures
        decoded_view(f) is Some <==> (level == "debug"@ || level == "info"@ || level == "warning"@
            || level == "error"@ || level == "success"@),
        decoded_view(f) is Some ==> decoded_view(f) == Some((0u8, level, clean_spec(message), 0u64, None::<u64>)),
{
}

/// A payload of another version than 1, or of a kind other than `log`
/// and `progress`, parses to nothing. A version-1 progress payload with an
/// unsigned completed count, a string stage and unit, and a total that is
/// absent, `null` or unsigned parses exactly when the count does not pass
/// a known total and neither cleaned stage nor cleaned unit is blank, and
/// then to that progress.
pub proof fn law_progress_payloads_parse_within_their_total(
    f: FrameFieldsView,
    completed: u64,
    total: Option<u64>,
    stage: Seq<char>,
    unit: Seq<char>,
)
    ensures
        !(f.version matches JsonFieldView::Unsigned(v) && v == 1) ==> decoded_view(f) is None,
        (f.kind matches JsonFieldView::Text(k) && k != "log"@ && k != "progress"@) ==> decoded_view(f) is None,
        ({
            &&& f.version == JsonFieldView::Unsigned(1)
            &&& f.kind == JsonFieldView::Text("progress"@)
            &&& f.completed == JsonFieldView::Unsigned(completed)
            &&& f.stage == JsonFieldView::Text(stage)
            &&& f.unit == JsonFieldView::Text(unit)
            &&& match total {
                None => f.total == JsonFieldView::Absent || f.total == JsonFieldView::Null,
                Some(n) => f.total == JsonFieldView::Unsigned(n),
            }
        }) ==> {
            &&& decoded_view(f) is Some <==> (!(total matches Some(n) && completed > n)
                && !is_blank(clean_spec(stage)) && !is_blank(clean_spec(unit)))
            &&& decoded_view(f) is Some ==> decoded_view(f)
                == Some((1u8, clean_spec(stage), clean_spec(unit), completed, total))
        },
{
    reveal_strlit("log");
    reveal_strlit("progress");
    assert("progress"@ != "log"@) by {
        assert("progress"@[0] != "log"@[0]);
    }
}

/// Decoding reads the fields only through their views.
proof fn lemma_decoded_view(f: FrameFields)
    ensures
        decoded_event(f) == decoded_view(fields_view(f)),
{
}

/// Parses one frame payload and decodes the event it describes; a payload
/// that is not JSON, or not a valid frame, gives nothing.
pub fn parse_frame(payload: &[u8]) -> (r: Option<TelemetryEvent>)
    ensures
        r is None <==> frame_event(payload@) is None,
        r matches Some(e) ==> frame_event(payload@) == Some(event_shape(e)),
{
    let version = match frame_member(payload, "version") { Some(f) => f, None => { return None; } };
    let kind = match frame_member(payload, "kind") { Some(f) => f, None => { return None; } };
    let level = match frame_member(payload, "level") { Some(f) => f, None => { return None; } };
    let message = match frame_member(payload, "message") { Some(f) => f, None => { return None; } };
    let completed = match frame_member(payload, "completed") { Some(f) => f, None => { return None; } };
    let total = match frame_member(payload, "total") { Some(f) => f, None => { return None; } };
    let stage = match frame_member(payload, "stage") { Some(f) => f, None => { return None; } };
    let unit = match frame_member(payload, "unit") { Some(f) => f, None => { return None; } };
    let fields = FrameFields { version, kind, level, message, completed, total, stage, unit };
    proof {
        reveal_strlit("version");
        reveal_strlit("kind");
        reveal_strlit("level");
        reveal_strlit("message");
        reveal_strlit("completed");
        reveal_strlit("total");
        reveal_strlit("stage");
        reveal_strlit("unit");
        assert(frame_fields_of(payload@) == Some(fields_view(fields)));
        lemma_decoded_view(fields);
    }
    decode_event(&fields)
}

/// The warning shown for a malformed, oversized, or unsupported frame.
pub fn malformed_warning() -> (r: &'static str)
    ensures
        r@ == "malformed, oversized, or unsupported Workflow event; original bytes retained in stderr.log"@,
{
    "malformed, oversized, or unsupported Workflow event; original bytes retained in stderr.log"
}

/// What a program's telemetry has shown so far: how many warnings, and the
/// latest progress not yet published.
pub struct TelemetryMonitor {
    warnings: u64,
    pending: Option<TelemetryEvent>,
}

impl TelemetryMonitor {
    /// Warnings shown so far.
    pub closed spec fn warnings_spec(&self) -> u64 {
        self.warnings
    }

    /// The progress event held back, if any.
    pub closed spec fn pending_spec(&self) -> Option<TelemetryEvent> {
        self.pending
    }

    /// Warnings never exceed the limit.
    #[verifier::type_invariant]
    spec fn bounded(&self) -> bool {
        self.warnings <= MAX_WARNINGS
    }

    /// Starts with nothing shown.
    pub fn new() -> (r: Self)
        ensures
            r.warnings_spec() == 0,
            r.pending_spec() is None,
    {
        TelemetryMonitor { warnings: 0, pending: None }
    }

    /// Records a malformed frame: returns whether to show the warning,
    /// which happens for the first few only.
    pub fn malformed(&mut self) -> (show: bool)
        ensures
            show == (old(self).warnings_spec() < MAX_WARNINGS),
            final(self).warnings_spec() == if show { old(self).warnings_spec() + 1 } else { old(self).warnings_spec() as int },
            final(self).warnings_spec() <= MAX_WARNINGS,
            final(self).pending_spec() == old(self).pending_spec(),
    {
        proof {
            use_type_invariant(&*self);
        }
        if self.warnings < MAX_WARNINGS {
            self.warnings = self.warnings + 1;
            true
        } else {
            false
        }
    }

    /// Records a progress event, `since_publish_ns` after the last published
    /// one (`None` before the first): it is published now when the interval
    /// has passed, and otherwise held back, replacing any held event.
    pub fn progress(&mut self, event: TelemetryEvent, since_publish_ns: Option<u128>) -> (r: Option<TelemetryEvent>)
        ensures
            final(self).warnings_spec() == old(self).warnings_spec(),
            ({
                let due = since_publish_ns matches Some(ns) ==> ns >= PROGRESS_INTERVAL_NS;
                &&& due ==> r == Some(event) && final(self).pending_spec() is None
                &&& !due ==> r is None && final(self).pending_spec() == Some(event)
            }),
    {
        proof {
            use_type_invariant(&*self);
        }
        let due = match since_publish_ns {
            Some(ns) => ns >= PROGRESS_INTERVAL_NS,
            None => true,
        };
        if due {
            self.pending = None;
            Some(event)
        } else {
            self.pending = Some(event);
            None
        }
    }

    /// At the end of output: the held-back progress event, published last.
    pub fn finish(self) -> (r: Option<TelemetryEvent>)
        ensures
            r == self.pending_spec(),
    {
        self.pending
    }
}

/// The control document handed to a cooperative program.
pub open spec fn control_spec(paused: bool, cancelled: bool) -> Seq<char> {
    "{\"paused\":"@ + (if paused { "true"@ } else { "false"@ }) + ",\"cancelled\":"@
        + (if cancelled { "true"@ } else { "false"@ }) + "}"@
}

/// Renders the control document.
pub fn control_document(paused: bool, cancelled: bool) -> (r: String)
    ensures
        r@ == control_spec(paused, cancelled),
{
    let mut out = String::new();
    out.append("{\"paused\":");
    out.append(if paused { "true" } else { "false" });
    out.append(",\"cancelled\":");
    out.append(if cancelled { "true" } else { "false" });
    out.append("}");
    assert(out@ =~= control_spec(paused, cancelled));
    out
}

/// Environment variables that pin numeric libraries to one thread in a
/// cooperative program.
pub fn single_thread_variables() -> (r: Vec<&'static str>)
    ensures
        r@.len() == 5,
        r@[0]@ == "OMP_NUM_THREADS"@,
        r@[1]@ == "OPENBLAS_NUM_THREADS"@,
        r@[2]@ == "MKL_NUM_THREADS"@,
        r@[3]@ == "NUMEXPR_NUM_THREADS"@,
        r@[4]@ == "VECLIB_MAXIMUM_THREADS"@,
{
    let mut v: Vec<&'static str> = Vec::new();
    v.push("OMP_NUM_THREADS");
    v.push("OPENBLAS_NUM_THREADS");
    v.push("MKL_NUM_THREADS");
    v.push("NUMEXPR_NUM_THREADS");
    v.push("VECLIB_MAXIMUM_THREADS");
    v
}

/// What the supervisor does on one poll of a running program.
#[derive(Debug, PartialEq, Eq, Structural)]
pub enum SupervisorStep {
    /// Stop the program; a cooperative one is first told it is cancelled.
    Stop { notify: bool },
    /// Give up: reading the program's output failed.
    Fail,
    /// Keep the program running; rewrite the control document when the
    /// pause state changed, and hold the worker parked while a
    /// cooperative program acknowledges a pause.
    Poll { write_control: bool, parked: bool },
}

/// Decides one poll: cancellation first, then an output failure, then the
/// pause protocol of cooperative programs.
pub fn supervise(cancelled: bool, output_failed: bool, cooperative: bool, paused: bool, last_pause: bool, acknowledged: bool)
    -> (r: SupervisorStep)
    ensures
        r == (if cancelled {
            SupervisorStep::Stop { notify: cooperative }
        } else if output_failed {
            SupervisorStep::Fail
        } else if cooperative {
            SupervisorStep::Poll { write_control: paused != last_pause, parked: paused && acknowledged }
        } else {
            SupervisorStep::Poll { write_control: false, parked: false }
        }),
{
    if cancelled {
        SupervisorStep::Stop { notify: cooperative }
    } else if output_failed {
        SupervisorStep::Fail
    } else if cooperative {
        SupervisorStep::Poll { write_control: paused != last_pause, parked: paused && acknowledged }
    } else {
        SupervisorStep::Poll { write_control: false, parked: false }
    }
}

/// How a supervised program ended.
#[derive(Debug)]
pub enum ProgramExit {
    /// It exited on its own.
    Exited { success: bool, code: Option<i32>, status: String },
    /// The supervisor stopped it after cancellation.
    Cancelled,
    /// Waiting for it failed.
    WaitFailed { reason: String },
}

/// What is recorded of a finished program.
#[derive(Debug)]
pub enum ProgramRecord {
    /// It completed with this exit code.
    Complete { code: Option<i32> },
    /// It failed for this reason.
    Failed { code: Option<i32>, reason: String },
}

/// The recorded outcome of a program and the error, if any, the task
/// reports.
#[derive(Debug)]
pub struct ProgramConclusion {
    /// What is recorded.
    pub record: ProgramRecord,
    /// The task's error message, if the task fails.
    pub error: Option<String>,
}

/// The reason recorded for an unsuccessful exit.
pub open spec fn exit_reason(status: Seq<char>, logs: Seq<char>) -> Seq<char> {
    "program exited with "@ + status + "; logs beside "@ + logs
}

/// The record is a failure with this code and reason.
pub open spec fn failed_with(rec: ProgramRecord, code: Option<i32>, reason: Seq<char>) -> bool {
    match rec {
        ProgramRecord::Failed { code: c, reason: r } => c == code && r@ == reason,
        _ => false,
    }
}

/// The task fails with this message.
pub open spec fn error_is(e: Option<String>, text: Seq<char>) -> bool {
    match e {
        Some(m) => m@ == text,
        None => false,
    }
}

/// Concludes a supervised program: a panicked output reader, then an
/// output failure, take precedence over how the program itself ended.
/// A cancelled program is recorded as failed without failing the task.
pub fn conclude_program(readers_panicked: bool, output_failure: Option<String>, exit: ProgramExit, logs: &str)
    -> (r: ProgramConclusion)
    ensures
        readers_panicked ==> failed_with(r.record, None, "program pipe reader panicked"@)
            && error_is(r.error, "program pipe reader panicked"@),
        !readers_panicked && output_failure is Some ==> failed_with(r.record, None, output_failure->0@)
            && error_is(r.error, output_failure->0@),
        !readers_panicked && output_failure is None ==> match exit {
            ProgramExit::Exited { success, code, status } =>
                if success {
                    r.record == (ProgramRecord::Complete { code }) && r.error is None
                } else {
                    failed_with(r.record, code, exit_reason(status@, logs@)) && error_is(r.error, exit_reason(status@, logs@))
                },
            ProgramExit::Cancelled => failed_with(r.record, None, "runtime cancellation requested"@) && r.error is None,
            ProgramExit::WaitFailed { reason } => failed_with(r.record, None, reason@) && error_is(r.error, reason@),
        },
{
    if readers_panicked {
        let reason = "program pipe reader panicked".to_owned();
        let error = reason.clone();
        return ProgramConclusion { record: ProgramRecord::Failed { code: None, reason }, error: Some(error) };
    }
    match output_failure {
        Some(reason) => {
            let error = reason.clone();
            return ProgramConclusion { record: ProgramRecord::Failed { code: None, reason }, error: Some(error) };
        },
        None => {},
    }
    match exit {
        ProgramExit::Exited { success, code, status } => {
            if success {
                ProgramConclusion { record: ProgramRecord::Complete { code }, error: None }
            } else {
                let mut reason = "program exited with ".to_owned();
                reason.append(status.as_str());
                reason.append("; logs beside ");
                reason.append(logs);
                let error = reason.clone();
                ProgramConclusion { record: ProgramRecord::Failed { code, reason }, error: Some(error) }
            }
        },
        ProgramExit::Cancelled => {
            let reason = "runtime cancellation requested".to_owned();
            ProgramConclusion { record: ProgramRecord::Failed { code: None, reason }, error: None }
        },
        ProgramExit::WaitFailed { reason } => {
            let error = reason.clone();
            ProgramConclusion { record: ProgramRecord::Failed { code: None, reason }, error: Some(error) }
        },
    }
}

} // verus!
