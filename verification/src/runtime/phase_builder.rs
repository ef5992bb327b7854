//! Declaration of first-class phases: their tasks, the display label of
//! each task, and the validation that makes a phase immutable.
use vstd::prelude::*;
use vstd::string::{StringExecFns, StringSliceAdditionalSpecFns};
use vstd::utf8::encode_utf8;
use crate::digest::{sha256, sha256_of, hex_spec, lowercase_hex};
use crate::text::{decimal_spec, append_decimal, string_views, is_blank, is_blank_text};
use super::phase::{PhaseId, TaskId, TaskKey, TaskDisplayKind, PhaseFailurePolicy};
use crate::reporting::error::ReportingError;

verus! {

/// One parameter value, carried as its compact JSON text. Two values are
/// equal exactly when their compact texts are.
#[derive(Debug)]
pub enum ParameterValue {
    /// A string, number, boolean, or null.
    Scalar { json: String },
    /// An array of `len` elements.
    Array { len: usize, json: String },
    /// An object of `len` members.
    Object { len: usize, json: String },
}

/// The compact JSON text of a value.
pub open spec fn value_json(v: ParameterValue) -> Seq<char> {
    match v {
        ParameterValue::Scalar { json } => json@,
        ParameterValue::Array { json, .. } => json@,
        ParameterValue::Object { json, .. } => json@,
    }
}

/// The first four digest bytes of a JSON text, as eight hexadecimal digits.
pub open spec fn short_hash_spec(json: Seq<char>) -> Seq<char> {
    hex_spec(sha256_of(encode_utf8(json)).take(4))
}

/// How a value appears in a label: scalars as their JSON text; arrays and
/// objects by their size and a short digest of their text.
pub open spec fn compact_spec(v: ParameterValue) -> Seq<char> {
    match v {
        ParameterValue::Scalar { json } => json@,
        ParameterValue::Array { len, json } =>
            "<array:"@ + decimal_spec(len as nat) + ":"@ + short_hash_spec(json@) + ">"@,
        ParameterValue::Object { len, json } =>
            "<object:"@ + decimal_spec(len as nat) + ":"@ + short_hash_spec(json@) + ">"@,
    }
}

impl ParameterValue {
    /// The variant, size, and JSON text of a value.
    pub open spec fn shape(self) -> (u8, usize, Seq<char>) {
        match self {
            ParameterValue::Scalar { json } => (0u8, 0usize, json@),
            ParameterValue::Array { len, json } => (1u8, len, json@),
            ParameterValue::Object { len, json } => (2u8, len, json@),
        }
    }

    /// Whether two values are equal.
    pub fn same_value(&self, other: &ParameterValue) -> (r: bool)
        ensures
            r == (value_json(*self) == value_json(*other)),
    {
        let a = match self {
            ParameterValue::Scalar { json } => json,
            ParameterValue::Array { json, .. } => json,
            ParameterValue::Object { json, .. } => json,
        };
        let b = match other {
            ParameterValue::Scalar { json } => json,
            ParameterValue::Array { json, .. } => json,
            ParameterValue::Object { json, .. } => json,
        };
        *a == *b
    }
}

impl Clone for ParameterValue {
    fn clone(&self) -> (r: Self)
        ensures
            r.shape() == self.shape(),
    {
        match self {
            ParameterValue::Scalar { json } => ParameterValue::Scalar { json: json.clone() },
            ParameterValue::Array { len, json } => ParameterValue::Array { len: *len, json: json.clone() },
            ParameterValue::Object { len, json } => ParameterValue::Object { len: *len, json: json.clone() },
        }
    }
}

/// The keys and value shapes of a parameter list.
pub open spec fn params_shape(params: Seq<(String, ParameterValue)>) -> Seq<(Seq<char>, (u8, usize, Seq<char>))> {
    params.map_values(|p: (String, ParameterValue)| (p.0@, p.1.shape()))
}

/// Copies a parameter list.
pub fn copy_parameters(params: &[(String, ParameterValue)]) -> (r: Vec<(String, ParameterValue)>)
    ensures
        params_shape(r@) == params_shape(params@),
{
    let mut out: Vec<(String, ParameterValue)> = Vec::new();
    let mut i: usize = 0;
    while i < params.len()
        invariant
            i <= params@.len(),
            out@.len() == i,
            forall|k: int| 0 <= k < i ==> (#[trigger] out@[k]).0@ == params@[k].0@ && out@[k].1.shape() == params@[k].1.shape(),
        decreases params@.len() - i,
    {
        let key = params[i].0.clone();
        let value = params[i].1.clone();
        out.push((key, value));
        i = i + 1;
    }
    assert(params_shape(out@) =~= params_shape(params@));
    out
}

/// Appends the short digest of `json`.
fn append_short_hash(out: &mut String, json: &String)
    ensures
        final(out)@ == old(out)@ + short_hash_spec(json@),
{
    let digest = sha256(json.as_str().as_bytes());
    let mut first: Vec<u8> = Vec::new();
    first.push(digest[0]);
    first.push(digest[1]);
    first.push(digest[2]);
    first.push(digest[3]);
    assert(first@ =~= digest@.take(4));
    out.append(lowercase_hex(first.as_slice()).as_str());
}

/// Appends how `value` appears in a label.
pub fn append_compact_value(out: &mut String, value: &ParameterValue)
    ensures
        final(out)@ == old(out)@ + compact_spec(*value),
{
    match value {
        ParameterValue::Scalar { json } => {
            out.append(json.as_str());
        },
        ParameterValue::Array { len, json } => {
            out.append("<array:");
            append_decimal(out, *len as u64);
            out.append(":");
            append_short_hash(out, json);
            out.append(">");
            assert(out@ =~= old(out)@ + compact_spec(*value));
        },
        ParameterValue::Object { len, json } => {
            out.append("<object:");
            append_decimal(out, *len as u64);
            out.append(":");
            append_short_hash(out, json);
            out.append(">");
            assert(out@ =~= old(out)@ + compact_spec(*value));
        },
    }
}

/// Parts joined by single spaces.
pub open spec fn joined(parts: Seq<Seq<char>>) -> Seq<char>
    decreases parts.len(),
{
    if parts.len() == 0 {
        Seq::empty()
    } else if parts.len() == 1 {
        parts[0]
    } else {
        joined(parts.drop_last()) + " "@ + parts.last()
    }
}

/// The value of `key` among `params`: the first entry with that key.
#[verifier::opaque]
pub open spec fn param_of(params: Seq<(String, ParameterValue)>, key: Seq<char>) -> Option<ParameterValue> {
    if exists|i: int| 0 <= i < params.len() && #[trigger] params[i].0@ == key {
        Some(params[choose|i: int| 0 <= i < params.len() && #[trigger] params[i].0@ == key
            && forall|k: int| 0 <= k < i ==> #[trigger] params[k].0@ != key].1)
    } else {
        None
    }
}

/// The label part for `key`: `key=value`.
pub open spec fn label_part(params: Seq<(String, ParameterValue)>, key: Seq<char>) -> Seq<char> {
    key + "="@ + compact_spec(param_of(params, key)->0)
}

/// The label parts of `keys`, in order.
pub open spec fn label_parts(params: Seq<(String, ParameterValue)>, keys: Seq<Seq<char>>) -> Seq<Seq<char>> {
    keys.map_values(|k: Seq<char>| label_part(params, k))
}

/// Joining one more part.
proof fn lemma_joined_push(parts: Seq<Seq<char>>, x: Seq<char>)
    ensures
        joined(parts.push(x)) == if parts.len() == 0 { x } else { joined(parts) + " "@ + x },
{
    assert(parts.push(x).drop_last() =~= parts);
}

/// The display label of a task of `kind`, showing the parameters `keys` and,
/// when asked, its ID.
pub open spec fn label_spec(kind: Seq<char>, params: Seq<(String, ParameterValue)>, keys: Seq<Seq<char>>, id: Seq<char>, include_id: bool) -> Seq<char> {
    let parts = label_parts(params, keys)
        + if include_id { seq!["id="@ + id] } else { Seq::empty() };
    if parts.len() == 0 {
        kind
    } else {
        kind + " "@ + joined(parts)
    }
}

/// The value of `key` among `params`.
pub fn find_param<'a>(params: &'a Vec<(String, ParameterValue)>, key: &str) -> (r: Option<&'a ParameterValue>)
    ensures
        r is Some <==> param_of(params@, key@) is Some,
        r matches Some(v) ==> *v == param_of(params@, key@)->0,
{
    proof {
        reveal(param_of);
    }
    let wanted = key.to_owned();
    let mut i: usize = 0;
    while i < params.len()
        invariant
            i <= params@.len(),
            wanted@ == key@,
            forall|k: int| 0 <= k < i ==> #[trigger] params@[k].0@ != key@,
        decreases params@.len() - i,
    {
        if params[i].0 == wanted {
            proof {
                reveal(param_of);
                let w = choose|w: int| 0 <= w < params@.len() && #[trigger] params@[w].0@ == key@
                    && forall|k: int| 0 <= k < w ==> #[trigger] params@[k].0@ != key@;
                if w < i {
                } else if w > i {
                    assert(params@[i as int].0@ == key@);
                }
            }
            return Some(&params[i].1);
        }
        i = i + 1;
    }
    proof {
        reveal(param_of);
    }
    None
}

/// Renders the display label of a task of `kind` with parameters `params`
/// and ID `id`, showing `keys` and, when asked, the ID.
pub fn render_label(kind: &str, params: &Vec<(String, ParameterValue)>, keys: &Vec<String>, id: &str, include_id: bool)
    -> (r: String)
    requires
        forall|k: int| 0 <= k < keys@.len() ==> param_of(params@, #[trigger] keys@[k]@) is Some,
    ensures
        r@ == label_spec(kind@, params@, string_views(keys@), id@, include_id),
{
    let ghost ks = string_views(keys@);
    let ghost base = label_parts(params@, ks);
    let mut body = String::new();
    let mut i: usize = 0;
    while i < keys.len()
        invariant
            i <= keys@.len(),
            ks == string_views(keys@),
            base == label_parts(params@, ks),
            body@ == joined(base.take(i as int)),
            forall|k: int| 0 <= k < keys@.len() ==> param_of(params@, #[trigger] keys@[k]@) is Some,
        decreases keys@.len() - i,
    {
        let ghost prefix = base.take(i as int);
        let ghost part = label_part(params@, ks[i as int]);
        proof {
            assert(base.take(i as int + 1) =~= prefix.push(part));
            lemma_joined_push(prefix, part);
        }
        if i > 0 {
            body.append(" ");
        }
        let key = &keys[i];
        body.append(key.as_str());
        body.append("=");
        let value = match find_param(params, key.as_str()) {
            Some(v) => v,
            None => vstd::pervasive::unreached(),
        };
        append_compact_value(&mut body, value);
        assert(body@ =~= joined(base.take(i as int + 1)));
        i = i + 1;
    }
    proof {
        assert(base.take(keys@.len() as int) =~= base);
    }
    let ghost parts = base + if include_id { seq!["id="@ + id@] } else { Seq::<Seq<char>>::empty() };
    if include_id {
        proof {
            assert(parts =~= base.push("id="@ + id@));
            lemma_joined_push(base, "id="@ + id@);
        }
        if keys.len() > 0 {
            body.append(" ");
        }
        body.append("id=");
        body.append(id);
        assert(body@ =~= joined(parts));
    } else {
        assert(parts =~= base);
    }
    if keys.len() == 0 && !include_id {
        return kind.to_owned();
    }
    let mut label = kind.to_owned();
    label.append(" ");
    label.append(body.as_str());
    label
}

/// The ID of the task for configuration `ordinal` of `kind`: `kind:ordinal`.
pub open spec fn task_id_spec(kind: Seq<char>, ordinal: u64) -> Seq<char> {
    kind + ":"@ + decimal_spec(ordinal as nat)
}

/// The ID of the task for configuration `ordinal` of `kind`.
pub fn task_id_text(kind: &str, ordinal: u64) -> (r: String)
    ensures
        r@ == task_id_spec(kind@, ordinal),
{
    let mut id = kind.to_owned();
    id.append(":");
    append_decimal(&mut id, ordinal);
    id
}

/// The parameter keys of a task, in order.
pub open spec fn param_keys(params: Seq<(String, ParameterValue)>) -> Seq<Seq<char>> {
    params.map_values(|p: (String, ParameterValue)| p.0@)
}

/// No parameter key appears twice.
pub open spec fn keys_distinct(params: Seq<(String, ParameterValue)>) -> bool {
    forall|i: int, j: int| 0 <= i < j < params.len() ==> (#[trigger] params[i]).0@ != (#[trigger] params[j]).0@
}

/// First-class immutable task declaration owned by exactly one phase.
#[derive(Debug)]
pub struct Task {
    key: TaskKey,
    kind: String,
    display_kind: TaskDisplayKind,
    configuration_ordinal: u64,
    parameters: Vec<(String, ParameterValue)>,
    label: String,
    display_keys: Option<Vec<String>>,
    reused: bool,
}

impl Task {
    /// Owning phase number.
    pub closed spec fn phase_spec(&self) -> u64 { self.key.phase_spec().value() }
    /// Phase-local ID.
    pub closed spec fn id_spec(&self) -> Seq<char> { self.key.task_spec() }
    /// Kind.
    pub closed spec fn kind_spec(&self) -> Seq<char> { self.kind@ }
    /// Display kind.
    pub closed spec fn display_kind_spec(&self) -> TaskDisplayKind { self.display_kind }
    /// Configuration ordinal.
    pub closed spec fn ordinal_spec(&self) -> u64 { self.configuration_ordinal }
    /// Parameters in key order.
    pub closed spec fn params_spec(&self) -> Seq<(String, ParameterValue)> { self.parameters@ }
    /// Display label.
    pub closed spec fn label_text(&self) -> Seq<char> { self.label@ }
    /// Keys shown in the label, once generated.
    pub closed spec fn display_keys_spec(&self) -> Option<Seq<Seq<char>>> {
        match self.display_keys {
            Some(keys) => Some(string_views(keys@)),
            None => None,
        }
    }
    /// Whether the task was already completed by verified reuse.
    pub closed spec fn reused_spec(&self) -> bool { self.reused }

    /// The key text `phase/id`.
    pub open spec fn key_text(&self) -> Seq<char> {
        super::phase::task_key_text(self.phase_spec(), self.id_spec())
    }

    /// Returns the phase-local task ID text.
    pub fn id(&self) -> (r: &str)
        ensures r@ == self.id_spec(),
    {
        self.key.task_id().as_str()
    }

    /// Returns the exact phase-qualified task key.
    pub fn key(&self) -> (r: &TaskKey)
        ensures
            r.phase_spec().value() == self.phase_spec(),
            r.task_spec() == self.id_spec(),
    {
        &self.key
    }

    /// Returns the task kind.
    pub fn kind(&self) -> (r: &str)
        ensures r@ == self.kind_spec(),
    {
        self.kind.as_str()
    }

    /// Returns the generated display label.
    pub fn label(&self) -> (r: &str)
        ensures r@ == self.label_text(),
    {
        self.label.as_str()
    }

    /// Returns whether the task renders iterative progress or activity status.
    pub fn display_kind(&self) -> (r: TaskDisplayKind)
        ensures r == self.display_kind_spec(),
    {
        self.display_kind
    }

    /// Returns the originating configuration ordinal.
    pub fn configuration_ordinal(&self) -> (r: u64)
        ensures r == self.ordinal_spec(),
    {
        self.configuration_ordinal
    }

    /// Borrows one parameter by exact key.
    pub fn value(&self, key: &str) -> (r: Option<&ParameterValue>)
        ensures
            r is Some <==> param_of(self.params_spec(), key@) is Some,
            r matches Some(v) ==> *v == param_of(self.params_spec(), key@)->0,
    {
        find_param(&self.parameters, key)
    }

    /// Borrows one required parameter; a missing one is reported with the
    /// task key.
    pub fn require_value(&self, key: &str) -> (r: Result<&ParameterValue, crate::reporting::error::ReportingError>)
        ensures
            r is Ok <==> param_of(self.params_spec(), key@) is Some,
            r matches Ok(v) ==> *v == param_of(self.params_spec(), key@)->0,
            r matches Err(e) ==> (e matches crate::reporting::error::ReportingError::UnknownManagedTaskParameter { task, key: k }
                && task@ == self.key_text() && k@ == key@),
    {
        match find_param(&self.parameters, key) {
            Some(v) => Ok(v),
            None => Err(crate::reporting::error::ReportingError::UnknownManagedTaskParameter {
                task: self.key.to_text(),
                key: key.to_owned(),
            }),
        }
    }

    /// Borrows the parameters in key order.
    pub fn parameters(&self) -> (r: &[(String, ParameterValue)])
        ensures r@ == self.params_spec(),
    {
        self.parameters.as_slice()
    }

    /// Borrows the keys used to generate the current label.
    pub fn display_keys(&self) -> (r: Option<&[String]>)
        ensures
            r is Some <==> self.display_keys_spec() is Some,
            r matches Some(keys) ==> string_views(keys@) == self.display_keys_spec()->0,
    {
        match &self.display_keys {
            Some(keys) => Some(keys.as_slice()),
            None => None,
        }
    }

    /// Whether the task is of `kind`.
    pub(crate) fn is_of_kind(&self, kind: &String) -> (r: bool)
        ensures r == (self.kind_spec() == kind@),
    {
        self.kind == *kind
    }

    /// Whether verified reuse already completed the task.
    pub fn is_reused(&self) -> (r: bool)
        ensures r == self.reused_spec(),
    {
        self.reused
    }
}

/// The positions of the tasks of `kind`, in order.
pub open spec fn positions_of(tasks: Seq<Task>, kind: Seq<char>) -> Seq<usize> {
    Seq::new(tasks.len(), |i: int| i as usize).filter(|i: usize| tasks[i as int].kind_spec() == kind)
}

/// The set of parameter keys of a task.
pub open spec fn key_set(t: Task) -> Set<Seq<char>> {
    param_keys(t.params_spec()).to_set()
}

/// The JSON text of the value of `key` in task `t`, if it has one.
pub open spec fn value_text(t: Task, key: Seq<char>) -> Option<Seq<char>> {
    match param_of(t.params_spec(), key) {
        Some(v) => Some(value_json(v)),
        None => None,
    }
}

/// Every task at the positions `ps` has the parameter keys of the first.
pub open spec fn keys_consistent(tasks: Seq<Task>, ps: Seq<usize>) -> bool {
    forall|k: int| 0 < k < ps.len() ==> #[trigger] key_set(tasks[ps[k] as int]) == key_set(tasks[ps[0] as int])
}

/// `key` takes more than one value among the tasks at `ps`.
pub open spec fn varies(tasks: Seq<Task>, ps: Seq<usize>, key: Seq<char>) -> bool {
    exists|k: int| 1 <= k < ps.len() && #[trigger] value_text(tasks[ps[k] as int], key) != value_text(tasks[ps[0] as int], key)
}

/// The keys of the first task whose values vary among the tasks at `ps`,
/// in the first task's key order.
pub open spec fn varying_keys_spec(tasks: Seq<Task>, ps: Seq<usize>) -> Seq<Seq<char>> {
    if ps.len() == 0 {
        Seq::empty()
    } else {
        param_keys(tasks[ps[0] as int].params_spec()).filter(|key: Seq<char>| varies(tasks, ps, key))
    }
}

/// Every requested key is distinct and present in every task at `ps`.
pub open spec fn display_keys_ok(tasks: Seq<Task>, ps: Seq<usize>, requested: Seq<Seq<char>>) -> bool {
    &&& forall|a: int, b: int| 0 <= a < b < requested.len() ==> #[trigger] requested[a] != #[trigger] requested[b]
    &&& forall|a: int, k: int| 0 <= a < requested.len() && 0 <= k < ps.len()
        ==> param_of(tasks[ps[k] as int].params_spec(), #[trigger] requested[a]) is Some && #[trigger] ps[k] == ps[k]
}

/// The keys shown in the labels of the tasks at `ps`.
pub open spec fn shown_keys(tasks: Seq<Task>, ps: Seq<usize>, requested: Option<Seq<Seq<char>>>) -> Seq<Seq<char>> {
    match requested {
        Some(keys) => keys,
        None => varying_keys_spec(tasks, ps),
    }
}

/// The label of the `k`-th task of `kind` at positions `ps`.
pub open spec fn label_at(tasks: Seq<Task>, ps: Seq<usize>, kind: Seq<char>, keys: Seq<Seq<char>>, k: int) -> Seq<char> {
    label_spec(kind, tasks[ps[k] as int].params_spec(), keys, tasks[ps[k] as int].id_spec(),
        keys.len() == 0 && ps.len() > 1)
}

/// Two tasks of `kind` at positions `ps` share a label.
pub open spec fn labels_collide(tasks: Seq<Task>, ps: Seq<usize>, kind: Seq<char>, keys: Seq<Seq<char>>) -> bool {
    exists|a: int, b: int| 0 <= a < b < ps.len()
        && #[trigger] label_at(tasks, ps, kind, keys, a) == #[trigger] label_at(tasks, ps, kind, keys, b)
}

/// Labels can be generated for the tasks of `kind`.
pub open spec fn kind_labels_ok(tasks: Seq<Task>, kind: Seq<char>, requested: Option<Seq<Seq<char>>>) -> bool {
    let ps = positions_of(tasks, kind);
    &&& keys_consistent(tasks, ps)
    &&& (requested matches Some(keys) ==> display_keys_ok(tasks, ps, keys))
    &&& !labels_collide(tasks, ps, kind, shown_keys(tasks, ps, requested))
}

/// The positions of the tasks of `kind`, in order.
fn kind_positions(tasks: &Vec<Task>, kind: &str) -> (r: Vec<usize>)
    ensures
        r@ == positions_of(tasks@, kind@),
{
    let ghost pred = |i: usize| tasks@[i as int].kind_spec() == kind@;
    let wanted = kind.to_owned();
    let mut ps: Vec<usize> = Vec::new();
    let mut i: usize = 0;
    while i < tasks.len()
        invariant
            i <= tasks@.len(),
            wanted@ == kind@,
            pred == (|i: usize| tasks@[i as int].kind_spec() == kind@),
            ps@ == Seq::new(i as nat, |j: int| j as usize).filter(pred),
        decreases tasks@.len() - i,
    {
        proof {
            assert(Seq::new(i as nat + 1, |j: int| j as usize) =~= Seq::new(i as nat, |j: int| j as usize).push(i));
            Seq::new(i as nat, |j: int| j as usize).lemma_filter_push(i, pred);
        }
        if tasks[i].kind == wanted {
            ps.push(i);
        }
        i = i + 1;
    }
    proof {
        assert(Seq::new(tasks@.len(), |j: int| j as usize) =~= Seq::new(i as nat, |j: int| j as usize));
    }
    ps
}

/// Whether `key` is among the keys of `params`.
fn has_key(params: &Vec<(String, ParameterValue)>, key: &String) -> (r: bool)
    ensures
        r == param_keys(params@).contains(key@),
{
    let mut i: usize = 0;
    while i < params.len()
        invariant
            i <= params@.len(),
            forall|k: int| 0 <= k < i ==> #[trigger] params@[k].0@ != key@,
        decreases params@.len() - i,
    {
        if params[i].0 == *key {
            assert(param_keys(params@)[i as int] == key@);
            return true;
        }
        i = i + 1;
    }
    proof {
        if param_keys(params@).contains(key@) {
            let k = choose|k: int| 0 <= k < param_keys(params@).len() && param_keys(params@)[k] == key@;
            assert(params@[k].0@ == key@);
        }
    }
    false
}

/// Whether two parameter lists have the same key set.
fn same_key_set(a: &Vec<(String, ParameterValue)>, b: &Vec<(String, ParameterValue)>) -> (r: bool)
    ensures
        r == (param_keys(a@).to_set() == param_keys(b@).to_set()),
{
    let mut i: usize = 0;
    while i < a.len()
        invariant
            i <= a@.len(),
            forall|k: int| 0 <= k < i ==> param_keys(b@).contains(#[trigger] param_keys(a@)[k]),
        decreases a@.len() - i,
    {
        if !has_key(b, &a[i].0) {
            proof {
                assert(param_keys(a@).to_set().contains(param_keys(a@)[i as int]));
                assert(!param_keys(b@).to_set().contains(param_keys(a@)[i as int]));
            }
            return false;
        }
        i = i + 1;
    }
    let mut j: usize = 0;
    while j < b.len()
        invariant
            j <= b@.len(),
            forall|k: int| 0 <= k < a@.len() ==> param_keys(b@).contains(#[trigger] param_keys(a@)[k]),
            forall|k: int| 0 <= k < j ==> param_keys(a@).contains(#[trigger] param_keys(b@)[k]),
        decreases b@.len() - j,
    {
        if !has_key(a, &b[j].0) {
            proof {
                assert(param_keys(b@).to_set().contains(param_keys(b@)[j as int]));
                assert(!param_keys(a@).to_set().contains(param_keys(b@)[j as int]));
            }
            return false;
        }
        j = j + 1;
    }
    proof {
        assert forall|key: Seq<char>| param_keys(a@).to_set().contains(key) == param_keys(b@).to_set().contains(key) by {
            if param_keys(a@).contains(key) {
                let k = choose|k: int| 0 <= k < param_keys(a@).len() && param_keys(a@)[k] == key;
                assert(param_keys(b@).contains(param_keys(a@)[k]));
            }
            if param_keys(b@).contains(key) {
                let k = choose|k: int| 0 <= k < param_keys(b@).len() && param_keys(b@)[k] == key;
                assert(param_keys(a@).contains(param_keys(b@)[k]));
            }
        }
        assert(param_keys(a@).to_set() =~= param_keys(b@).to_set());
    }
    true
}

/// Positions of a kind lie within the task list and name tasks of that
/// kind.
proof fn lemma_positions(tasks: Seq<Task>, kind: Seq<char>)
    ensures
        forall|k: int| 0 <= k < positions_of(tasks, kind).len() ==> {
            &&& (#[trigger] positions_of(tasks, kind)[k]) < tasks.len()
            &&& tasks[positions_of(tasks, kind)[k] as int].kind_spec() == kind
        },
{
    let idx = Seq::new(tasks.len(), |i: int| i as usize);
    let pred = |i: usize| tasks[i as int].kind_spec() == kind;
    let ps = positions_of(tasks, kind);
    assert forall|k: int| 0 <= k < ps.len() implies {
        &&& (#[trigger] ps[k]) < tasks.len()
        &&& tasks[ps[k] as int].kind_spec() == kind
    } by {
        assert(ps.contains(ps[k]));
        idx.lemma_filter_contains_rev(pred, ps[k]);
        idx.lemma_filter_pred(pred, k);
    }
}

/// A key of the task list has a value.
proof fn lemma_key_has_value(params: Seq<(String, ParameterValue)>, key: Seq<char>)
    ensures
        param_keys(params).contains(key) == (param_of(params, key) is Some),
{
    reveal(param_of);
    if param_keys(params).contains(key) {
        let k = choose|k: int| 0 <= k < param_keys(params).len() && param_keys(params)[k] == key;
        assert(params[k].0@ == key);
    }
    if param_of(params, key) is Some {
        let k = choose|k: int| 0 <= k < params.len() && #[trigger] params[k].0@ == key;
        assert(param_keys(params)[k] == key);
    }
}

/// Checks that every task at `ps` has the parameter keys of the first; the
/// first task that differs is reported with the first.
fn check_parameter_keys(tasks: &Vec<Task>, ps: &Vec<usize>, kind: &str) -> (r: Result<(), ReportingError>)
    requires
        forall|k: int| 0 <= k < ps@.len() ==> (#[trigger] ps@[k]) < tasks@.len(),
    ensures
        r is Ok <==> keys_consistent(tasks@, ps@),
        r matches Err(e) ==> exists|k: int| 0 < k < ps@.len()
            && (forall|j: int| 0 < j < k ==> #[trigger] key_set(tasks@[ps@[j] as int]) == key_set(tasks@[ps@[0] as int]))
            && #[trigger] key_set(tasks@[ps@[k] as int]) != key_set(tasks@[ps@[0] as int])
            && (e matches ReportingError::InconsistentManagedTaskParameters { kind: kd, first, second }
                && kd@ == kind@ && first@ == tasks@[ps@[0] as int].key_text() && second@ == tasks@[ps@[k] as int].key_text()),
{
    if ps.len() == 0 {
        return Ok(());
    }
    let first = ps[0];
    let mut k: usize = 1;
    while k < ps.len()
        invariant
            1 <= k <= ps@.len(),
            first == ps@[0],
            forall|m: int| 0 <= m < ps@.len() ==> (#[trigger] ps@[m]) < tasks@.len(),
            forall|j: int| 0 < j < k ==> #[trigger] key_set(tasks@[ps@[j] as int]) == key_set(tasks@[ps@[0] as int]),
        decreases ps@.len() - k,
    {
        let p = ps[k];
        if !same_key_set(&tasks[p].parameters, &tasks[first].parameters) {
            assert(key_set(tasks@[ps@[k as int] as int]) != key_set(tasks@[ps@[0] as int]));
            return Err(ReportingError::InconsistentManagedTaskParameters {
                kind: kind.to_owned(),
                first: tasks[first].key.to_text(),
                second: tasks[p].key.to_text(),
            });
        }
        k = k + 1;
    }
    Ok(())
}

/// Checks requested display keys: the first repeated key, then the first
/// key missing from some task at `ps`, is reported.
fn check_display_keys(tasks: &Vec<Task>, ps: &Vec<usize>, requested: &Vec<String>) -> (r: Result<(), ReportingError>)
    requires
        forall|k: int| 0 <= k < ps@.len() ==> (#[trigger] ps@[k]) < tasks@.len(),
    ensures
        ({
            let rq = string_views(requested@);
            &&& r is Ok <==> display_keys_ok(tasks@, ps@, rq)
            &&& r matches Err(e) ==> exists|a: int| 0 <= a < rq.len()
                && ((e matches ReportingError::DuplicateIdentityParameter { key } && key@ == #[trigger] rq[a])
                    || (e matches ReportingError::UnknownIdentityParameter { key } && key@ == rq[a]))
        }),
{
    let ghost rq = string_views(requested@);
    let mut a: usize = 0;
    while a < requested.len()
        invariant
            a <= requested@.len(),
            rq == string_views(requested@),
            forall|m: int| 0 <= m < ps@.len() ==> (#[trigger] ps@[m]) < tasks@.len(),
            forall|x: int, y: int| 0 <= x < y < a ==> #[trigger] rq[x] != #[trigger] rq[y],
            forall|x: int, k: int| 0 <= x < a && 0 <= k < ps@.len()
                ==> param_of(tasks@[ps@[k] as int].params_spec(), #[trigger] rq[x]) is Some && #[trigger] ps@[k] == ps@[k],
        decreases requested@.len() - a,
    {
        let mut b: usize = 0;
        while b < a
            invariant
                b <= a < requested@.len(),
                rq == string_views(requested@),
                forall|y: int| 0 <= y < b ==> rq[y] != rq[a as int],
            decreases a - b,
        {
            if requested[b] == requested[a] {
                assert(rq[b as int] == rq[a as int]);
                return Err(ReportingError::DuplicateIdentityParameter { key: requested[a].clone() });
            }
            b = b + 1;
        }
        let mut k: usize = 0;
        while k < ps.len()
            invariant
                k <= ps@.len(),
                a < requested@.len(),
                rq == string_views(requested@),
                forall|m: int| 0 <= m < ps@.len() ==> (#[trigger] ps@[m]) < tasks@.len(),
                forall|m: int| 0 <= m < k ==> param_of(tasks@[#[trigger] ps@[m] as int].params_spec(), rq[a as int]) is Some,
            decreases ps@.len() - k,
        {
            if find_param(&tasks[ps[k]].parameters, requested[a].as_str()).is_none() {
                proof {
                    assert(!display_keys_ok(tasks@, ps@, rq)) by {
                        assert(!(param_of(tasks@[ps@[k as int] as int].params_spec(), rq[a as int]) is Some));
                    }
                }
                return Err(ReportingError::UnknownIdentityParameter { key: requested[a].clone() });
            }
            k = k + 1;
        }
        a = a + 1;
    }
    Ok(())
}

/// The keys of the first task whose values vary among the tasks at `ps`.
fn varying_keys(tasks: &Vec<Task>, ps: &Vec<usize>) -> (r: Vec<String>)
    requires
        forall|k: int| 0 <= k < ps@.len() ==> (#[trigger] ps@[k]) < tasks@.len(),
    ensures
        string_views(r@) == varying_keys_spec(tasks@, ps@),
{
    if ps.len() == 0 {
        let r: Vec<String> = Vec::new();
        assert(string_views(r@) =~= Seq::<Seq<char>>::empty());
        return r;
    }
    let first = ps[0];
    let params = &tasks[first].parameters;
    let ghost keys = param_keys(params@);
    let ghost pred = |key: Seq<char>| varies(tasks@, ps@, key);
    let mut out: Vec<String> = Vec::new();
    let mut i: usize = 0;
    while i < params.len()
        invariant
            i <= params@.len(),
            first == ps@[0],
            ps@.len() > 0,
            forall|m: int| 0 <= m < ps@.len() ==> (#[trigger] ps@[m]) < tasks@.len(),
            *params == tasks@[first as int].parameters,
            keys == param_keys(params@),
            pred == (|key: Seq<char>| varies(tasks@, ps@, key)),
            string_views(out@) == keys.take(i as int).filter(pred),
        decreases params@.len() - i,
    {
        let key = &params[i].0;
        let base = find_param(params, key.as_str());
        let mut k: usize = 1;
        let mut differs = false;
        while k < ps.len() && !differs
            invariant
                1 <= k <= ps@.len(),
                forall|m: int| 0 <= m < ps@.len() ==> (#[trigger] ps@[m]) < tasks@.len(),
                base is Some <==> param_of(tasks@[ps@[0] as int].params_spec(), key@) is Some,
                base matches Some(v) ==> *v == param_of(tasks@[ps@[0] as int].params_spec(), key@)->0,
                !differs ==> forall|m: int| 1 <= m < k ==> #[trigger] value_text(tasks@[ps@[m] as int], key@) == value_text(tasks@[ps@[0] as int], key@),
                differs ==> varies(tasks@, ps@, key@),
            decreases ps@.len() - k + if differs { 0int } else { 1int },
        {
            let other = find_param(&tasks[ps[k]].parameters, key.as_str());
            let same = match (other, base) {
                (Some(x), Some(y)) => x.same_value(y),
                (None, None) => true,
                _ => false,
            };
            if !same {
                assert(value_text(tasks@[ps@[k as int] as int], key@) != value_text(tasks@[ps@[0] as int], key@));
                differs = true;
            } else {
                k = k + 1;
            }
        }
        proof {
            assert(keys.take(i as int + 1) =~= keys.take(i as int).push(keys[i as int]));
            keys.take(i as int).lemma_filter_push(keys[i as int], pred);
            assert(keys[i as int] == key@);
            if !differs {
                assert(!varies(tasks@, ps@, key@));
            }
        }
        let ghost before = out@;
        if differs {
            out.push(key.clone());
            assert(string_views(out@) =~= string_views(before).push(key@));
        }
        i = i + 1;
    }
    assert(keys.take(params@.len() as int) =~= keys);
    out
}

/// `a` and `b` declare the same task; only their labels may differ.
pub open spec fn same_declaration(a: Task, b: Task) -> bool {
    &&& a.phase_spec() == b.phase_spec()
    &&& a.id_spec() == b.id_spec()
    &&& a.kind_spec() == b.kind_spec()
    &&& a.display_kind_spec() == b.display_kind_spec()
    &&& a.ordinal_spec() == b.ordinal_spec()
    &&& a.params_spec() == b.params_spec()
    &&& a.reused_spec() == b.reused_spec()
}

/// `t` shows `label`, generated from `keys`.
pub open spec fn labelled(t: Task, label: Seq<char>, keys: Seq<Seq<char>>) -> bool {
    &&& t.label_text() == label
    &&& t.display_keys_spec() == Some(keys)
}

/// Clones a list of keys.
fn clone_keys(keys: &Vec<String>) -> (r: Vec<String>)
    ensures
        string_views(r@) == string_views(keys@),
{
    let mut out: Vec<String> = Vec::new();
    let mut i: usize = 0;
    while i < keys.len()
        invariant
            i <= keys@.len(),
            out@.len() == i,
            forall|m: int| 0 <= m < i ==> (#[trigger] out@[m])@ == keys@[m]@,
        decreases keys@.len() - i,
    {
        let key = keys[i].clone();
        out.push(key);
        i = i + 1;
    }
    assert(string_views(out@) =~= string_views(keys@));
    out
}

/// The labels generated from `keys` for the tasks at `ps`, all of `kind`.
/// Two tasks receiving the same label are rejected: the later one is
/// reported with the earlier.
fn kind_labels(tasks: &Vec<Task>, ps: &Vec<usize>, kind: &str, keys: &Vec<String>) -> (r: Result<Vec<String>, ReportingError>)
    requires
        forall|k: int| 0 <= k < ps@.len() ==> (#[trigger] ps@[k]) < tasks@.len(),
        forall|a: int, k: int| 0 <= a < keys@.len() && 0 <= k < ps@.len()
            ==> param_of(tasks@[ps@[k] as int].params_spec(), #[trigger] keys@[a]@) is Some && #[trigger] ps@[k] == ps@[k],
    ensures
        ({
            let ks = string_views(keys@);
            &&& r is Ok <==> !labels_collide(tasks@, ps@, kind@, ks)
            &&& r matches Ok(labels) ==> labels@.len() == ps@.len()
                && forall|k: int| 0 <= k < ps@.len() ==> (#[trigger] labels@[k])@ == label_at(tasks@, ps@, kind@, ks, k)
            &&& r matches Err(e) ==> exists|a: int, b: int| 0 <= a < b < ps@.len()
                && #[trigger] label_at(tasks@, ps@, kind@, ks, a) == #[trigger] label_at(tasks@, ps@, kind@, ks, b)
                && (e matches ReportingError::ManagedTaskDisplayCollision { label, first, second }
                    && label@ == label_at(tasks@, ps@, kind@, ks, b)
                    && first@ == tasks@[ps@[a] as int].key_text() && second@ == tasks@[ps@[b] as int].key_text())
        }),
{
    let ghost ks = string_views(keys@);
    let include_id = keys.len() == 0 && ps.len() > 1;
    let mut labels: Vec<String> = Vec::new();
    let mut k: usize = 0;
    while k < ps.len()
        invariant
            k <= ps@.len(),
            ks == string_views(keys@),
            include_id == (ks.len() == 0 && ps@.len() > 1),
            forall|m: int| 0 <= m < ps@.len() ==> (#[trigger] ps@[m]) < tasks@.len(),
            forall|a: int, m: int| 0 <= a < keys@.len() && 0 <= m < ps@.len()
                ==> param_of(tasks@[ps@[m] as int].params_spec(), #[trigger] keys@[a]@) is Some && #[trigger] ps@[m] == ps@[m],
            labels@.len() == k,
            forall|j: int| 0 <= j < k ==> (#[trigger] labels@[j])@ == label_at(tasks@, ps@, kind@, ks, j),
            forall|a: int, b: int| 0 <= a < b < k ==> #[trigger] label_at(tasks@, ps@, kind@, ks, a) != #[trigger] label_at(tasks@, ps@, kind@, ks, b),
        decreases ps@.len() - k,
    {
        let p = ps[k];
        assert forall|a: int| 0 <= a < keys@.len() implies param_of(tasks@[p as int].params_spec(), #[trigger] keys@[a]@) is Some by {
            assert(param_of(tasks@[ps@[k as int] as int].params_spec(), keys@[a]@) is Some && ps@[k as int] == ps@[k as int]);
        }
        let label = render_label(kind, &tasks[p].parameters, keys, tasks[p].key.task_id().as_str(), include_id);
        assert(label@ == label_at(tasks@, ps@, kind@, ks, k as int));
        let mut j: usize = 0;
        #[verifier::loop_isolation(false)]
        while j < k
            invariant
                j <= k < ps@.len(),
                labels@.len() == k,
                forall|m: int| 0 <= m < j ==> (#[trigger] labels@[m])@ != label@,
            decreases k - j,
        {
            if labels[j] == label {
                let q = ps[j];
                proof {
                    assert(labels@[j as int]@ == label_at(tasks@, ps@, kind@, ks, j as int));
                }
                let first = tasks[q].key.to_text();
                let second = tasks[p].key.to_text();
                return Err(ReportingError::ManagedTaskDisplayCollision { label, first, second });
            }
            j = j + 1;
        }
        labels.push(label);
        proof {
            assert forall|a: int, b: int| 0 <= a < b < k + 1 implies #[trigger] label_at(tasks@, ps@, kind@, ks, a)
                != #[trigger] label_at(tasks@, ps@, kind@, ks, b) by {
                if b == k {
                    assert(labels@[a]@ == label_at(tasks@, ps@, kind@, ks, a));
                }
            }
        }
        k = k + 1;
    }
    Ok(labels)
}

/// The labels of the tasks of one kind, as generated.
pub struct KindLabels {
    /// Positions of the tasks of the kind.
    pub positions: Vec<usize>,
    /// The keys shown in their labels.
    pub keys: Vec<String>,
    /// The label of each, by position index.
    pub labels: Vec<String>,
}

/// Generates the labels of the tasks of `kind`: the parameter keys of every
/// task of the kind must match; requested display keys must be distinct and
/// present; otherwise the varying keys are shown; and no two tasks may
/// receive the same label.
fn generate_labels(tasks: &Vec<Task>, kind: &str, requested: Option<&Vec<String>>) -> (r: Result<KindLabels, ReportingError>)
    ensures
        ({
            let rq = match requested { Some(keys) => Some(string_views(keys@)), None => None };
            let ps = positions_of(tasks@, kind@);
            let keys = shown_keys(tasks@, ps, rq);
            &&& r is Ok <==> kind_labels_ok(tasks@, kind@, rq)
            &&& r matches Ok(g) ==> g.positions@ == ps
                && string_views(g.keys@) == keys
                && g.labels@.len() == ps.len()
                && forall|k: int| 0 <= k < ps.len() ==> (#[trigger] g.labels@[k])@ == label_at(tasks@, ps, kind@, keys, k)
            &&& r matches Err(e) ==> (e is InconsistentManagedTaskParameters || e is DuplicateIdentityParameter
                || e is UnknownIdentityParameter || e is ManagedTaskDisplayCollision)
        }),
{
    let ps = kind_positions(tasks, kind);
    proof {
        lemma_positions(tasks@, kind@);
    }
    match check_parameter_keys(tasks, &ps, kind) {
        Ok(()) => {},
        Err(e) => {
            return Err(e);
        },
    }
    let keys = match requested {
        Some(requested) => {
            match check_display_keys(tasks, &ps, requested) {
                Ok(()) => {},
                Err(e) => {
                    return Err(e);
                },
            }
            clone_keys(requested)
        },
        None => {
            let keys = varying_keys(tasks, &ps);
            proof {
                let first = tasks@[ps@[0] as int];
                let fk = param_keys(first.params_spec());
                let pred = |key: Seq<char>| varies(tasks@, ps@, key);
                assert forall|a: int, k: int| 0 <= a < keys@.len() && 0 <= k < ps@.len()
                    implies param_of(tasks@[ps@[k] as int].params_spec(), #[trigger] keys@[a]@) is Some && #[trigger] ps@[k] == ps@[k] by {
                    let key = keys@[a]@;
                    assert(string_views(keys@)[a] == key);
                    assert(fk.filter(pred).contains(key));
                    fk.lemma_filter_contains_rev(pred, key);
                    assert(fk.to_set().contains(key));
                    if k > 0 {
                        assert(key_set(tasks@[ps@[k] as int]) == key_set(first));
                    }
                    assert(param_keys(tasks@[ps@[k] as int].params_spec()).to_set().contains(key));
                    lemma_key_has_value(tasks@[ps@[k] as int].params_spec(), key);
                }
            }
            keys
        },
    };
    proof {
        if requested is Some {
            assert forall|a: int, k: int| 0 <= a < keys@.len() && 0 <= k < ps@.len()
                implies param_of(tasks@[ps@[k] as int].params_spec(), #[trigger] keys@[a]@) is Some && #[trigger] ps@[k] == ps@[k] by {
                let rq = string_views(requested->0@);
                assert(string_views(keys@)[a] == keys@[a]@);
                assert(rq[a] == keys@[a]@);
                assert(param_of(tasks@[ps@[k] as int].params_spec(), rq[a]) is Some && ps@[k] == ps@[k]);
            }
        }
    }
    let labels = match kind_labels(tasks, &ps, kind, &keys) {
        Ok(labels) => labels,
        Err(e) => {
            return Err(e);
        },
    };
    Ok(KindLabels { positions: ps, keys, labels })
}

/// The display keys requested for `kind`, if any.
pub open spec fn requested_for(by_kind: Seq<(String, Vec<String>)>, kind: Seq<char>) -> Option<Seq<Seq<char>>> {
    if exists|i: int| 0 <= i < by_kind.len() && #[trigger] by_kind[i].0@ == kind {
        Some(string_views(by_kind[choose|i: int| 0 <= i < by_kind.len() && #[trigger] by_kind[i].0@ == kind].1@))
    } else {
        None
    }
}

/// Each kind has at most one display-key request.
pub open spec fn requests_distinct(by_kind: Seq<(String, Vec<String>)>) -> bool {
    forall|i: int, j: int| 0 <= i < j < by_kind.len() ==> (#[trigger] by_kind[i]).0@ != (#[trigger] by_kind[j]).0@
}

/// Labels can be generated for every kind of task.
pub open spec fn all_labels_ok(tasks: Seq<Task>, by_kind: Seq<(String, Vec<String>)>) -> bool {
    forall|i: int| 0 <= i < tasks.len()
        ==> kind_labels_ok(tasks, (#[trigger] tasks[i]).kind_spec(), requested_for(by_kind, tasks[i].kind_spec()))
}

/// The keys shown for the tasks of `kind`.
pub open spec fn keys_of_kind(tasks: Seq<Task>, by_kind: Seq<(String, Vec<String>)>, kind: Seq<char>) -> Seq<Seq<char>> {
    shown_keys(tasks, positions_of(tasks, kind), requested_for(by_kind, kind))
}

/// `after` is `before` with every task labelled as its kind's generation
/// gives.
pub open spec fn labelled_tasks(before: Seq<Task>, after: Seq<Task>, by_kind: Seq<(String, Vec<String>)>) -> bool {
    &&& after.len() == before.len()
    &&& forall|i: int| 0 <= i < before.len() ==> same_declaration(#[trigger] after[i], before[i])
    &&& forall|kind: Seq<char>, m: int| 0 <= m < positions_of(before, kind).len() ==> labelled(
        #[trigger] after[positions_of(before, kind)[m] as int],
        label_at(before, positions_of(before, kind), kind, keys_of_kind(before, by_kind, kind), m),
        keys_of_kind(before, by_kind, kind))
}

/// The request for `kind`, if any.
fn find_request<'a>(by_kind: &'a Vec<(String, Vec<String>)>, kind: &String) -> (r: Option<&'a Vec<String>>)
    requires
        requests_distinct(by_kind@),
    ensures
        r is Some <==> requested_for(by_kind@, kind@) is Some,
        r matches Some(keys) ==> requested_for(by_kind@, kind@) == Some(string_views(keys@)),
{
    let mut i: usize = 0;
    while i < by_kind.len()
        invariant
            i <= by_kind@.len(),
            requests_distinct(by_kind@),
            forall|k: int| 0 <= k < i ==> #[trigger] by_kind@[k].0@ != kind@,
        decreases by_kind@.len() - i,
    {
        if by_kind[i].0 == *kind {
            proof {
                assert(by_kind@[i as int].0@ == kind@);
                let w = choose|w: int| 0 <= w < by_kind@.len() && #[trigger] by_kind@[w].0@ == kind@;
                if w != i {
                    if w < i {
                        assert(by_kind@[w].0@ != by_kind@[i as int].0@);
                    } else {
                        assert(by_kind@[i as int].0@ != by_kind@[w].0@);
                    }
                }
            }
            return Some(&by_kind[i].1);
        }
        i = i + 1;
    }
    None
}

/// Whether `kind` is among the first `n` kinds listed.
fn listed(kinds: &Vec<String>, kind: &String) -> (r: bool)
    ensures
        r == string_views(kinds@).contains(kind@),
{
    let mut i: usize = 0;
    while i < kinds.len()
        invariant
            i <= kinds@.len(),
            forall|k: int| 0 <= k < i ==> (#[trigger] kinds@[k])@ != kind@,
        decreases kinds@.len() - i,
    {
        if kinds[i] == *kind {
            assert(string_views(kinds@)[i as int] == kind@);
            return true;
        }
        i = i + 1;
    }
    proof {
        if string_views(kinds@).contains(kind@) {
            let k = choose|k: int| 0 <= k < kinds@.len() && string_views(kinds@)[k] == kind@;
            assert(kinds@[k]@ == kind@);
        }
    }
    false
}

/// The kinds of the tasks, each once, in order of first appearance, with
/// the index of a task of each kind.
fn distinct_kinds(tasks: &Vec<Task>) -> (r: (Vec<String>, Vec<usize>))
    ensures
        forall|i: int| 0 <= i < tasks@.len() ==> string_views(r.0@).contains(#[trigger] tasks@[i].kind_spec()),
        r.1@.len() == r.0@.len(),
        forall|k: int| 0 <= k < r.0@.len() ==> (#[trigger] r.1@[k]) < tasks@.len() && tasks@[r.1@[k] as int].kind_spec() == r.0@[k]@,
        forall|a: int, b: int| 0 <= a < b < r.0@.len() ==> (#[trigger] r.0@[a])@ != (#[trigger] r.0@[b])@,
{
    let mut kinds: Vec<String> = Vec::new();
    let mut firsts: Vec<usize> = Vec::new();
    let mut i: usize = 0;
    while i < tasks.len()
        invariant
            i <= tasks@.len(),
            forall|j: int| 0 <= j < i ==> string_views(kinds@).contains(#[trigger] tasks@[j].kind_spec()),
            firsts@.len() == kinds@.len(),
            forall|k: int| 0 <= k < kinds@.len() ==> (#[trigger] firsts@[k]) < tasks@.len() && tasks@[firsts@[k] as int].kind_spec() == kinds@[k]@,
            forall|a: int, b: int| 0 <= a < b < kinds@.len() ==> (#[trigger] kinds@[a])@ != (#[trigger] kinds@[b])@,
        decreases tasks@.len() - i,
    {
        let kind = &tasks[i].kind;
        let ghost before = kinds@;
        if !listed(&kinds, kind) {
            kinds.push(kind.clone());
            firsts.push(i);
            proof {
                assert(string_views(kinds@) =~= string_views(before).push(tasks@[i as int].kind_spec()));
                assert forall|j: int| 0 <= j < i + 1 implies string_views(kinds@).contains(#[trigger] tasks@[j].kind_spec()) by {
                    if j < i {
                        let w = choose|w: int| 0 <= w < before.len() && string_views(before)[w] == tasks@[j].kind_spec();
                        assert(string_views(kinds@)[w] == tasks@[j].kind_spec());
                    } else {
                        assert(string_views(kinds@)[before.len() as int] == tasks@[j].kind_spec());
                    }
                }
                assert forall|a: int, b: int| 0 <= a < b < kinds@.len() implies (#[trigger] kinds@[a])@ != (#[trigger] kinds@[b])@ by {
                    if b == before.len() {
                        assert(string_views(before)[a] == kinds@[a]@);
                    }
                }
            }
        }
        i = i + 1;
    }
    (kinds, firsts)
}

/// A kind with tasks is listed.
proof fn lemma_kind_listed(tasks: Seq<Task>, kinds: Seq<String>, kind: Seq<char>)
    requires
        forall|i: int| 0 <= i < tasks.len() ==> string_views(kinds).contains(#[trigger] tasks[i].kind_spec()),
        positions_of(tasks, kind).len() > 0,
    ensures
        exists|j: int| 0 <= j < kinds.len() && (#[trigger] kinds[j])@ == kind,
{
    lemma_positions(tasks, kind);
    let p = positions_of(tasks, kind)[0];
    assert(tasks[p as int].kind_spec() == kind);
    assert(string_views(kinds).contains(tasks[p as int].kind_spec()));
    let j = choose|j: int| 0 <= j < string_views(kinds).len() && string_views(kinds)[j] == kind;
    assert(kinds[j]@ == kind);
}

/// Generates the label of every task, kind by kind in order of first
/// appearance.
fn label_tasks(tasks: Vec<Task>, by_kind: &Vec<(String, Vec<String>)>) -> (r: Result<Vec<Task>, ReportingError>)
    requires
        requests_distinct(by_kind@),
    ensures
        r is Ok <==> all_labels_ok(tasks@, by_kind@),
        r matches Ok(t) ==> labelled_tasks(tasks@, t@, by_kind@),
        r matches Err(e) ==> (e is InconsistentManagedTaskParameters || e is DuplicateIdentityParameter
            || e is UnknownIdentityParameter || e is ManagedTaskDisplayCollision),
{
    let ghost old_tasks = tasks@;
    let (kinds, firsts) = distinct_kinds(&tasks);
    let mut gens: Vec<KindLabels> = Vec::new();
    let mut c: usize = 0;
    while c < kinds.len()
        invariant
            c <= kinds@.len(),
            old_tasks == tasks@,
            requests_distinct(by_kind@),
            firsts@.len() == kinds@.len(),
            forall|k: int| 0 <= k < kinds@.len() ==> (#[trigger] firsts@[k]) < tasks@.len() && tasks@[firsts@[k] as int].kind_spec() == kinds@[k]@,
            gens@.len() == c,
            forall|j: int| 0 <= j < c ==> kind_labels_ok(tasks@, (#[trigger] kinds@[j])@, requested_for(by_kind@, kinds@[j]@)),
            forall|j: int| 0 <= j < c ==> {
                let ps = positions_of(tasks@, kinds@[j]@);
                let keys = keys_of_kind(tasks@, by_kind@, kinds@[j]@);
                &&& (#[trigger] gens@[j]).positions@ == ps
                &&& string_views(gens@[j].keys@) == keys
                &&& gens@[j].labels@.len() == ps.len()
                &&& forall|k: int| 0 <= k < ps.len() ==> (#[trigger] gens@[j].labels@[k])@ == label_at(tasks@, ps, kinds@[j]@, keys, k)
            },
        decreases kinds@.len() - c,
    {
        let requested = find_request(by_kind, &kinds[c]);
        match generate_labels(&tasks, kinds[c].as_str(), requested) {
            Ok(g) => {
                gens.push(g);
            },
            Err(e) => {
                proof {
                    let i = firsts@[c as int] as int;
                    assert(!kind_labels_ok(tasks@, tasks@[i].kind_spec(), requested_for(by_kind@, tasks@[i].kind_spec())));
                }
                return Err(e);
            },
        }
        c = c + 1;
    }
    proof {
        assert forall|i: int| 0 <= i < tasks@.len() implies kind_labels_ok(tasks@, (#[trigger] tasks@[i]).kind_spec(),
            requested_for(by_kind@, tasks@[i].kind_spec())) by {
            let kind = tasks@[i].kind_spec();
            let j = choose|j: int| 0 <= j < string_views(kinds@).len() && string_views(kinds@)[j] == kind;
            assert(kinds@[j]@ == kind);
        }
    }
    let mut out = tasks;
    let mut g: usize = 0;
    while g < gens.len()
        invariant
            g <= gens@.len(),
            gens@.len() == kinds@.len(),
            out@.len() == old_tasks.len(),
            forall|i: int| 0 <= i < old_tasks.len() ==> string_views(kinds@).contains(#[trigger] old_tasks[i].kind_spec()),
            forall|a: int, b: int| 0 <= a < b < kinds@.len() ==> (#[trigger] kinds@[a])@ != (#[trigger] kinds@[b])@,
            forall|i: int| 0 <= i < old_tasks.len() ==> same_declaration(#[trigger] out@[i], old_tasks[i]),
            forall|j: int| 0 <= j < kinds@.len() ==> {
                let ps = positions_of(old_tasks, kinds@[j]@);
                let keys = keys_of_kind(old_tasks, by_kind@, kinds@[j]@);
                &&& (#[trigger] gens@[j]).positions@ == ps
                &&& string_views(gens@[j].keys@) == keys
                &&& gens@[j].labels@.len() == ps.len()
                &&& forall|k: int| 0 <= k < ps.len() ==> (#[trigger] gens@[j].labels@[k])@ == label_at(old_tasks, ps, kinds@[j]@, keys, k)
            },
            forall|j: int, m: int| 0 <= j < g && 0 <= m < positions_of(old_tasks, kinds@[j]@).len() ==> labelled(
                #[trigger] out@[positions_of(old_tasks, (#[trigger] kinds@[j])@)[m] as int],
                label_at(old_tasks, positions_of(old_tasks, kinds@[j]@), kinds@[j]@, keys_of_kind(old_tasks, by_kind@, kinds@[j]@), m),
                keys_of_kind(old_tasks, by_kind@, kinds@[j]@)),
        decreases gens@.len() - g,
    {
        let ghost kind = kinds@[g as int]@;
        let ghost ps = positions_of(old_tasks, kind);
        let ghost keys = keys_of_kind(old_tasks, by_kind@, kind);
        proof {
            lemma_positions(old_tasks, kind);
        }
        let gen = &gens[g];
        let mut m: usize = 0;
        while m < gen.positions.len()
            invariant
                m <= ps.len(),
                gen.positions@ == ps,
                string_views(gen.keys@) == keys,
                gen.labels@.len() == ps.len(),
                forall|k: int| 0 <= k < ps.len() ==> (#[trigger] gen.labels@[k])@ == label_at(old_tasks, ps, kind, keys, k),
                forall|k: int| 0 <= k < ps.len() ==> (#[trigger] ps[k]) < old_tasks.len() && old_tasks[ps[k] as int].kind_spec() == kind,
                out@.len() == old_tasks.len(),
                forall|i: int| 0 <= i < old_tasks.len() ==> same_declaration(#[trigger] out@[i], old_tasks[i]),
                forall|k: int| 0 <= k < m ==> labelled(#[trigger] out@[ps[k] as int], label_at(old_tasks, ps, kind, keys, k), keys),
                forall|j: int, k: int| 0 <= j < g && 0 <= k < positions_of(old_tasks, kinds@[j]@).len() ==> labelled(
                    #[trigger] out@[positions_of(old_tasks, (#[trigger] kinds@[j])@)[k] as int],
                    label_at(old_tasks, positions_of(old_tasks, kinds@[j]@), kinds@[j]@, keys_of_kind(old_tasks, by_kind@, kinds@[j]@), k),
                    keys_of_kind(old_tasks, by_kind@, kinds@[j]@)),
                g < kinds@.len(),
                kind == kinds@[g as int]@,
                forall|a: int, b: int| 0 <= a < b < kinds@.len() ==> (#[trigger] kinds@[a])@ != (#[trigger] kinds@[b])@,
            decreases ps.len() - m,
        {
            let p = gen.positions[m];
            let ghost before = out@;
            out[p].label = gen.labels[m].clone();
            out[p].display_keys = Some(clone_keys(&gen.keys));
            proof {
                assert forall|i: int| 0 <= i < old_tasks.len() implies same_declaration(#[trigger] out@[i], old_tasks[i]) by {
                    if i != p {
                        assert(out@[i] == before[i]);
                    }
                }
                assert forall|k: int| 0 <= k < m + 1 implies labelled(#[trigger] out@[ps[k] as int], label_at(old_tasks, ps, kind, keys, k), keys) by {
                    if ps[k] != p {
                        assert(out@[ps[k] as int] == before[ps[k] as int]);
                    } else if k < m {
                        assert(label_at(old_tasks, ps, kind, keys, k) == label_at(old_tasks, ps, kind, keys, m as int));
                    }
                }
                assert forall|j: int, k: int| 0 <= j < g && 0 <= k < positions_of(old_tasks, kinds@[j]@).len() implies labelled(
                    #[trigger] out@[positions_of(old_tasks, (#[trigger] kinds@[j])@)[k] as int],
                    label_at(old_tasks, positions_of(old_tasks, kinds@[j]@), kinds@[j]@, keys_of_kind(old_tasks, by_kind@, kinds@[j]@), k),
                    keys_of_kind(old_tasks, by_kind@, kinds@[j]@)) by {
                    lemma_positions(old_tasks, kinds@[j]@);
                    let q = positions_of(old_tasks, kinds@[j]@)[k];
                    assert(old_tasks[q as int].kind_spec() == kinds@[j]@);
                    assert(kinds@[j]@ != kinds@[g as int]@);
                    assert(q != p);
                    assert(out@[q as int] == before[q as int]);
                }
            }
            m = m + 1;
        }
        g = g + 1;
    }
    proof {
        assert forall|kind: Seq<char>, m: int| 0 <= m < positions_of(old_tasks, kind).len() implies labelled(
            #[trigger] out@[positions_of(old_tasks, kind)[m] as int],
            label_at(old_tasks, positions_of(old_tasks, kind), kind, keys_of_kind(old_tasks, by_kind@, kind), m),
            keys_of_kind(old_tasks, by_kind@, kind)) by {
            lemma_kind_listed(old_tasks, kinds@, kind);
            let j = choose|j: int| 0 <= j < kinds@.len() && (#[trigger] kinds@[j])@ == kind;
            assert(kinds@[j]@ == kind);
        }
    }
    Ok(out)
}

/// Task `i` has a nonblank ID and kind, and an ID no earlier task has.
pub open spec fn task_ok(tasks: Seq<Task>, i: int) -> bool {
    &&& !is_blank(tasks[i].id_spec())
    &&& !is_blank(tasks[i].kind_spec())
    &&& forall|j: int| 0 <= j < i ==> (#[trigger] tasks[j]).id_spec() != tasks[i].id_spec()
}

/// Dependency `i` names another phase and no earlier dependency.
pub open spec fn dependency_ok(deps: Seq<PhaseId>, phase: PhaseId, i: int) -> bool {
    &&& deps[i] != phase
    &&& forall|j: int| 0 <= j < i ==> #[trigger] deps[j] != deps[i]
}

/// Some task has `kind`.
pub open spec fn has_kind(tasks: Seq<Task>, kind: Seq<char>) -> bool {
    exists|i: int| 0 <= i < tasks.len() && #[trigger] tasks[i].kind_spec() == kind
}

/// Builder for one nonempty first-class phase.
#[derive(Debug)]
pub struct PhaseBuilder {
    id: PhaseId,
    label: String,
    tasks: Vec<Task>,
    display_by_kind: Vec<(String, Vec<String>)>,
    max_active_tasks: usize,
    prepared_task_queue_capacity: usize,
    delay_per_task_ns: Option<u128>,
    task_timeout_ns: Option<u128>,
    deadline_after_ns: Option<u128>,
    dependencies: Vec<PhaseId>,
    failure_policy: PhaseFailurePolicy,
    require_confirm: bool,
}

/// What a phase builder holds.
pub struct BuilderView {
    /// Phase identity.
    pub id: PhaseId,
    /// Phase heading.
    pub label: Seq<char>,
    /// Declared tasks, in order.
    pub tasks: Seq<Task>,
    /// Display-key requests, one per kind.
    pub display_by_kind: Seq<(String, Vec<String>)>,
    /// Concurrent workload ceiling.
    pub max_active_tasks: usize,
    /// Prepared workload ceiling.
    pub queue_capacity: usize,
    /// Minimum interval between task starts.
    pub delay_per_task_ns: Option<u128>,
    /// Running-time limit of each task.
    pub task_timeout_ns: Option<u128>,
    /// Phase deadline from its start.
    pub deadline_after_ns: Option<u128>,
    /// Predecessor phases.
    pub dependencies: Seq<PhaseId>,
    /// Reaction to the first failure.
    pub failure_policy: PhaseFailurePolicy,
    /// Whether the next phase waits for confirmation.
    pub require_confirm: bool,
}

/// An immutable nonempty execution phase.
#[derive(Debug)]
pub struct Phase {
    id: PhaseId,
    label: String,
    tasks: Vec<Task>,
    max_active_tasks: usize,
    prepared_task_queue_capacity: usize,
    delay_per_task_ns: Option<u128>,
    task_timeout_ns: Option<u128>,
    deadline_after_ns: Option<u128>,
    dependencies: Vec<PhaseId>,
    failure_policy: PhaseFailurePolicy,
    require_confirm: bool,
}

/// What a phase holds.
pub struct PhaseView {
    /// Phase identity.
    pub id: PhaseId,
    /// Phase heading.
    pub label: Seq<char>,
    /// Tasks in display and execution order.
    pub tasks: Seq<Task>,
    /// Concurrent workload ceiling.
    pub max_active_tasks: usize,
    /// Prepared workload ceiling.
    pub queue_capacity: usize,
    /// Minimum interval between task starts.
    pub delay_per_task_ns: Option<u128>,
    /// Running-time limit of each task.
    pub task_timeout_ns: Option<u128>,
    /// Phase deadline from its start.
    pub deadline_after_ns: Option<u128>,
    /// Predecessor phases.
    pub dependencies: Seq<PhaseId>,
    /// Reaction to the first failure.
    pub failure_policy: PhaseFailurePolicy,
    /// Whether the next phase waits for confirmation.
    pub require_confirm: bool,
}

/// A timing setting that is absent, or nonzero and representable as a
/// deadline on the clock.
pub open spec fn timing_ok(value: Option<u128>, representable: bool) -> bool {
    value matches Some(d) ==> d > 0 && representable
}

/// Every task has a nonblank ID and kind, and an ID of its own.
pub open spec fn tasks_ok(tasks: Seq<Task>) -> bool {
    forall|i: int| 0 <= i < tasks.len() ==> #[trigger] task_ok(tasks, i)
}

/// Task `i` is the first task that is not valid.
pub open spec fn first_bad_task(tasks: Seq<Task>, i: int) -> bool {
    &&& 0 <= i < tasks.len()
    &&& !task_ok(tasks, i)
    &&& forall|j: int| 0 <= j < i ==> #[trigger] task_ok(tasks, j)
}

/// No dependency names the phase itself or repeats an earlier one.
pub open spec fn dependencies_ok(deps: Seq<PhaseId>, phase: PhaseId) -> bool {
    forall|i: int| 0 <= i < deps.len() ==> #[trigger] dependency_ok(deps, phase, i)
}

/// Every display-key request names a kind that some task has.
pub open spec fn requests_known(tasks: Seq<Task>, by_kind: Seq<(String, Vec<String>)>) -> bool {
    forall|k: int| 0 <= k < by_kind.len() ==> #[trigger] has_kind(tasks, by_kind[k].0@)
}

/// Request `k` is the first whose kind no task has.
pub open spec fn first_unknown_request(tasks: Seq<Task>, by_kind: Seq<(String, Vec<String>)>, k: int) -> bool {
    &&& 0 <= k < by_kind.len()
    &&& !has_kind(tasks, by_kind[k].0@)
    &&& forall|j: int| 0 <= j < k ==> #[trigger] has_kind(tasks, by_kind[j].0@)
}

/// The first invalid task is unique.
proof fn lemma_first_bad_task(tasks: Seq<Task>, i: int)
    requires
        0 <= i < tasks.len(),
        !task_ok(tasks, i),
        forall|j: int| 0 <= j < i ==> #[trigger] task_ok(tasks, j),
    ensures
        forall|m: int| #[trigger] first_bad_task(tasks, m) ==> m == i,
{
    assert forall|m: int| #[trigger] first_bad_task(tasks, m) implies m == i by {
        if m < i {
            assert(task_ok(tasks, m));
        } else if m > i {
            assert(task_ok(tasks, i));
        }
    }
}

/// The first request of an unknown kind is unique.
proof fn lemma_first_unknown_request(tasks: Seq<Task>, by_kind: Seq<(String, Vec<String>)>, k: int)
    requires
        0 <= k < by_kind.len(),
        !has_kind(tasks, by_kind[k].0@),
        forall|j: int| 0 <= j < k ==> #[trigger] has_kind(tasks, by_kind[j].0@),
    ensures
        forall|m: int| #[trigger] first_unknown_request(tasks, by_kind, m) ==> m == k,
{
    assert forall|m: int| #[trigger] first_unknown_request(tasks, by_kind, m) implies m == k by {
        if m < k {
            assert(has_kind(tasks, by_kind[m].0@));
        } else if m > k {
            assert(has_kind(tasks, by_kind[k].0@));
        }
    }
}

/// Checks one timing setting: a zero duration is rejected, and so is one
/// the clock cannot represent as a deadline from now.
fn check_timing(phase: u64, setting: &'static str, value: Option<u128>, representable: bool) -> (r: Result<(), ReportingError>)
    ensures
        r is Ok <==> timing_ok(value, representable),
        r matches Err(e) ==> (e matches ReportingError::InvalidPhaseTiming { phase: p, setting: s }
            && p == phase && s@ == setting@),
{
    match value {
        None => Ok(()),
        Some(nanos) => {
            if nanos == 0 || !representable {
                Err(ReportingError::InvalidPhaseTiming { phase, setting })
            } else {
                Ok(())
            }
        },
    }
}

/// Whether the clock can represent a deadline `value` from now; an absent
/// setting needs no deadline, and one whose whole seconds exceed `u64` is
/// never representable. Otherwise the answer depends on the current clock.
fn clock_represents(value: Option<u128>) -> (r: bool)
    ensures
        value is None ==> r,
        value matches Some(nanos) && nanos / 1_000_000_000 > u64::MAX ==> !r,
{
    match value {
        None => true,
        Some(nanos) => {
            let secs = nanos / 1_000_000_000;
            let sub = nanos % 1_000_000_000;
            if secs > u64::MAX as u128 {
                false
            } else {
                crate::clock::instant_admits(secs as u64, sub as u32)
            }
        },
    }
}

/// What building a declaration `v` gives, where `representable` tells,
/// for each timing setting (delay, timeout, deadline), whether the clock can
/// represent a deadline that far from now. The checks run in order: the
/// label, the task count, the two ceilings, the three timings, each task in
/// turn (ID, kind, then a repeated ID), the dependencies, the display-key
/// requests in request order, and the labels of each kind.
pub open spec fn built_as(v: BuilderView, representable: (bool, bool, bool), r: Result<Phase, ReportingError>) -> bool {
    let phase = v.id.value();
    let s1 = !is_blank(v.label);
    let s2 = s1 && v.tasks.len() > 0;
    let s3 = s2 && v.max_active_tasks > 0;
    let s4 = s3 && v.queue_capacity > 0;
    let s5 = s4 && timing_ok(v.delay_per_task_ns, representable.0);
    let s6 = s5 && timing_ok(v.task_timeout_ns, representable.1);
    let s7 = s6 && timing_ok(v.deadline_after_ns, representable.2);
    let s8 = s7 && tasks_ok(v.tasks);
    let s9 = s8 && dependencies_ok(v.dependencies, v.id);
    let s10 = s9 && requests_known(v.tasks, v.display_by_kind);
    &&& r is Ok <==> s10 && all_labels_ok(v.tasks, v.display_by_kind)
    &&& !s1 ==> (r matches Err(ReportingError::InvalidPhaseLabel { phase: p }) && p == phase)
    &&& s1 && !s2 ==> (r matches Err(ReportingError::EmptyPhase { phase: p }) && p == phase)
    &&& s2 && !s3 ==> (r matches Err(ReportingError::InvalidPhaseWorkloadLimit { phase: p }) && p == phase)
    &&& s3 && !s4 ==> (r matches Err(ReportingError::InvalidPhaseQueueCapacity { phase: p }) && p == phase)
    &&& s4 && !s5 ==> (r matches Err(ReportingError::InvalidPhaseTiming { phase: p, setting })
        && p == phase && setting@ == "delay_per_task"@)
    &&& s5 && !s6 ==> (r matches Err(ReportingError::InvalidPhaseTiming { phase: p, setting })
        && p == phase && setting@ == "task_timeout"@)
    &&& s6 && !s7 ==> (r matches Err(ReportingError::InvalidPhaseTiming { phase: p, setting })
        && p == phase && setting@ == "deadline_after"@)
    &&& s7 ==> forall|i: int| #[trigger] first_bad_task(v.tasks, i) ==> {
        let t = v.tasks[i];
        &&& is_blank(t.id_spec()) ==> (r matches Err(ReportingError::InvalidManagedTaskId { phase: p }) && p == phase)
        &&& !is_blank(t.id_spec()) && is_blank(t.kind_spec())
            ==> (r matches Err(ReportingError::InvalidManagedTaskKind { task }) && task@ == t.id_spec())
        &&& !is_blank(t.id_spec()) && !is_blank(t.kind_spec())
            ==> (r matches Err(ReportingError::DuplicateManagedTaskId { phase: p, task }) && p == phase
                && task@ == t.id_spec())
    }
    &&& s8 && !s9 ==> (r matches Err(ReportingError::PhaseDependencyCycle { phase: p }) && p == phase)
    &&& s9 ==> forall|k: int| #[trigger] first_unknown_request(v.tasks, v.display_by_kind, k)
        ==> (r matches Err(ReportingError::UnknownManagedTaskKind { kind }) && kind@ == v.display_by_kind[k].0@)
    &&& s10 ==> (r matches Err(e) ==> (e is InconsistentManagedTaskParameters || e is DuplicateIdentityParameter
        || e is UnknownIdentityParameter || e is ManagedTaskDisplayCollision))
    &&& r matches Ok(ph) ==> ph.wf() && labelled_tasks(v.tasks, ph.view().tasks, v.display_by_kind)
        && ph.view() == (PhaseView {
            id: v.id,
            label: v.label,
            tasks: ph.view().tasks,
            max_active_tasks: v.max_active_tasks,
            queue_capacity: v.queue_capacity,
            delay_per_task_ns: v.delay_per_task_ns,
            task_timeout_ns: v.task_timeout_ns,
            deadline_after_ns: v.deadline_after_ns,
            dependencies: v.dependencies,
            failure_policy: v.failure_policy,
            require_confirm: v.require_confirm,
        })
}

/// What the clock's answer for a timing setting `value` is known to be: an
/// absent setting needs no deadline, and one whose whole seconds exceed
/// `u64` is never representable.
pub open spec fn clock_answer(value: Option<u128>, representable: bool) -> bool {
    &&& value is None ==> representable
    &&& (value matches Some(nanos) && nanos / 1_000_000_000 > u64::MAX) ==> !representable
}

impl PhaseBuilder {
    /// What the builder holds.
    pub closed spec fn view(&self) -> BuilderView {
        BuilderView {
            id: self.id,
            label: self.label@,
            tasks: self.tasks@,
            display_by_kind: self.display_by_kind@,
            max_active_tasks: self.max_active_tasks,
            queue_capacity: self.prepared_task_queue_capacity,
            delay_per_task_ns: self.delay_per_task_ns,
            task_timeout_ns: self.task_timeout_ns,
            deadline_after_ns: self.deadline_after_ns,
            dependencies: self.dependencies@,
            failure_policy: self.failure_policy,
            require_confirm: self.require_confirm,
        }
    }

    /// Display-key requests are one per kind, and every task belongs to the
    /// phase being built.
    pub open spec fn wf(&self) -> bool {
        &&& requests_distinct(self.view().display_by_kind)
        &&& forall|i: int| 0 <= i < self.view().tasks.len()
            ==> (#[trigger] self.view().tasks[i]).phase_spec() == self.view().id.value()
    }

    /// Begins declaring a phase: one task at a time, one prepared task, no
    /// timing limits, no dependencies, failing fast.
    pub fn new(id: PhaseId, label: String) -> (r: Self)
        ensures
            r.wf(),
            r.view() == (BuilderView {
                id,
                label: label@,
                tasks: Seq::empty(),
                display_by_kind: Seq::empty(),
                max_active_tasks: 1,
                queue_capacity: 1,
                delay_per_task_ns: None,
                task_timeout_ns: None,
                deadline_after_ns: None,
                dependencies: Seq::empty(),
                failure_policy: PhaseFailurePolicy::FailFast,
                require_confirm: false,
            }),
    {
        PhaseBuilder {
            id,
            label,
            tasks: Vec::new(),
            display_by_kind: Vec::new(),
            max_active_tasks: 1,
            prepared_task_queue_capacity: 1,
            delay_per_task_ns: None,
            task_timeout_ns: None,
            deadline_after_ns: None,
            dependencies: Vec::new(),
            failure_policy: PhaseFailurePolicy::FailFast,
            require_confirm: false,
        }
    }

    /// Adds the task of configuration `ordinal` of `kind`: its ID is
    /// `kind:ordinal`, its label starts as the kind, and `reused` marks work
    /// already completed by verified reuse.
    pub fn configuration_task(
        self,
        kind: String,
        ordinal: u64,
        display_kind: TaskDisplayKind,
        parameters: Vec<(String, ParameterValue)>,
        reused: bool,
    ) -> (r: Self)
        requires
            self.wf(),
        ensures
            r.wf(),
            r.view().tasks.len() == self.view().tasks.len() + 1,
            forall|i: int| 0 <= i < self.view().tasks.len() ==> r.view().tasks[i] == self.view().tasks[i],
            ({
                let t = r.view().tasks.last();
                &&& t.phase_spec() == self.view().id.value()
                &&& t.id_spec() == task_id_spec(kind@, ordinal)
                &&& t.kind_spec() == kind@
                &&& t.display_kind_spec() == display_kind
                &&& t.ordinal_spec() == ordinal
                &&& t.params_spec() == parameters@
                &&& t.label_text() == kind@
                &&& t.display_keys_spec() is None
                &&& t.reused_spec() == reused
            }),
            r.view() == (BuilderView { tasks: r.view().tasks, ..self.view() }),
    {
        let id = task_id_text(kind.as_str(), ordinal);
        let key = TaskKey::new(self.id, TaskId::new(id));
        let label = kind.clone();
        let task = Task {
            key,
            kind,
            display_kind,
            configuration_ordinal: ordinal,
            parameters,
            label,
            display_keys: None,
            reused,
        };
        let mut tasks = self.tasks;
        tasks.push(task);
        PhaseBuilder { tasks, ..self }
    }

    /// Selects the parameter keys shown in the labels of the tasks of
    /// `kind`, replacing an earlier selection for the kind.
    pub fn display_tasks_by(self, kind: String, keys: Vec<String>) -> (r: Self)
        requires
            self.wf(),
        ensures
            r.wf(),
            requested_for(r.view().display_by_kind, kind@) == Some(string_views(keys@)),
            forall|other: Seq<char>| other != kind@ ==> #[trigger] requested_for(r.view().display_by_kind, other)
                == requested_for(self.view().display_by_kind, other),
            r.view() == (BuilderView { display_by_kind: r.view().display_by_kind, ..self.view() }),
    {
        let mut entries = self.display_by_kind;
        let ghost before = entries@;
        let mut i: usize = 0;
        while i < entries.len() && entries[i].0 != kind
            invariant
                i <= entries@.len(),
                entries@ == before,
                forall|k: int| 0 <= k < i ==> #[trigger] before[k].0@ != kind@,
            decreases entries@.len() - i,
        {
            i = i + 1;
        }
        if i < entries.len() {
            entries.remove(i);
        }
        let ghost mid = entries@;
        entries.push((kind, keys));
        proof {
            assert(requests_distinct(before));
            if i < before.len() {
                assert(mid =~= before.remove(i as int));
            } else {
                assert(mid == before);
            }
            assert forall|a: int| 0 <= a < mid.len() implies (#[trigger] mid[a]).0@ != kind@ by {
                if i < before.len() {
                    if a < i {
                        assert(mid[a] == before[a]);
                    } else {
                        assert(mid[a] == before[a + 1]);
                        assert(before[i as int].0@ != before[a + 1].0@);
                    }
                }
            }
            let after = entries@;
            assert forall|a: int, b: int| 0 <= a < b < after.len() implies (#[trigger] after[a]).0@ != (#[trigger] after[b]).0@ by {
                if b < mid.len() {
                    if i < before.len() {
                        let ba = if a < i { a } else { a + 1 };
                        let bb = if b < i { b } else { b + 1 };
                        assert(mid[a] == before[ba]);
                        assert(mid[b] == before[bb]);
                    }
                }
            }
            assert(after[after.len() - 1].0@ == kind@);
            let w = choose|w: int| 0 <= w < after.len() && #[trigger] after[w].0@ == kind@;
            if w != after.len() - 1 {
                assert(after[w] == mid[w]);
            }
            assert forall|other: Seq<char>| other != kind@ implies #[trigger] requested_for(after, other)
                == requested_for(before, other) by {
                if exists|k: int| 0 <= k < before.len() && #[trigger] before[k].0@ == other {
                    let k = choose|k: int| 0 <= k < before.len() && #[trigger] before[k].0@ == other;
                    assert(k != i);
                    let m = if i < before.len() && k > i { k - 1 } else { k };
                    assert(mid[m] == before[k]);
                    assert(after[m] == mid[m]);
                    let wa = choose|w: int| 0 <= w < after.len() && #[trigger] after[w].0@ == other;
                    assert(wa == m);
                    let wb = choose|w: int| 0 <= w < before.len() && #[trigger] before[w].0@ == other;
                    assert(wb == k);
                }
                if exists|k: int| 0 <= k < after.len() && #[trigger] after[k].0@ == other {
                    let k = choose|k: int| 0 <= k < after.len() && #[trigger] after[k].0@ == other;
                    assert(k < mid.len());
                    let bk = if i < before.len() && k >= i { k + 1 } else { k };
                    assert(before[bk] == mid[k]);
                }
            }
        }
        PhaseBuilder { display_by_kind: entries, ..self }
    }

    /// Sets the concurrent workload ceiling.
    pub fn max_active_tasks(self, maximum: usize) -> (r: Self)
        ensures r.view() == (BuilderView { max_active_tasks: maximum, ..self.view() }),
    {
        PhaseBuilder { max_active_tasks: maximum, ..self }
    }

    /// Sets the prepared workload ceiling.
    pub fn prepared_task_queue_capacity(self, capacity: usize) -> (r: Self)
        ensures r.view() == (BuilderView { queue_capacity: capacity, ..self.view() }),
    {
        PhaseBuilder { prepared_task_queue_capacity: capacity, ..self }
    }

    /// Sets the minimum interval between consecutive task starts.
    pub fn delay_per_task(self, nanos: u128) -> (r: Self)
        ensures r.view() == (BuilderView { delay_per_task_ns: Some(nanos), ..self.view() }),
    {
        PhaseBuilder { delay_per_task_ns: Some(nanos), ..self }
    }

    /// Sets the running-time limit of each task.
    pub fn task_timeout(self, nanos: u128) -> (r: Self)
        ensures r.view() == (BuilderView { task_timeout_ns: Some(nanos), ..self.view() }),
    {
        PhaseBuilder { task_timeout_ns: Some(nanos), ..self }
    }

    /// Sets the phase deadline measured from the phase start.
    pub fn deadline_after(self, nanos: u128) -> (r: Self)
        ensures r.view() == (BuilderView { deadline_after_ns: Some(nanos), ..self.view() }),
    {
        PhaseBuilder { deadline_after_ns: Some(nanos), ..self }
    }

    /// Adds a predecessor phase.
    pub fn depends_on(self, dependency: PhaseId) -> (r: Self)
        ensures r.view() == (BuilderView { dependencies: self.view().dependencies.push(dependency), ..self.view() }),
    {
        let mut dependencies = self.dependencies;
        dependencies.push(dependency);
        PhaseBuilder { dependencies, ..self }
    }

    /// Sets the reaction to the first failure.
    pub fn failure_policy(self, policy: PhaseFailurePolicy) -> (r: Self)
        ensures r.view() == (BuilderView { failure_policy: policy, ..self.view() }),
    {
        PhaseBuilder { failure_policy: policy, ..self }
    }

    /// Requires confirmation before the next phase starts.
    pub fn require_confirm(self, require: bool) -> (r: Self)
        ensures r.view() == (BuilderView { require_confirm: require, ..self.view() }),
    {
        PhaseBuilder { require_confirm: require, ..self }
    }

    /// Validates the declaration and creates the immutable phase, given
    /// whether the clock can represent a deadline of each timing setting
    /// (delay, timeout, deadline) from now. The checks run in order: the
    /// label, the task count, the two ceilings, the three timings, each task
    /// in turn (ID, kind, then a repeated ID), the dependencies, the
    /// display-key requests in request order, and the labels of each kind.
    pub fn build_given(self, representable: (bool, bool, bool)) -> (r: Result<Phase, ReportingError>)
        requires
            self.wf(),
        ensures
            built_as(self.view(), representable, r),
    {
        let phase = self.id.get();
        if is_blank_text(self.label.as_str()) {
            return Err(ReportingError::InvalidPhaseLabel { phase });
        }
        if self.tasks.len() == 0 {
            return Err(ReportingError::EmptyPhase { phase });
        }
        if self.max_active_tasks == 0 {
            return Err(ReportingError::InvalidPhaseWorkloadLimit { phase });
        }
        if self.prepared_task_queue_capacity == 0 {
            return Err(ReportingError::InvalidPhaseQueueCapacity { phase });
        }
        match check_timing(phase, "delay_per_task", self.delay_per_task_ns, representable.0) {
            Ok(()) => {},
            Err(e) => {
                return Err(e);
            },
        }
        match check_timing(phase, "task_timeout", self.task_timeout_ns, representable.1) {
            Ok(()) => {},
            Err(e) => {
                return Err(e);
            },
        }
        match check_timing(phase, "deadline_after", self.deadline_after_ns, representable.2) {
            Ok(()) => {},
            Err(e) => {
                return Err(e);
            },
        }
        match self.check_tasks() {
            Ok(()) => {},
            Err(e) => {
                return Err(e);
            },
        }
        match self.check_dependencies() {
            Ok(()) => {},
            Err(e) => {
                return Err(e);
            },
        }
        match self.check_requests() {
            Ok(()) => {},
            Err(e) => {
                return Err(e);
            },
        }
        let ghost before = self.tasks@;
        let tasks = match label_tasks(self.tasks, &self.display_by_kind) {
            Ok(t) => t,
            Err(e) => {
                return Err(e);
            },
        };
        proof {
            assert forall|i: int| 0 <= i < tasks@.len() implies #[trigger] task_ok(tasks@, i) by {
                assert(task_ok(before, i));
                assert(same_declaration(tasks@[i], before[i]));
                assert forall|j: int| 0 <= j < i implies (#[trigger] tasks@[j]).id_spec() != tasks@[i].id_spec() by {
                    assert(same_declaration(tasks@[j], before[j]));
                    assert(before[j].id_spec() != before[i].id_spec());
                }
            }
            assert forall|i: int| 0 <= i < tasks@.len() implies (#[trigger] tasks@[i]).phase_spec() == phase by {
                assert(same_declaration(tasks@[i], before[i]));
                assert(before[i].phase_spec() == phase);
            }
        }
        Ok(Phase {
            id: self.id,
            label: self.label,
            tasks,
            max_active_tasks: self.max_active_tasks,
            prepared_task_queue_capacity: self.prepared_task_queue_capacity,
            delay_per_task_ns: self.delay_per_task_ns,
            task_timeout_ns: self.task_timeout_ns,
            deadline_after_ns: self.deadline_after_ns,
            dependencies: self.dependencies,
            failure_policy: self.failure_policy,
            require_confirm: self.require_confirm,
        })
    }

    /// Checks every task in order: a nonblank ID, a nonblank kind, and an ID
    /// no earlier task has.
    fn check_tasks(&self) -> (r: Result<(), ReportingError>)
        requires
            self.wf(),
        ensures
            ({
                let v = self.view();
                &&& r is Ok <==> tasks_ok(v.tasks)
                &&& forall|i: int| #[trigger] first_bad_task(v.tasks, i) ==> {
                    let t = v.tasks[i];
                    &&& is_blank(t.id_spec()) ==> (r matches Err(ReportingError::InvalidManagedTaskId { phase: p })
                        && p == v.id.value())
                    &&& !is_blank(t.id_spec()) && is_blank(t.kind_spec())
                        ==> (r matches Err(ReportingError::InvalidManagedTaskKind { task }) && task@ == t.id_spec())
                    &&& !is_blank(t.id_spec()) && !is_blank(t.kind_spec())
                        ==> (r matches Err(ReportingError::DuplicateManagedTaskId { phase: p, task })
                            && p == v.id.value() && task@ == t.id_spec())
                }
            }),
    {
        let ghost tasks = self.tasks@;
        let phase = self.id.get();
        let mut i: usize = 0;
        while i < self.tasks.len()
            invariant
                i <= tasks.len(),
                tasks == self.tasks@,
                phase == self.id.value(),
                forall|j: int| 0 <= j < i ==> #[trigger] task_ok(tasks, j),
            decreases tasks.len() - i,
        {
            let t = &self.tasks[i];
            if is_blank_text(t.id()) {
                proof {
                    assert(!task_ok(tasks, i as int));
                    lemma_first_bad_task(tasks, i as int);
                }
                return Err(ReportingError::InvalidManagedTaskId { phase });
            }
            if is_blank_text(t.kind()) {
                proof {
                    assert(!task_ok(tasks, i as int));
                    lemma_first_bad_task(tasks, i as int);
                }
                return Err(ReportingError::InvalidManagedTaskKind { task: t.id().to_owned() });
            }
            let mut j: usize = 0;
            while j < i
                invariant
                    j <= i < tasks.len(),
                    tasks == self.tasks@,
                    t == tasks[i as int],
                    phase == self.id.value(),
                    !is_blank(tasks[i as int].id_spec()),
                    !is_blank(tasks[i as int].kind_spec()),
                    forall|m: int| 0 <= m < i ==> #[trigger] task_ok(tasks, m),
                    forall|m: int| 0 <= m < j ==> (#[trigger] tasks[m]).id_spec() != tasks[i as int].id_spec(),
                decreases i - j,
            {
                if self.tasks[j].key.task_id().same_text(t.key.task_id()) {
                    proof {
                        assert(tasks[j as int].id_spec() == tasks[i as int].id_spec());
                        assert(!task_ok(tasks, i as int));
                        lemma_first_bad_task(tasks, i as int);
                    }
                    return Err(ReportingError::DuplicateManagedTaskId { phase, task: t.id().to_owned() });
                }
                j = j + 1;
            }
            proof {
                assert(task_ok(tasks, i as int));
            }
            i = i + 1;
        }
        Ok(())
    }

    /// Checks that no dependency names the phase itself or repeats.
    fn check_dependencies(&self) -> (r: Result<(), ReportingError>)
        ensures
            r is Ok <==> dependencies_ok(self.view().dependencies, self.view().id),
            r matches Err(e) ==> (e matches ReportingError::PhaseDependencyCycle { phase: p }
                && p == self.view().id.value()),
    {
        let ghost deps = self.dependencies@;
        let mut i: usize = 0;
        while i < self.dependencies.len()
            invariant
                i <= deps.len(),
                deps == self.dependencies@,
                forall|j: int| 0 <= j < i ==> #[trigger] dependency_ok(deps, self.id, j),
            decreases deps.len() - i,
        {
            let d = self.dependencies[i];
            if d == self.id {
                proof {
                    assert(!dependency_ok(deps, self.id, i as int));
                }
                return Err(ReportingError::PhaseDependencyCycle { phase: self.id.get() });
            }
            let mut j: usize = 0;
            while j < i
                invariant
                    j <= i < deps.len(),
                    deps == self.dependencies@,
                    d == deps[i as int],
                    forall|m: int| 0 <= m < j ==> #[trigger] deps[m] != deps[i as int],
                decreases i - j,
            {
                if self.dependencies[j] == d {
                    proof {
                        assert(!dependency_ok(deps, self.id, i as int));
                    }
                    return Err(ReportingError::PhaseDependencyCycle { phase: self.id.get() });
                }
                j = j + 1;
            }
            proof {
                assert(dependency_ok(deps, self.id, i as int));
            }
            i = i + 1;
        }
        Ok(())
    }

    /// Checks the display-key requests in order: each must name a kind some
    /// task has.
    fn check_requests(&self) -> (r: Result<(), ReportingError>)
        ensures
            ({
                let v = self.view();
                &&& r is Ok <==> requests_known(v.tasks, v.display_by_kind)
                &&& forall|k: int| #[trigger] first_unknown_request(v.tasks, v.display_by_kind, k)
                    ==> (r matches Err(ReportingError::UnknownManagedTaskKind { kind }) && kind@ == v.display_by_kind[k].0@)
            }),
    {
        let ghost tasks = self.tasks@;
        let ghost by_kind = self.display_by_kind@;
        let mut k: usize = 0;
        while k < self.display_by_kind.len()
            invariant
                k <= by_kind.len(),
                tasks == self.tasks@,
                by_kind == self.display_by_kind@,
                forall|j: int| 0 <= j < k ==> #[trigger] has_kind(tasks, by_kind[j].0@),
            decreases by_kind.len() - k,
        {
            let kind = &self.display_by_kind[k].0;
            let mut i: usize = 0;
            let mut found = false;
            while i < self.tasks.len() && !found
                invariant
                    i <= tasks.len(),
                    tasks == self.tasks@,
                    found ==> has_kind(tasks, kind@),
                    !found ==> forall|m: int| 0 <= m < i ==> (#[trigger] tasks[m]).kind_spec() != kind@,
                decreases tasks.len() - i, if found { 0int } else { 1int },
            {
                if self.tasks[i].kind == *kind {
                    assert(tasks[i as int].kind_spec() == kind@);
                    found = true;
                } else {
                    i = i + 1;
                }
            }
            if !found {
                proof {
                    assert(!has_kind(tasks, by_kind[k as int].0@));
                    lemma_first_unknown_request(tasks, by_kind, k as int);
                }
                return Err(ReportingError::UnknownManagedTaskKind { kind: kind.clone() });
            }
            k = k + 1;
        }
        Ok(())
    }

    /// Validates the declaration and creates the immutable phase; a timing
    /// setting the clock cannot represent as a deadline from now is rejected.
    pub fn build(self) -> (r: Result<Phase, ReportingError>)
        requires
            self.wf(),
        ensures
            exists|representable: (bool, bool, bool)| #[trigger] built_as(self.view(), representable, r)
                && clock_answer(self.view().delay_per_task_ns, representable.0)
                && clock_answer(self.view().task_timeout_ns, representable.1)
                && clock_answer(self.view().deadline_after_ns, representable.2),
    {
        let delay = clock_represents(self.delay_per_task_ns);
        let timeout = clock_represents(self.task_timeout_ns);
        let deadline = clock_represents(self.deadline_after_ns);
        let ghost v = self.view();
        let r = self.build_given((delay, timeout, deadline));
        assert(built_as(v, (delay, timeout, deadline), r));
        r
    }
}

impl Phase {
    /// What the phase holds.
    pub closed spec fn view(&self) -> PhaseView {
        PhaseView {
            id: self.id,
            label: self.label@,
            tasks: self.tasks@,
            max_active_tasks: self.max_active_tasks,
            queue_capacity: self.prepared_task_queue_capacity,
            delay_per_task_ns: self.delay_per_task_ns,
            task_timeout_ns: self.task_timeout_ns,
            deadline_after_ns: self.deadline_after_ns,
            dependencies: self.dependencies@,
            failure_policy: self.failure_policy,
            require_confirm: self.require_confirm,
        }
    }

    /// A built phase: a nonblank label, at least one task, nonzero ceilings
    /// and timings, valid tasks of this phase with distinct IDs, and valid
    /// dependencies.
    pub open spec fn wf(&self) -> bool {
        let v = self.view();
        &&& !is_blank(v.label)
        &&& v.tasks.len() > 0
        &&& v.max_active_tasks > 0
        &&& v.queue_capacity > 0
        &&& timing_ok(v.delay_per_task_ns, true)
        &&& timing_ok(v.task_timeout_ns, true)
        &&& timing_ok(v.deadline_after_ns, true)
        &&& tasks_ok(v.tasks)
        &&& forall|i: int| 0 <= i < v.tasks.len() ==> (#[trigger] v.tasks[i]).phase_spec() == v.id.value()
        &&& dependencies_ok(v.dependencies, v.id)
    }

    /// Begins declaring a phase; tasks must be added before it is built.
    pub fn builder(id: PhaseId, label: String) -> (r: PhaseBuilder)
        ensures
            r.wf(),
            r.view() == (BuilderView {
                id,
                label: label@,
                tasks: Seq::empty(),
                display_by_kind: Seq::empty(),
                max_active_tasks: 1,
                queue_capacity: 1,
                delay_per_task_ns: None,
                task_timeout_ns: None,
                deadline_after_ns: None,
                dependencies: Seq::empty(),
                failure_policy: PhaseFailurePolicy::FailFast,
                require_confirm: false,
            }),
    {
        PhaseBuilder::new(id, label)
    }

    /// Returns the stable phase identity.
    pub fn id(&self) -> (r: PhaseId)
        ensures r == self.view().id,
    {
        self.id
    }

    /// Returns the phase heading.
    pub fn label(&self) -> (r: &str)
        ensures r@ == self.view().label,
    {
        self.label.as_str()
    }

    /// Returns every task in display and execution order.
    pub fn tasks(&self) -> (r: &[Task])
        ensures r@ == self.view().tasks,
    {
        self.tasks.as_slice()
    }

    /// Returns the concurrent workload ceiling.
    pub fn max_active_tasks(&self) -> (r: usize)
        ensures r == self.view().max_active_tasks,
    {
        self.max_active_tasks
    }

    /// Returns the prepared-but-not-running workload ceiling.
    pub fn prepared_task_queue_capacity(&self) -> (r: usize)
        ensures r == self.view().queue_capacity,
    {
        self.prepared_task_queue_capacity
    }

    /// Returns the minimum interval between consecutive task starts.
    pub fn delay_per_task(&self) -> (r: Option<u128>)
        ensures r == self.view().delay_per_task_ns,
    {
        self.delay_per_task_ns
    }

    /// Returns the running-time limit of each task.
    pub fn task_timeout(&self) -> (r: Option<u128>)
        ensures r == self.view().task_timeout_ns,
    {
        self.task_timeout_ns
    }

    /// Returns the phase deadline measured from the phase start.
    pub fn deadline_after(&self) -> (r: Option<u128>)
        ensures r == self.view().deadline_after_ns,
    {
        self.deadline_after_ns
    }

    /// Returns the predecessor phases in declaration order.
    pub fn dependencies(&self) -> (r: &[PhaseId])
        ensures r@ == self.view().dependencies,
    {
        self.dependencies.as_slice()
    }

    /// Returns the reaction to the first failure.
    pub fn failure_policy(&self) -> (r: PhaseFailurePolicy)
        ensures r == self.view().failure_policy,
    {
        self.failure_policy
    }

    /// Whether successful completion waits for confirmation before the next
    /// phase starts.
    pub fn requires_confirmation(&self) -> (r: bool)
        ensures r == self.view().require_confirm,
    {
        self.require_confirm
    }

    /// Returns the first task with `id`.
    pub fn task(&self, id: &TaskId) -> (r: Option<&Task>)
        ensures
            r is None <==> forall|i: int| 0 <= i < self.view().tasks.len()
                ==> (#[trigger] self.view().tasks[i]).id_spec() != id.text(),
            r matches Some(t) ==> exists|i: int| 0 <= i < self.view().tasks.len()
                && #[trigger] self.view().tasks[i] == *t && t.id_spec() == id.text()
                && forall|j: int| 0 <= j < i ==> (#[trigger] self.view().tasks[j]).id_spec() != id.text(),
    {
        let mut i: usize = 0;
        while i < self.tasks.len()
            invariant
                i <= self.tasks@.len(),
                forall|j: int| 0 <= j < i ==> (#[trigger] self.tasks@[j]).id_spec() != id.text(),
            decreases self.tasks@.len() - i,
        {
            if self.tasks[i].key.task_id().same_text(id) {
                assert(self.view().tasks[i as int].id_spec() == id.text());
                return Some(&self.tasks[i]);
            }
            i = i + 1;
        }
        None
    }
}

} // verus!
