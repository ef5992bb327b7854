//! Progress registries built from a project configuration: every generated
//! task is identified by the values of a chosen tuple of parameters, and the
//! identity becomes the task's label.
use vstd::prelude::*;
use vstd::string::StringExecFns;
use crate::text::string_views;
use crate::runtime::phase_builder::{ParameterValue, value_json, param_of, find_param};
use crate::runtime::selector::comma_joined;
use super::error::ReportingError;
use super::progress::{
    ProgressReporterBuilder, RegisteredProgress, RegisteredProgressReporterBuilder, SlotView, TaskStatus, find_label,
    labels_distinct,
};

verus! {

/// One generated task of a configuration: its ordinal and its parameters.
pub struct ConfiguredTask {
    /// Zero-based position of the task in the configuration.
    pub ordinal: u64,
    /// Parameter names and values of the task.
    pub parameters: Vec<(String, ParameterValue)>,
}

/// The parameters a configuration declares, and the swept ones among them.
pub struct ParameterDeclarations {
    /// Every declared parameter name.
    pub names: Vec<String>,
    /// The names of the swept parameters, in declaration order.
    pub swept: Vec<String>,
}

/// Identity key `i` repeats an earlier key.
pub open spec fn key_repeated(keys: Seq<Seq<char>>, i: int) -> bool {
    exists|j: int| 0 <= j < i && keys[j] == keys[i]
}

/// Identity key `i` is acceptable: it is new and names a parameter.
pub open spec fn key_accepted(keys: Seq<Seq<char>>, names: Seq<Seq<char>>, i: int) -> bool {
    !key_repeated(keys, i) && names.contains(keys[i])
}

/// Key `i` is the first rejected one.
pub open spec fn first_rejected(keys: Seq<Seq<char>>, names: Seq<Seq<char>>, i: int) -> bool {
    &&& 0 <= i < keys.len()
    &&& forall|k: int| 0 <= k < i ==> #[trigger] key_accepted(keys, names, k)
    &&& !key_accepted(keys, names, i)
}

/// The identity keys in force: the requested ones, or else the swept ones.
pub open spec fn chosen_keys(declarations: ParameterDeclarations, requested: Option<Vec<String>>) -> Seq<Seq<char>> {
    match requested {
        Some(keys) => string_views(keys@),
        None => string_views(declarations.swept@),
    }
}

/// Whether `names` holds `key`.
fn contains_name(names: &Vec<String>, key: &String) -> (r: bool)
    ensures
        r == string_views(names@).contains(key@),
{
    let ghost ns = string_views(names@);
    let mut i: usize = 0;
    while i < names.len()
        invariant
            ns == string_views(names@),
            i <= names@.len(),
            forall|k: int| 0 <= k < i ==> ns[k] != key@,
        decreases names@.len() - i,
    {
        assert(ns[i as int] == names@[i as int]@);
        if names[i] == *key {
            return true;
        }
        i = i + 1;
    }
    false
}

/// Validates the identity keys: the requested keys, or else the swept
/// parameters. The first key that repeats an earlier one, or else names no
/// declared parameter, is rejected.
pub fn identity_keys(declarations: &ParameterDeclarations, requested: Option<Vec<String>>) -> (r: Result<Vec<String>, ReportingError>)
    ensures
        ({
            let keys = chosen_keys(*declarations, requested);
            let names = string_views(declarations.names@);
            &&& r is Ok <==> forall|i: int| 0 <= i < keys.len() ==> #[trigger] key_accepted(keys, names, i)
            &&& r matches Ok(v) ==> string_views(v@) == keys
            &&& r matches Err(e) ==> exists|i: int| #[trigger] first_rejected(keys, names, i)
                && (if key_repeated(keys, i) {
                    e matches ReportingError::DuplicateIdentityParameter { key } && key@ == keys[i]
                } else {
                    e matches ReportingError::UnknownIdentityParameter { key } && key@ == keys[i]
                })
        }),
{
    let ghost chosen = chosen_keys(*declarations, requested);
    let keys = match requested {
        Some(keys) => keys,
        None => declarations.swept.clone(),
    };
    let ghost ks = string_views(keys@);
    let ghost names = string_views(declarations.names@);
    assert(ks == chosen);
    let mut i: usize = 0;
    while i < keys.len()
        invariant
            ks == string_views(keys@),
            ks == chosen,
            chosen == chosen_keys(*declarations, requested),
            names == string_views(declarations.names@),
            i <= keys@.len(),
            forall|k: int| 0 <= k < i ==> #[trigger] key_accepted(ks, names, k),
        decreases keys@.len() - i,
    {
        let mut j: usize = 0;
        while j < i
            invariant
                ks == string_views(keys@),
                ks == chosen,
                chosen == chosen_keys(*declarations, requested),
                names == string_views(declarations.names@),
                i < keys@.len(),
                j <= i,
                forall|k: int| 0 <= k < j ==> ks[k] != ks[i as int],
                forall|k: int| 0 <= k < i ==> #[trigger] key_accepted(ks, names, k),
            decreases i - j,
        {
            assert(ks[j as int] == keys@[j as int]@ && ks[i as int] == keys@[i as int]@);
            if keys[j] == keys[i] {
                proof {
                    assert(key_repeated(ks, i as int));
                    assert(first_rejected(ks, names, i as int));
                }
                return Err(ReportingError::DuplicateIdentityParameter { key: keys[i].clone() });
            }
            j = j + 1;
        }
        assert(!key_repeated(ks, i as int));
        assert(ks[i as int] == keys@[i as int]@);
        if !contains_name(&declarations.names, &keys[i]) {
            proof {
                assert(first_rejected(ks, names, i as int));
            }
            return Err(ReportingError::UnknownIdentityParameter { key: keys[i].clone() });
        }
        i = i + 1;
    }
    Ok(keys)
}

/// One field of an identity: `key=` and the value's JSON text.
pub open spec fn identity_part(params: Seq<(String, ParameterValue)>, key: Seq<char>) -> Seq<char> {
    key + "="@ + value_json(param_of(params, key)->0)
}

/// The identity of a task: its fields joined by commas, or `task` when no
/// key is chosen.
pub open spec fn identity_spec(params: Seq<(String, ParameterValue)>, keys: Seq<Seq<char>>) -> Seq<char> {
    if keys.len() == 0 {
        "task"@
    } else {
        comma_joined(keys.map_values(|k: Seq<char>| identity_part(params, k)))
    }
}

/// Joining one more field.
proof fn lemma_comma_joined_push(parts: Seq<Seq<char>>, x: Seq<char>)
    ensures
        comma_joined(parts.push(x)) == if parts.len() == 0 { x } else { comma_joined(parts) + ", "@ + x },
{
    assert(parts.push(x).drop_last() =~= parts);
}

/// The JSON text of a value.
fn json_of(value: &ParameterValue) -> (r: &String)
    ensures
        r@ == value_json(*value),
{
    match value {
        ParameterValue::Scalar { json } => json,
        ParameterValue::Array { json, .. } => json,
        ParameterValue::Object { json, .. } => json,
    }
}

/// Renders the identity of a task with parameters `params` under `keys`.
pub fn render_identity(params: &Vec<(String, ParameterValue)>, keys: &Vec<String>) -> (r: String)
    requires
        forall|k: int| 0 <= k < keys@.len() ==> param_of(params@, #[trigger] keys@[k]@) is Some,
    ensures
        r@ == identity_spec(params@, string_views(keys@)),
{
    if keys.len() == 0 {
        return "task".to_owned();
    }
    let ghost ks = string_views(keys@);
    let ghost parts = ks.map_values(|k: Seq<char>| identity_part(params@, k));
    let mut out = String::new();
    let mut i: usize = 0;
    while i < keys.len()
        invariant
            i <= keys@.len(),
            ks == string_views(keys@),
            parts == ks.map_values(|k: Seq<char>| identity_part(params@, k)),
            out@ == comma_joined(parts.take(i as int)),
            forall|k: int| 0 <= k < keys@.len() ==> param_of(params@, #[trigger] keys@[k]@) is Some,
        decreases keys@.len() - i,
    {
        let ghost prefix = parts.take(i as int);
        proof {
            assert(parts.take(i as int + 1) =~= prefix.push(parts[i as int]));
            lemma_comma_joined_push(prefix, parts[i as int]);
        }
        if i > 0 {
            out.append(", ");
        }
        let key = &keys[i];
        out.append(key.as_str());
        out.append("=");
        let value = match find_param(params, key.as_str()) {
            Some(v) => v,
            None => vstd::pervasive::unreached(),
        };
        out.append(json_of(value).as_str());
        assert(out@ =~= comma_joined(parts.take(i as int + 1)));
        i = i + 1;
    }
    proof {
        assert(parts.take(keys@.len() as int) =~= parts);
    }
    out
}

/// The identities of `tasks` under `keys`, in task order.
pub open spec fn identities(tasks: Seq<ConfiguredTask>, keys: Seq<Seq<char>>) -> Seq<Seq<char>> {
    tasks.map_values(|t: ConfiguredTask| identity_spec(t.parameters@, keys))
}

/// Every chosen key resolves in every task.
pub open spec fn keys_resolve(tasks: Seq<ConfiguredTask>, keys: Seq<String>) -> bool {
    forall|t: int, k: int| 0 <= t < tasks.len() && 0 <= k < keys.len()
        ==> param_of(#[trigger] tasks[t].parameters@, #[trigger] keys[k]@) is Some
}

/// A registry whose tasks are the generated tasks of a configuration,
/// identified by the values of the chosen keys.
pub struct ConfiguredProgress {
    progress: RegisteredProgress,
    keys: Vec<String>,
    fields: Vec<Vec<(String, ParameterValue)>>,
}

impl ConfiguredProgress {
    /// The lifecycle registry, one slot per task in ordinal order.
    pub closed spec fn progress_spec(&self) -> RegisteredProgress {
        self.progress
    }

    /// The identity keys.
    pub closed spec fn keys_spec(&self) -> Seq<Seq<char>> {
        string_views(self.keys@)
    }

    /// The identity values of slot `i`, by key: the JSON text of each.
    pub closed spec fn fields_spec(&self, i: int) -> Seq<Seq<char>> {
        self.fields@[i]@.map_values(|f: (String, ParameterValue)| value_json(f.1))
    }

    /// One field list per slot, one field per key, and distinct labels.
    pub open spec fn wf(&self) -> bool {
        &&& forall|i: int| 0 <= i < self.progress_spec().slots_spec().len()
            ==> (#[trigger] self.fields_spec(i)).len() == self.keys_spec().len()
        &&& self.fields_count() == self.progress_spec().slots_spec().len()
        &&& labels_distinct(self.progress_spec().slots_spec().map_values(|s: SlotView| s.label))
    }

    /// The number of field lists.
    pub closed spec fn fields_count(&self) -> nat {
        self.fields@.len()
    }

    /// `task` carries, for every identity key, the value registered in slot `i`.
    pub open spec fn matches_slot(&self, task: ConfiguredTask, i: int) -> bool {
        forall|k: int| 0 <= k < self.keys_spec().len() ==>
            param_of(task.parameters@, #[trigger] self.keys_spec()[k]) is Some
            && value_json(param_of(task.parameters@, self.keys_spec()[k])->0) == self.fields_spec(i)[k]
    }

    /// The registry.
    pub fn progress(&self) -> (r: &RegisteredProgress)
        ensures
            *r == self.progress_spec(),
    {
        &self.progress
    }

    /// Registers the generated `tasks`, which the configuration lists in
    /// ordinal order, identified by `keys`. The first task whose identity
    /// repeats an earlier task's is rejected, naming both ordinals.
    pub fn build(tasks: &Vec<ConfiguredTask>, keys: Vec<String>) -> (r: Result<Self, ReportingError>)
        requires
            keys_resolve(tasks@, keys@),
        ensures
            ({
                let ids = identities(tasks@, string_views(keys@));
                &&& r is Ok <==> labels_distinct(ids)
                &&& r matches Ok(c) ==> {
                    &&& c.wf()
                    &&& c.keys_spec() == string_views(keys@)
                    &&& c.progress_spec().slots_spec().len() == ids.len()
                    &&& forall|i: int| 0 <= i < ids.len() ==> {
                        &&& (#[trigger] c.progress_spec().slots_spec()[i]).label == ids[i]
                        &&& c.progress_spec().slots_spec()[i].status == TaskStatus::Pending
                        &&& c.fields_spec(i) == string_views(keys@).map_values(
                            |k: Seq<char>| value_json(param_of(tasks@[i].parameters@, k)->0))
                    }
                }
                &&& r matches Err(e) ==> exists|i: int, j: int| 0 <= i < j < ids.len()
                    && #[trigger] ids[i] == #[trigger] ids[j]
                    && labels_distinct(ids.take(j))
                    && (e matches ReportingError::NonUniqueTaskIdentity { identity, first_ordinal, second_ordinal }
                        && identity@ == ids[j] && first_ordinal == tasks@[i].ordinal
                        && second_ordinal == tasks@[j].ordinal)
            }),
    {
        let ghost ks = string_views(keys@);
        let ghost ids = identities(tasks@, ks);
        let mut labels: Vec<String> = Vec::new();
        let mut fields: Vec<Vec<(String, ParameterValue)>> = Vec::new();
        let mut t: usize = 0;
        while t < tasks.len()
            invariant
                ks == string_views(keys@),
                ids == identities(tasks@, ks),
                keys_resolve(tasks@, keys@),
                t <= tasks@.len(),
                labels@.len() == t,
                fields@.len() == t,
                string_views(labels@) == ids.take(t as int),
                labels_distinct(ids.take(t as int)),
                forall|i: int| 0 <= i < t ==> (#[trigger] fields@[i])@.map_values(
                    |f: (String, ParameterValue)| value_json(f.1))
                    == ks.map_values(|k: Seq<char>| value_json(param_of(tasks@[i].parameters@, k)->0)),
            decreases tasks@.len() - t,
        {
            let params = &tasks[t].parameters;
            proof {
                assert forall|k: int| 0 <= k < keys@.len() implies param_of(params@, #[trigger] keys@[k]@) is Some by {
                    assert(param_of(tasks@[t as int].parameters@, keys@[k]@) is Some);
                }
            }
            let label = render_identity(params, &keys);
            assert(label@ == ids[t as int]);
            let mut j: usize = 0;
            while j < t
                invariant
                    ks == string_views(keys@),
                    ids == identities(tasks@, ks),
                    labels_distinct(ids.take(t as int)),
                    t < tasks@.len(),
                    j <= t,
                    labels@.len() == t,
                    string_views(labels@) == ids.take(t as int),
                    label@ == ids[t as int],
                    forall|k: int| 0 <= k < j ==> ids[k] != ids[t as int],
                decreases t - j,
            {
                assert(string_views(labels@)[j as int] == labels@[j as int]@);
                if labels[j] == label {
                    proof {
                        assert(ids[j as int] == ids[t as int]);
                    }
                    return Err(ReportingError::NonUniqueTaskIdentity {
                        identity: label,
                        first_ordinal: tasks[j].ordinal,
                        second_ordinal: tasks[t].ordinal,
                    });
                }
                j = j + 1;
            }
            let selected = Self::select_fields(params, &keys);
            proof {
                assert(ids.take(t as int + 1) =~= ids.take(t as int).push(ids[t as int]));
                assert forall|a: int, b: int| 0 <= a < b < ids.take(t as int + 1).len()
                    implies #[trigger] ids.take(t as int + 1)[a] != #[trigger] ids.take(t as int + 1)[b] by {
                    if b < t {
                        assert(ids.take(t as int)[a] != ids.take(t as int)[b]);
                    }
                }
            }
            labels.push(label);
            fields.push(selected);
            proof {
                assert(string_views(labels@) =~= ids.take(t as int + 1));
            }
            t = t + 1;
        }
        proof {
            assert(ids.take(tasks@.len() as int) =~= ids);
        }
        let progress = match RegisteredProgressReporterBuilder::for_registered_tasks(labels).build_registry() {
            Ok(progress) => progress,
            Err(_) => vstd::pervasive::unreached(),
        };
        let out = ConfiguredProgress { progress, keys, fields };
        proof {
            assert forall|i: int| 0 <= i < out.progress_spec().slots_spec().len()
                implies (#[trigger] out.fields_spec(i)).len() == out.keys_spec().len() by {
                assert(out.fields_spec(i) == ks.map_values(|k: Seq<char>| value_json(param_of(tasks@[i].parameters@, k)->0)));
            }
            let ls = out.progress_spec().slots_spec().map_values(|s: SlotView| s.label);
            assert(ls =~= ids);
        }
        Ok(out)
    }

    /// The fields of `params` under `keys`, in key order.
    fn select_fields(params: &Vec<(String, ParameterValue)>, keys: &Vec<String>) -> (r: Vec<(String, ParameterValue)>)
        requires
            forall|k: int| 0 <= k < keys@.len() ==> param_of(params@, #[trigger] keys@[k]@) is Some,
        ensures
            r@.map_values(|f: (String, ParameterValue)| value_json(f.1))
                == string_views(keys@).map_values(|k: Seq<char>| value_json(param_of(params@, k)->0)),
    {
        let ghost ks = string_views(keys@);
        let mut out: Vec<(String, ParameterValue)> = Vec::new();
        let mut i: usize = 0;
        while i < keys.len()
            invariant
                i <= keys@.len(),
                ks == string_views(keys@),
                out@.len() == i,
                forall|k: int| 0 <= k < keys@.len() ==> param_of(params@, #[trigger] keys@[k]@) is Some,
                forall|k: int| 0 <= k < i ==> value_json((#[trigger] out@[k]).1) == value_json(param_of(params@, ks[k])->0),
            decreases keys@.len() - i,
        {
            let value = match find_param(params, keys[i].as_str()) {
                Some(v) => v.clone(),
                None => vstd::pervasive::unreached(),
            };
            out.push((keys[i].clone(), value));
            i = i + 1;
        }
        assert(out@.map_values(|f: (String, ParameterValue)| value_json(f.1))
            =~= ks.map_values(|k: Seq<char>| value_json(param_of(params@, k)->0)));
        out
    }

    /// The slot of `task`: the slot at its ordinal, provided the task's
    /// values of the identity keys are those registered there.
    pub fn slot_for(&self, task: &ConfiguredTask) -> (r: Result<usize, ReportingError>)
        requires
            self.wf(),
        ensures
            ({
                let n = self.progress_spec().slots_spec().len();
                let i = task.ordinal as int;
                let matches = self.matches_slot(*task, i);
                &&& i >= n ==> (r matches Err(ReportingError::UnknownTaskOrdinal { task_ordinal }) && task_ordinal == task.ordinal)
                &&& i < n && !matches ==> (r matches Err(ReportingError::TaskIdentityMismatch { task_ordinal }) && task_ordinal == task.ordinal)
                &&& i < n && matches ==> r == Ok::<usize, ReportingError>(i as usize)
                &&& r matches Ok(x) ==> x as int == i
            }),
    {
        let n = self.progress.len();
        if task.ordinal >= n as u64 {
            return Err(ReportingError::UnknownTaskOrdinal { task_ordinal: task.ordinal });
        }
        let i = task.ordinal as usize;
        let ghost ks = self.keys_spec();
        let ghost fs = self.fields_spec(i as int);
        assert(fs.len() == ks.len());
        let fields = &self.fields[i];
        let mut k: usize = 0;
        while k < self.keys.len()
            invariant
                ks == string_views(self.keys@),
                ks == self.keys_spec(),
                i as int == task.ordinal,
                (i as int) < self.progress_spec().slots_spec().len(),
                fs == self.fields_spec(i as int),
                fs == fields@.map_values(|f: (String, ParameterValue)| value_json(f.1)),
                fs.len() == ks.len(),
                k <= ks.len(),
                forall|q: int| 0 <= q < k ==>
                    param_of(task.parameters@, #[trigger] ks[q]) is Some
                    && value_json(param_of(task.parameters@, ks[q])->0) == fs[q],
            decreases ks.len() - k,
        {
            assert(ks[k as int] == self.keys@[k as int]@);
            assert(fs[k as int] == value_json(fields@[k as int].1));
            match find_param(&task.parameters, self.keys[k].as_str()) {
                Some(v) => {
                    if !v.same_value(&fields[k].1) {
                        proof {
                            assert(value_json(param_of(task.parameters@, ks[k as int])->0) != fs[k as int]);
                            assert(!self.matches_slot(*task, i as int));
                        }
                        return Err(ReportingError::TaskIdentityMismatch { task_ordinal: task.ordinal });
                    }
                },
                None => {
                    proof {
                        assert(param_of(task.parameters@, ks[k as int]) is None);
                        assert(!self.matches_slot(*task, i as int));
                    }
                    return Err(ReportingError::TaskIdentityMismatch { task_ordinal: task.ordinal });
                },
            }
            k = k + 1;
        }
        Ok(i)
    }

    /// Starts the progress of `task` at `initial_iteration`, toward
    /// `target_iteration` when it is known, and returns its slot. An
    /// ordinal outside the registry, identity values other than the
    /// registered ones, an initial iteration beyond the target, and a task
    /// that already started are rejected, in that order, without change.
    pub fn start_task(&mut self, task: &ConfiguredTask, initial_iteration: u64, target_iteration: Option<u64>)
        -> (r: Result<usize, ReportingError>)
        requires
            old(self).wf(),
        ensures
            final(self).wf(),
            final(self).keys_spec() == old(self).keys_spec(),
            ({
                let slots = old(self).progress_spec().slots_spec();
                let i = task.ordinal as int;
                &&& r is Err ==> final(self).progress_spec().slots_spec() == slots
                &&& i >= slots.len() ==> (r matches Err(ReportingError::UnknownTaskOrdinal { task_ordinal })
                    && task_ordinal == task.ordinal)
                &&& i < slots.len() && !old(self).matches_slot(*task, i)
                    ==> (r matches Err(ReportingError::TaskIdentityMismatch { task_ordinal }) && task_ordinal == task.ordinal)
                &&& i < slots.len() && old(self).matches_slot(*task, i) ==> {
                    let s = slots[i];
                    let beyond = target_iteration matches Some(t) && initial_iteration > t;
                    &&& beyond ==> (r matches Err(ReportingError::InitialIterationBeyondTarget { identity, initial, target })
                        && identity@ == s.label && initial == initial_iteration && Some(target) == target_iteration)
                    &&& !beyond && s.status != TaskStatus::Pending
                        ==> (r matches Err(ReportingError::TaskAlreadyStarted { identity }) && identity@ == s.label)
                    &&& !beyond && s.status == TaskStatus::Pending ==> r == Ok::<usize, ReportingError>(i as usize)
                        && final(self).progress_spec().slots_spec() == slots.update(i, SlotView {
                            status: TaskStatus::Running,
                            current: initial_iteration,
                            target: target_iteration,
                            detail: "running"@,
                            ..s
                        })
                }
            }),
    {
        let i = self.slot_for(task)?;
        let label = self.progress.label(i).to_owned();
        proof {
            let slots = self.progress_spec().slots_spec();
            let ls = slots.map_values(|s: SlotView| s.label);
            assert(ls[i as int] == slots[i as int].label);
            assert forall|k: int| 0 <= k < i implies #[trigger] slots[k].label != label@ by {
                assert(ls[k] == slots[k].label);
            }
            assert(find_label(slots, label@) == Some(i as int));
        }
        let ghost before = self.progress_spec().slots_spec();
        assert(find_label(before, label@) == Some(i as int));
        assert(before == old(self).progress_spec().slots_spec());
        assert(i as int == task.ordinal);
        let started = self.progress.start_registered_task(label.as_str(), initial_iteration, target_iteration);
        proof {
            let after = self.progress_spec().slots_spec();
            assert(after.len() == before.len());
            assert(after.map_values(|s: SlotView| s.label) =~= before.map_values(|s: SlotView| s.label));
            assert forall|k: int| 0 <= k < after.len() implies (#[trigger] self.fields_spec(k)).len() == self.keys_spec().len() by {
                assert(self.fields_spec(k) == old(self).fields_spec(k));
            }
        }
        started
    }
}

/// Every task of a configuration carries every declared parameter.
pub open spec fn tasks_cover(tasks: Seq<ConfiguredTask>, names: Seq<String>) -> bool {
    forall|t: int, n: int| 0 <= t < tasks.len() && 0 <= n < names.len()
        ==> param_of(#[trigger] tasks[t].parameters@, #[trigger] names[n]@) is Some
}

/// The identity keys a builder selects: its own, or else the swept ones.
pub open spec fn builder_keys(selected: Option<Seq<Seq<char>>>, declarations: ParameterDeclarations) -> Seq<Seq<char>> {
    match selected {
        Some(keys) => keys,
        None => string_views(declarations.swept@),
    }
}

/// Registers the generated `tasks` of a configuration, identified by the
/// keys the builder selected or else by the swept parameters. The keys are
/// validated first; then the first task whose identity repeats an earlier
/// one is rejected.
pub fn build_configured(
    builder: &ProgressReporterBuilder,
    declarations: &ParameterDeclarations,
    tasks: &Vec<ConfiguredTask>,
) -> (r: Result<ConfiguredProgress, ReportingError>)
    requires
        tasks_cover(tasks@, declarations.names@),
    ensures
        ({
            let keys = builder_keys(builder.identity_keys_spec(), *declarations);
            let names = string_views(declarations.names@);
            let accepted = forall|i: int| 0 <= i < keys.len() ==> #[trigger] key_accepted(keys, names, i);
            let ids = identities(tasks@, keys);
            &&& !accepted ==> (r matches Err(e) && exists|i: int| #[trigger] first_rejected(keys, names, i)
                && (if key_repeated(keys, i) {
                    e matches ReportingError::DuplicateIdentityParameter { key } && key@ == keys[i]
                } else {
                    e matches ReportingError::UnknownIdentityParameter { key } && key@ == keys[i]
                }))
            &&& accepted ==> {
                &&& r is Ok <==> labels_distinct(ids)
                &&& r matches Ok(c) ==> {
                    &&& c.wf()
                    &&& c.keys_spec() == keys
                    &&& c.progress_spec().slots_spec().len() == ids.len()
                    &&& forall|i: int| 0 <= i < ids.len() ==> {
                        &&& (#[trigger] c.progress_spec().slots_spec()[i]).label == ids[i]
                        &&& c.progress_spec().slots_spec()[i].status == TaskStatus::Pending
                    }
                }
                &&& r matches Err(e) ==> exists|i: int, j: int| 0 <= i < j < ids.len()
                    && #[trigger] ids[i] == #[trigger] ids[j]
                    && labels_distinct(ids.take(j))
                    && (e matches ReportingError::NonUniqueTaskIdentity { identity, first_ordinal, second_ordinal }
                        && identity@ == ids[j] && first_ordinal == tasks@[i].ordinal
                        && second_ordinal == tasks@[j].ordinal)
            }
        }),
{
    let requested = builder.selected_keys();
    let keys = identity_keys(declarations, requested)?;
    proof {
        let names = string_views(declarations.names@);
        assert forall|t: int, k: int| 0 <= t < tasks@.len() && 0 <= k < keys@.len()
            implies param_of(#[trigger] tasks@[t].parameters@, #[trigger] keys@[k]@) is Some by {
            assert(key_accepted(string_views(keys@), names, k));
            assert(string_views(keys@)[k] == keys@[k]@);
            let n = choose|n: int| 0 <= n < names.len() && names[n] == keys@[k]@;
            assert(names[n] == declarations.names@[n]@);
        }
    }
    ConfiguredProgress::build(tasks, keys)
}

} // verus!
