//! Exact partial selection of one task of a phase.
use vstd::prelude::*;
use vstd::string::StringExecFns;
use crate::text::{append_decimal, decimal_spec};
use super::phase::PhaseId;
use super::phase_builder::{
    ParameterValue, Phase, Task, value_json, value_text, compact_spec, append_compact_value, keys_distinct,
};
use crate::reporting::error::ReportingError;

verus! {

/// Exact partial selector over phase, task kind, and parameters.
#[derive(Debug)]
pub struct TaskSelector {
    phase: Option<PhaseId>,
    kind: Option<String>,
    parameters: Vec<(String, ParameterValue)>,
}

/// What a selector constrains.
pub struct SelectorView {
    /// The phase, if constrained.
    pub phase: Option<PhaseId>,
    /// The kind, if constrained.
    pub kind: Option<Seq<char>>,
    /// Exact parameter values, one per key, in the order first constrained.
    pub parameters: Seq<(String, ParameterValue)>,
}

/// Task `t` satisfies every constraint of `sel`.
pub open spec fn selects(sel: SelectorView, t: Task) -> bool {
    &&& sel.phase matches Some(p) ==> t.phase_spec() == p.value()
    &&& sel.kind matches Some(k) ==> t.kind_spec() == k
    &&& forall|i: int| 0 <= i < sel.parameters.len()
        ==> #[trigger] value_text(t, sel.parameters[i].0@) == Some(value_json(sel.parameters[i].1))
}

/// The text of each constraint: `phase=N`, `kind=K`, then `key=value` for
/// each parameter.
pub open spec fn selector_fields(sel: SelectorView) -> Seq<Seq<char>> {
    (match sel.phase {
        Some(p) => seq!["phase="@ + decimal_spec(p.value() as nat)],
        None => Seq::empty(),
    }) + (match sel.kind {
        Some(k) => seq!["kind="@ + k],
        None => Seq::empty(),
    }) + sel.parameters.map_values(|p: (String, ParameterValue)| p.0@ + "="@ + compact_spec(p.1))
}

/// A selector never selects a task outside its constraints: a task of
/// another kind than the selector's kind, or of another phase than its
/// phase, or without one of its parameter values, is not selected. A
/// selector constraining only the kind selects exactly the tasks of that
/// kind.
pub proof fn law_selection_respects_every_constraint(sel: SelectorView, t: Task, k: Seq<char>)
    ensures
        sel.kind == Some(k) && t.kind_spec() != k ==> !selects(sel, t),
        sel.phase matches Some(p) && t.phase_spec() != p.value() ==> !selects(sel, t),
        forall|i: int| 0 <= i < sel.parameters.len()
            && value_text(t, sel.parameters[i].0@) != Some(value_json(sel.parameters[i].1)) ==> !selects(sel, t),
        (SelectorView { phase: None, kind: Some(k), parameters: Seq::empty() } == sel)
            ==> (selects(sel, t) <==> t.kind_spec() == k),
{
}

/// Parts joined by a comma and a space.
pub open spec fn comma_joined(parts: Seq<Seq<char>>) -> Seq<char>
    decreases parts.len(),
{
    if parts.len() == 0 {
        Seq::empty()
    } else if parts.len() == 1 {
        parts[0]
    } else {
        comma_joined(parts.drop_last()) + ", "@ + parts.last()
    }
}

/// The text of a selector.
pub open spec fn selector_text(sel: SelectorView) -> Seq<char> {
    comma_joined(selector_fields(sel))
}

/// Joining one more part.
proof fn lemma_comma_joined_push(parts: Seq<Seq<char>>, x: Seq<char>)
    ensures
        comma_joined(parts.push(x)) == if parts.len() == 0 { x } else { comma_joined(parts) + ", "@ + x },
{
    assert(parts.push(x).drop_last() =~= parts);
}

/// Task `a` is the first that `sel` selects.
pub open spec fn first_selected(tasks: Seq<Task>, sel: SelectorView, a: int) -> bool {
    &&& 0 <= a < tasks.len()
    &&& selects(sel, tasks[a])
    &&& forall|j: int| 0 <= j < a ==> !selects(sel, #[trigger] tasks[j])
}

/// Task `b` is the next after `a` that `sel` selects.
pub open spec fn next_selected(tasks: Seq<Task>, sel: SelectorView, a: int, b: int) -> bool {
    &&& a < b < tasks.len()
    &&& selects(sel, tasks[b])
    &&& forall|j: int| a < j < b ==> !selects(sel, #[trigger] tasks[j])
}

impl TaskSelector {
    /// What the selector constrains.
    pub closed spec fn view(&self) -> SelectorView {
        SelectorView {
            phase: self.phase,
            kind: match self.kind {
                Some(k) => Some(k@),
                None => None,
            },
            parameters: self.parameters@,
        }
    }

    /// Each parameter key is constrained once.
    #[verifier::type_invariant]
    spec fn keys_once(&self) -> bool {
        keys_distinct(self.parameters@)
    }

    /// Creates an unconstrained selector.
    pub fn new() -> (r: Self)
        ensures
            r.view() == (SelectorView { phase: None, kind: None, parameters: Seq::empty() }),
    {
        TaskSelector { phase: None, kind: None, parameters: Vec::new() }
    }

    /// Constrains selection to one phase.
    pub fn phase(self, phase: PhaseId) -> (r: Self)
        ensures
            r.view() == (SelectorView { phase: Some(phase), ..self.view() }),
    {
        proof {
            use_type_invariant(&self);
        }
        TaskSelector { phase: Some(phase), kind: self.kind, parameters: self.parameters }
    }

    /// Constrains selection to one task kind.
    pub fn kind(self, kind: String) -> (r: Self)
        ensures
            r.view() == (SelectorView { kind: Some(kind@), ..self.view() }),
    {
        proof {
            use_type_invariant(&self);
        }
        TaskSelector { phase: self.phase, kind: Some(kind), parameters: self.parameters }
    }

    /// Adds one exact parameter constraint, or replaces the value of the
    /// constraint already on `key`.
    pub fn parameter(self, key: String, value: ParameterValue) -> (r: Self)
        ensures
            ({
                let before = self.view().parameters;
                let after = r.view().parameters;
                &&& r.view().phase == self.view().phase
                &&& r.view().kind == self.view().kind
                &&& keys_distinct(after)
                &&& (exists|i: int| 0 <= i < before.len() && #[trigger] before[i].0@ == key@) ==> {
                    &&& after.len() == before.len()
                    &&& forall|i: int| 0 <= i < before.len() ==> (#[trigger] after[i]).0@ == before[i].0@
                        && after[i].1 == (if before[i].0@ == key@ { value } else { before[i].1 })
                }
                &&& (forall|i: int| 0 <= i < before.len() ==> #[trigger] before[i].0@ != key@) ==> {
                    &&& after.len() == before.len() + 1
                    &&& forall|i: int| 0 <= i < before.len() ==> #[trigger] after[i] == before[i]
                    &&& after.last().0@ == key@
                    &&& after.last().1 == value
                }
            }),
    {
        proof {
            use_type_invariant(&self);
        }
        let TaskSelector { phase, kind, parameters } = self;
        let mut parameters = parameters;
        let ghost before = parameters@;
        let mut i: usize = 0;
        while i < parameters.len() && parameters[i].0 != key
            invariant
                i <= before.len(),
                parameters@ == before,
                forall|k: int| 0 <= k < i ==> #[trigger] before[k].0@ != key@,
            decreases before.len() - i,
        {
            i = i + 1;
        }
        if i < parameters.len() {
            let (k, _) = parameters.remove(i);
            parameters.insert(i, (k, value));
            proof {
                let after = parameters@;
                assert forall|m: int| 0 <= m < before.len() implies (#[trigger] after[m]).0@ == before[m].0@
                    && after[m].1 == (if before[m].0@ == key@ { value } else { before[m].1 }) by {
                    if m != i && before[m].0@ == key@ {
                        assert(before[m].0@ == before[i as int].0@);
                    }
                }
                assert forall|a: int, b: int| 0 <= a < b < after.len() implies (#[trigger] after[a]).0@ != (#[trigger] after[b]).0@ by {
                    assert(before[a].0@ != before[b].0@);
                }
            }
        } else {
            parameters.push((key, value));
            proof {
                let after = parameters@;
                assert forall|a: int, b: int| 0 <= a < b < after.len() implies (#[trigger] after[a]).0@ != (#[trigger] after[b]).0@ by {
                    if b < before.len() {
                        assert(before[a].0@ != before[b].0@);
                    } else {
                        assert(after[a] == before[a]);
                    }
                }
            }
        }
        TaskSelector { phase, kind, parameters }
    }

    /// Whether `task` satisfies every constraint.
    pub(crate) fn matches(&self, task: &Task) -> (r: bool)
        ensures
            r == selects(self.view(), *task),
    {
        match self.phase {
            Some(p) => {
                if task.key().phase_id().get() != p.get() {
                    return false;
                }
            },
            None => {},
        }
        match &self.kind {
            Some(k) => {
                if !task.is_of_kind(k) {
                    return false;
                }
            },
            None => {},
        }
        let ghost params = self.parameters@;
        let mut i: usize = 0;
        while i < self.parameters.len()
            invariant
                i <= params.len(),
                params == self.parameters@,
                forall|k: int| 0 <= k < i ==> #[trigger] value_text(*task, params[k].0@) == Some(value_json(params[k].1)),
            decreases params.len() - i,
        {
            let key = &self.parameters[i].0;
            let wanted = &self.parameters[i].1;
            match task.value(key.as_str()) {
                Some(v) => {
                    if !v.same_value(wanted) {
                        assert(value_text(*task, params[i as int].0@) != Some(value_json(params[i as int].1)));
                        return false;
                    }
                },
                None => {
                    assert(value_text(*task, params[i as int].0@) != Some(value_json(params[i as int].1)));
                    return false;
                },
            }
            i = i + 1;
        }
        true
    }

    /// The selector as `phase=N, kind=K, key=value` text.
    pub fn to_text(&self) -> (r: String)
        ensures
            r@ == selector_text(self.view()),
    {
        let ghost fields = selector_fields(self.view());
        let mut out = String::new();
        let mut any = false;
        let ghost mut done: int = 0;
        match self.phase {
            Some(p) => {
                proof {
                    lemma_comma_joined_push(Seq::empty(), fields[0]);
                    assert(fields.take(1) =~= Seq::<Seq<char>>::empty().push(fields[0]));
                }
                out.append("phase=");
                append_decimal(&mut out, p.get());
                any = true;
                proof {
                    done = 1;
                }
            },
            None => {},
        }
        assert(out@ =~= comma_joined(fields.take(done)));
        match &self.kind {
            Some(k) => {
                let ghost prefix = fields.take(done);
                proof {
                    assert(fields.take(done + 1) =~= prefix.push(fields[done]));
                    lemma_comma_joined_push(prefix, fields[done]);
                }
                if any {
                    out.append(", ");
                }
                out.append("kind=");
                out.append(k.as_str());
                any = true;
                proof {
                    done = done + 1;
                }
                assert(out@ =~= comma_joined(fields.take(done)));
            },
            None => {},
        }
        let ghost pre = done;
        let mut i: usize = 0;
        while i < self.parameters.len()
            invariant
                i <= self.parameters@.len(),
                fields == selector_fields(self.view()),
                pre + self.parameters@.len() == fields.len(),
                0 <= pre <= 2,
                any == (pre + i > 0),
                out@ == comma_joined(fields.take(pre + i)),
            decreases self.parameters@.len() - i,
        {
            let ghost prefix = fields.take(pre + i);
            proof {
                assert(fields.take(pre + i + 1) =~= prefix.push(fields[pre + i]));
                lemma_comma_joined_push(prefix, fields[pre + i]);
            }
            if any {
                out.append(", ");
            }
            out.append(self.parameters[i].0.as_str());
            out.append("=");
            append_compact_value(&mut out, &self.parameters[i].1);
            any = true;
            assert(out@ =~= comma_joined(fields.take(pre + i + 1)));
            i = i + 1;
        }
        assert(fields.take(fields.len() as int) =~= fields);
        out
    }
}

impl Phase {
    /// Returns the sole task the selector matches: none is reported with the
    /// selector, and a second match is reported with the first two matches.
    pub fn unique_task_matching(&self, selector: &TaskSelector) -> (r: Result<&Task, ReportingError>)
        ensures
            ({
                let tasks = self.view().tasks;
                let sel = selector.view();
                &&& (forall|i: int| 0 <= i < tasks.len() ==> !selects(sel, #[trigger] tasks[i]))
                    ==> (r matches Err(ReportingError::ManagedTaskNotFound { selector: s }) && s@ == selector_text(sel))
                &&& forall|a: int| #[trigger] first_selected(tasks, sel, a)
                    && (forall|j: int| a < j < tasks.len() ==> !selects(sel, #[trigger] tasks[j]))
                    ==> (r matches Ok(t) && *t == tasks[a])
                &&& forall|a: int, b: int| #[trigger] first_selected(tasks, sel, a) && #[trigger] next_selected(tasks, sel, a, b)
                    ==> (r matches Err(ReportingError::ManagedTaskSelectorAmbiguous { selector: s, first, second })
                        && s@ == selector_text(sel) && first@ == tasks[a].key_text() && second@ == tasks[b].key_text())
            }),
    {
        let tasks = self.tasks();
        let ghost sel = selector.view();
        let mut a: usize = 0;
        while a < tasks.len() && !selector.matches(&tasks[a])
            invariant
                a <= tasks@.len(),
                tasks@ == self.view().tasks,
                sel == selector.view(),
                forall|j: int| 0 <= j < a ==> !selects(sel, #[trigger] tasks@[j]),
            decreases tasks@.len() - a,
        {
            a = a + 1;
        }
        if a == tasks.len() {
            proof {
                assert forall|x: int| #[trigger] first_selected(tasks@, sel, x) implies false by {
                    assert(!selects(sel, tasks@[x]));
                }
            }
            return Err(ReportingError::ManagedTaskNotFound { selector: selector.to_text() });
        }
        proof {
            assert forall|x: int| #[trigger] first_selected(tasks@, sel, x) implies x == a by {
                if x < a {
                    assert(!selects(sel, tasks@[x]));
                } else if x > a {
                    assert(!selects(sel, tasks@[a as int]));
                }
            }
        }
        let mut b: usize = a + 1;
        while b < tasks.len() && !selector.matches(&tasks[b])
            invariant
                a < b <= tasks@.len(),
                tasks@ == self.view().tasks,
                sel == selector.view(),
                forall|j: int| a < j < b ==> !selects(sel, #[trigger] tasks@[j]),
            decreases tasks@.len() - b,
        {
            b = b + 1;
        }
        if b == tasks.len() {
            proof {
                assert forall|x: int, y: int| #[trigger] first_selected(tasks@, sel, x) && #[trigger] next_selected(tasks@, sel, x, y)
                    implies false by {
                    assert(x == a);
                    assert(!selects(sel, tasks@[y]));
                }
            }
            return Ok(&tasks[a]);
        }
        proof {
            assert forall|x: int, y: int| #[trigger] first_selected(tasks@, sel, x) && #[trigger] next_selected(tasks@, sel, x, y)
                implies x == a && y == b by {
                assert(x == a);
                if y < b {
                    assert(!selects(sel, tasks@[y]));
                } else if y > b {
                    assert(!selects(sel, tasks@[b as int]));
                }
            }
            assert(!(forall|j: int| a < j < tasks@.len() ==> !selects(sel, #[trigger] tasks@[j]))) by {
                assert(selects(sel, tasks@[b as int]));
            }
        }
        let first = tasks[a].key().to_text();
        let second = tasks[b].key().to_text();
        Err(ReportingError::ManagedTaskSelectorAmbiguous { selector: selector.to_text(), first, second })
    }
}

} // verus!
