//! Observation plans and schema-bound plans.
use vstd::prelude::*;
use crate::text::{trimmed, is_blank, is_blank_text, trim_owned, str_views};
use crate::state::schema::SystemStateSchema;
use super::error::ObservationError;
use super::stream::{ObservationStream, BoundObservationStream, all_known, bound_fields, trimmed_all};
use super::sampling::IterationSampling;

verus! {

/// Stream `i` does not repeat the name of an earlier stream.
pub open spec fn stream_name_fresh(streams: Seq<ObservationStream>, i: int) -> bool {
    forall|j: int| 0 <= j < i ==> (#[trigger] streams[j]).name_spec() != streams[i].name_spec()
}

/// Every stream before `i` has a fresh name.
pub open spec fn stream_names_fresh_before(streams: Seq<ObservationStream>, i: int) -> bool {
    forall|k: int| 0 <= k < i ==> #[trigger] stream_name_fresh(streams, k)
}

/// A stream binds to `schema` without error.
pub open spec fn stream_binds(schema: &SystemStateSchema, stream: ObservationStream) -> bool {
    &&& all_known(schema, stream.selection_spec())
    &&& bound_fields(schema.fields_spec(), stream.selection_spec()).len() > 0
}

/// The error a stream reports when it does not bind names that stream.
pub open spec fn error_names_stream(e: ObservationError, name: Seq<char>) -> bool {
    ||| (e matches ObservationError::UnknownField { stream, .. } && stream@ == name)
    ||| (e matches ObservationError::EmptyFieldSelection { stream } && stream@ == name)
}

/// An immutable application definition of scientific observation.
pub struct ObservationPlan {
    streams: Vec<ObservationStream>,
    iteration_unit: Option<String>,
    physical_time_unit: Option<String>,
}

/// The text of an optional unit.
pub open spec fn unit_view(unit: Option<String>) -> Option<Seq<char>> {
    match unit {
        Some(u) => Some(u@),
        None => None,
    }
}

/// Trims a unit of the named axis, rejecting one that is empty after trimming.
pub fn normalize_unit(axis: &'static str, unit: &str) -> (r: Result<String, ObservationError>)
    ensures
        is_blank(unit@) <==> r is Err,
        r matches Ok(u) ==> u@ == trimmed(unit@),
        r matches Err(e) ==> (e matches ObservationError::EmptyAxisUnit { axis: a } && a@ == axis@),
{
    if is_blank_text(unit) {
        return Err(ObservationError::EmptyAxisUnit { axis });
    }
    Ok(trim_owned(unit))
}

proof fn lemma_state_name_not_blank()
    ensures
        !is_blank("state"@),
        trimmed("state"@) == "state"@,
{
    reveal_strlit("state");
    assert(!crate::text::is_unicode_whitespace("state"@[0]));
    assert(!crate::text::is_unicode_whitespace("state"@.last()));
}

/// What defining a plan of one inferred `state` stream over the selected
/// fields `fs` gives.
pub open spec fn plan_fields_outcome(fs: Seq<Seq<char>>, r: Result<ObservationPlan, ObservationError>) -> bool {
    &&& r is Ok <==> fs.len() > 0 && crate::text::names_ok_before(fs, fs.len() as int)
    &&& r matches Ok(p) ==> p.wf() && p.streams_spec().len() == 1
        && p.streams_spec()[0].name_spec() == "state"@
        && p.streams_spec()[0].selection_spec() == Some(trimmed_all(fs))
        && p.streams_spec()[0].sampling_spec() == IterationSampling::Iterations(1)
        && p.iteration_unit_spec() is None && p.physical_time_unit_spec() is None
    &&& r matches Err(e) ==> (e matches ObservationError::EmptyFieldName { stream } && stream@ == "state"@)
        || (e matches ObservationError::DuplicateField { stream, .. } && stream@ == "state"@)
        || (e matches ObservationError::EmptyFieldSelection { stream } && stream@ == "state"@)
    &&& r matches Err(ObservationError::EmptyFieldName { .. })
        ==> exists|i: int| 0 <= i < fs.len() && #[trigger] crate::text::names_ok_before(fs, i)
            && is_blank(fs[i])
    &&& r matches Err(ObservationError::DuplicateField { field, .. })
        ==> exists|i: int| 0 <= i < fs.len() && #[trigger] crate::text::names_ok_before(fs, i)
            && !is_blank(fs[i]) && !crate::text::name_ok(fs, i) && field@ == trimmed(fs[i])
    &&& r matches Err(ObservationError::EmptyFieldSelection { .. }) ==> fs.len() == 0
}

/// Two errors of the same kind naming the same stream and field.
pub open spec fn same_error(a: ObservationError, b: ObservationError) -> bool {
    match (a, b) {
        (ObservationError::EmptyStreamName, ObservationError::EmptyStreamName) => true,
        (ObservationError::EmptyFieldName { stream: x }, ObservationError::EmptyFieldName { stream: y }) => x@ == y@,
        (ObservationError::EmptyFieldSelection { stream: x }, ObservationError::EmptyFieldSelection { stream: y }) => x@ == y@,
        (ObservationError::DuplicateField { stream: x, field: f }, ObservationError::DuplicateField { stream: y, field: g }) =>
            x@ == y@ && f@ == g@,
        _ => false,
    }
}

/// The first unacceptable name is unique.
proof fn lemma_first_bad_name_unique(fs: Seq<Seq<char>>, i: int, j: int)
    requires
        0 <= i < fs.len(),
        0 <= j < fs.len(),
        crate::text::names_ok_before(fs, i),
        !crate::text::name_ok(fs, i),
        crate::text::names_ok_before(fs, j),
        !crate::text::name_ok(fs, j),
    ensures
        i == j,
{
    if i < j {
        assert(crate::text::name_ok(fs, i));
    }
    if j < i {
        assert(crate::text::name_ok(fs, j));
    }
}

/// A plan of selected fields is the plan of the one stream named `state`
/// with those fields: both succeed together, the plan then holds that
/// stream, and otherwise both fail with the same error.
pub proof fn law_plan_fields_is_one_state_stream(
    fs: Seq<Seq<char>>,
    stream: Result<ObservationStream, ObservationError>,
    plan: Result<ObservationPlan, ObservationError>,
)
    requires
        super::stream::stream_fields_outcome("state"@, fs, stream),
        plan_fields_outcome(fs, plan),
    ensures
        plan is Ok <==> stream is Ok,
        plan matches Ok(p) ==> (stream matches Ok(s) && p.streams_spec().len() == 1
            && p.streams_spec()[0].name_spec() == s.name_spec()
            && p.streams_spec()[0].selection_spec() == s.selection_spec()
            && p.streams_spec()[0].sampling_spec() == s.sampling_spec()),
        plan matches Err(e) ==> (stream matches Err(f) && same_error(e, f)),
{
    lemma_state_name_not_blank();
    if let Err(e) = plan {
        if let Err(f) = stream {
            let first_bad = |i: int| 0 <= i < fs.len() && crate::text::names_ok_before(fs, i)
                && !crate::text::name_ok(fs, i);
            if e is EmptyFieldName || e is DuplicateField {
                let i = choose|i: int| 0 <= i < fs.len() && #[trigger] crate::text::names_ok_before(fs, i)
                    && (if e is EmptyFieldName { is_blank(fs[i]) } else {
                        !is_blank(fs[i]) && !crate::text::name_ok(fs, i) && e->DuplicateField_field@ == trimmed(fs[i])
                    });
                assert(first_bad(i));
                if f is EmptyFieldName || f is DuplicateField {
                    let j = choose|j: int| 0 <= j < fs.len() && #[trigger] crate::text::names_ok_before(fs, j)
                        && (if f is EmptyFieldName { is_blank(fs[j]) } else {
                            !is_blank(fs[j]) && !crate::text::name_ok(fs, j) && f->DuplicateField_field@ == trimmed(fs[j])
                        });
                    assert(first_bad(j));
                    lemma_first_bad_name_unique(fs, i, j);
                }
            }
        }
    }
}

impl ObservationPlan {
    /// The streams in definition order.
    pub closed spec fn streams_spec(&self) -> Seq<ObservationStream> {
        self.streams@
    }

    /// The unit of the `iteration` axis.
    pub closed spec fn iteration_unit_spec(&self) -> Option<Seq<char>> {
        unit_view(self.iteration_unit)
    }

    /// The unit of the `physical_time` axis.
    pub closed spec fn physical_time_unit_spec(&self) -> Option<Seq<char>> {
        unit_view(self.physical_time_unit)
    }

    /// At least one stream, each with a positive cadence and a name of its own.
    pub open spec fn wf(&self) -> bool {
        &&& self.streams_spec().len() > 0
        &&& forall|i: int| 0 <= i < self.streams_spec().len() ==> (#[trigger] self.streams_spec()[i]).wf()
        &&& stream_names_fresh_before(self.streams_spec(), self.streams_spec().len() as int)
    }

    /// Defines one inferred stream named `state` containing every state field.
    pub fn all_fields() -> (r: Self)
        ensures
            r.wf(),
            r.streams_spec().len() == 1,
            r.streams_spec()[0].name_spec() == "state"@,
            r.streams_spec()[0].selection_spec() is None,
            r.streams_spec()[0].sampling_spec() == IterationSampling::Iterations(1),
            r.iteration_unit_spec() is None,
            r.physical_time_unit_spec() is None,
    {
        proof {
            lemma_state_name_not_blank();
        }
        let stream = match ObservationStream::all_fields("state") {
            Ok(s) => s,
            Err(_) => vstd::pervasive::unreached(),
        };
        let mut streams: Vec<ObservationStream> = Vec::new();
        streams.push(stream);
        ObservationPlan { streams, iteration_unit: None, physical_time_unit: None }
    }

    /// Defines one inferred stream named `state` containing the selected fields.
    pub fn fields(fields: &[&str]) -> (r: Result<Self, ObservationError>)
        ensures
            plan_fields_outcome(str_views(fields@), r),
    {
        proof {
            lemma_state_name_not_blank();
        }
        let stream = match ObservationStream::fields("state", fields) {
            Ok(s) => s,
            Err(e) => {
                return Err(e);
            },
        };
        let mut streams: Vec<ObservationStream> = Vec::new();
        streams.push(stream);
        let r = ObservationPlan::streams(streams);
        proof {
            assert(stream_name_fresh(streams@, 0));
        }
        r
    }

    /// Defines several explicitly named scientific streams, in order.
    ///
    /// An empty list is rejected, as is the first stream whose name repeats
    /// an earlier one.
    pub fn streams(streams: Vec<ObservationStream>) -> (r: Result<Self, ObservationError>)
        requires
            forall|i: int| 0 <= i < streams@.len() ==> (#[trigger] streams@[i]).wf(),
        ensures
            r is Ok <==> streams@.len() > 0 && stream_names_fresh_before(streams@, streams@.len() as int),
            r matches Ok(p) ==> p.wf() && p.streams_spec() == streams@
                && p.iteration_unit_spec() is None && p.physical_time_unit_spec() is None,
            r matches Err(ObservationError::EmptyPlan) ==> streams@.len() == 0,
            r matches Err(ObservationError::DuplicateStreamName { stream }) ==> exists|i: int|
                0 <= i < streams@.len() && #[trigger] stream_names_fresh_before(streams@, i)
                && !stream_name_fresh(streams@, i) && stream@ == streams@[i].name_spec(),
            r is Err ==> (r matches Err(ObservationError::EmptyPlan)
                || r matches Err(ObservationError::DuplicateStreamName { .. })),
    {
        if streams.len() == 0 {
            return Err(ObservationError::EmptyPlan);
        }
        let mut i: usize = 0;
        while i < streams.len()
            invariant
                i <= streams@.len(),
                stream_names_fresh_before(streams@, i as int),
            decreases streams@.len() - i,
        {
            let mut j: usize = 0;
            while j < i
                invariant
                    i < streams@.len(),
                    j <= i,
                    stream_names_fresh_before(streams@, i as int),
                    forall|k: int| 0 <= k < j ==> (#[trigger] streams@[k]).name_spec() != streams@[i as int].name_spec(),
                decreases i - j,
            {
                if streams[j].has_same_name(&streams[i]) {
                    proof {
                        assert(!stream_name_fresh(streams@, i as int));
                    }
                    return Err(ObservationError::DuplicateStreamName { stream: streams[i].owned_name() });
                }
                j = j + 1;
            }
            proof {
                assert(stream_name_fresh(streams@, i as int));
                assert forall|k: int| 0 <= k < i + 1 implies #[trigger] stream_name_fresh(streams@, k) by {}
            }
            i = i + 1;
        }
        Ok(ObservationPlan { streams, iteration_unit: None, physical_time_unit: None })
    }

    /// Attaches a unit to the inferred `iteration` axis; the unit is trimmed
    /// and a blank one is rejected.
    pub fn with_iteration_unit(self, unit: &str) -> (r: Result<Self, ObservationError>)
        ensures
            is_blank(unit@) <==> r is Err,
            r matches Err(e) ==> (e matches ObservationError::EmptyAxisUnit { axis } && axis@ == "iteration"@),
            r matches Ok(p) ==> p.streams_spec() == self.streams_spec()
                && p.iteration_unit_spec() == Some(trimmed(unit@))
                && p.physical_time_unit_spec() == self.physical_time_unit_spec(),
    {
        let unit = normalize_unit("iteration", unit)?;
        Ok(ObservationPlan { iteration_unit: Some(unit), ..self })
    }

    /// Attaches a unit to the inferred `physical_time` axis; the unit is
    /// trimmed and a blank one is rejected.
    pub fn with_physical_time_unit(self, unit: &str) -> (r: Result<Self, ObservationError>)
        ensures
            is_blank(unit@) <==> r is Err,
            r matches Err(e) ==> (e matches ObservationError::EmptyAxisUnit { axis } && axis@ == "physical_time"@),
            r matches Ok(p) ==> p.streams_spec() == self.streams_spec()
                && p.physical_time_unit_spec() == Some(trimmed(unit@))
                && p.iteration_unit_spec() == self.iteration_unit_spec(),
    {
        let unit = normalize_unit("physical_time", unit)?;
        Ok(ObservationPlan { physical_time_unit: Some(unit), ..self })
    }

    /// Validates and binds this plan to `schema`, stream by stream in
    /// definition order; the first stream that does not bind decides the
    /// error.
    pub fn bind(self, schema: &SystemStateSchema) -> (r: Result<BoundObservationPlan, ObservationError>)
        requires
            self.wf(),
            schema.wf(),
        ensures
            ({
                let ss = self.streams_spec();
                &&& r is Ok <==> forall|i: int| 0 <= i < ss.len() ==> #[trigger] stream_binds(schema, ss[i])
                &&& r matches Ok(b) ==> b.schema_spec() == *schema
                    && b.streams_spec().len() == ss.len()
                    && (forall|i: int| 0 <= i < ss.len() ==> {
                        &&& (#[trigger] b.streams_spec()[i]).name_spec() == ss[i].name_spec()
                        &&& b.streams_spec()[i].fields_spec() == bound_fields(schema.fields_spec(), ss[i].selection_spec())
                        &&& b.streams_spec()[i].sampling_spec() == ss[i].sampling_spec()
                        &&& b.streams_spec()[i].wf()
                    })
                    && b.iteration_unit_spec() == self.iteration_unit_spec()
                    && b.physical_time_unit_spec() == self.physical_time_unit_spec()
                &&& r matches Err(e) ==> exists|i: int| 0 <= i < ss.len()
                    && (forall|k: int| 0 <= k < i ==> #[trigger] stream_binds(schema, ss[k]))
                    && !stream_binds(schema, #[trigger] ss[i]) && error_names_stream(e, ss[i].name_spec())
            }),
    {
        let ghost ss = self.streams_spec();
        let ObservationPlan { streams, iteration_unit, physical_time_unit } = self;
        let mut bound: Vec<BoundObservationStream> = Vec::new();
        let mut rest = streams;
        let ghost n = ss.len();
        while rest.len() > 0
            invariant
                n == ss.len(),
                ss == self.streams_spec(),
                schema.wf(),
                forall|i: int| 0 <= i < ss.len() ==> (#[trigger] ss[i]).wf(),
                bound@.len() + rest@.len() == n,
                rest@ == ss.skip(bound@.len() as int),
                forall|i: int| 0 <= i < bound@.len() ==> #[trigger] stream_binds(schema, ss[i]),
                forall|i: int| 0 <= i < bound@.len() ==> {
                    &&& (#[trigger] bound@[i]).name_spec() == ss[i].name_spec()
                    &&& bound@[i].fields_spec() == bound_fields(schema.fields_spec(), ss[i].selection_spec())
                    &&& bound@[i].sampling_spec() == ss[i].sampling_spec()
                    &&& bound@[i].wf()
                },
            decreases rest@.len(),
        {
            let ghost idx = bound@.len() as int;
            let ghost before = rest@;
            let stream = rest.remove(0);
            assert(stream == ss[idx]);
            assert(rest@ =~= ss.skip(idx + 1));
            match stream.bind(schema) {
                Ok(b) => {
                    bound.push(b);
                },
                Err(e) => {
                    proof {
                        assert(!stream_binds(schema, ss[idx]));
                        assert(error_names_stream(e, ss[idx].name_spec()));
                        assert(forall|k: int| 0 <= k < idx ==> #[trigger] stream_binds(schema, ss[k]));
                        assert(0 <= idx < ss.len());
                    }
                    return Err(e);
                },
            }
        }
        Ok(BoundObservationPlan {
            schema: schema.clone(),
            streams: bound,
            iteration_unit,
            physical_time_unit,
        })
    }
}

/// An observation plan validated against one immutable state schema.
pub struct BoundObservationPlan {
    schema: SystemStateSchema,
    streams: Vec<BoundObservationStream>,
    iteration_unit: Option<String>,
    physical_time_unit: Option<String>,
}

impl BoundObservationPlan {
    /// The schema the plan was validated against.
    pub closed spec fn schema_spec(&self) -> SystemStateSchema {
        self.schema
    }

    /// Validated streams in definition order.
    pub closed spec fn streams_spec(&self) -> Seq<BoundObservationStream> {
        self.streams@
    }

    /// The unit of the `iteration` axis.
    pub closed spec fn iteration_unit_spec(&self) -> Option<Seq<char>> {
        unit_view(self.iteration_unit)
    }

    /// The unit of the `physical_time` axis.
    pub closed spec fn physical_time_unit_spec(&self) -> Option<Seq<char>> {
        unit_view(self.physical_time_unit)
    }

    /// Returns the state schema against which this plan was validated.
    pub fn schema(&self) -> (r: &SystemStateSchema)
        ensures
            *r == self.schema_spec(),
    {
        &self.schema
    }

    /// Returns validated streams in deterministic definition order.
    pub fn streams(&self) -> (r: &[BoundObservationStream])
        ensures
            r@ == self.streams_spec(),
    {
        self.streams.as_slice()
    }

    /// Returns the optional unit of the inferred `iteration` axis.
    pub fn iteration_unit(&self) -> (r: Option<&str>)
        ensures
            r is Some <==> self.iteration_unit_spec() is Some,
            r matches Some(u) ==> u@ == self.iteration_unit_spec()->0,
    {
        match &self.iteration_unit {
            Some(u) => Some(u.as_str()),
            None => None,
        }
    }

    /// Returns the optional unit of the inferred `physical_time` axis.
    pub fn physical_time_unit(&self) -> (r: Option<&str>)
        ensures
            r is Some <==> self.physical_time_unit_spec() is Some,
            r matches Some(u) ==> u@ == self.physical_time_unit_spec()->0,
    {
        match &self.physical_time_unit {
            Some(u) => Some(u.as_str()),
            None => None,
        }
    }
}

} // verus!
