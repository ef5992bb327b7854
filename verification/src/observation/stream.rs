//! Scientific observation-stream definitions and bound streams.
use vstd::prelude::*;
use crate::text::{trimmed, is_blank, is_blank_text, trim_owned, name_ok, names_ok_before, str_views, string_views};
use crate::state::field::StateFieldSchema;
use crate::state::schema::SystemStateSchema;
use super::error::ObservationError;
use super::sampling::IterationSampling;

verus! {

/// The fields a stream records.
#[derive(Clone, Debug, PartialEq, Eq)]
pub enum FieldSelection {
    /// Every field of the bound schema.
    All,
    /// The named fields, later restored to schema order.
    Selected(Vec<String>),
}

/// One application-defined scientific observation stream.
#[derive(Clone, Debug, PartialEq, Eq)]
pub struct ObservationStream {
    name: String,
    fields: FieldSelection,
    sampling: IterationSampling,
}

/// Normalized text of a stream's selection: `None` for every field.
pub open spec fn selection_view(fields: FieldSelection) -> Option<Seq<Seq<char>>> {
    match fields {
        FieldSelection::All => None,
        FieldSelection::Selected(names) => Some(string_views(names@)),
    }
}

/// The normalized form of every declared field name.
pub open spec fn trimmed_all(names: Seq<Seq<char>>) -> Seq<Seq<char>> {
    names.map_values(|n: Seq<char>| trimmed(n))
}

/// What defining a stream named `name` with the selected fields `fs`
/// gives: the stream with the trimmed name and trimmed fields, or the error
/// for a blank name, for the first blank or repeated field, or for an empty
/// selection.
pub open spec fn stream_fields_outcome(
    name: Seq<char>,
    fs: Seq<Seq<char>>,
    r: Result<ObservationStream, ObservationError>,
) -> bool {
    &&& is_blank(name) <==> (r matches Err(ObservationError::EmptyStreamName))
    &&& !is_blank(name) ==> (r is Ok <==> fs.len() > 0 && names_ok_before(fs, fs.len() as int))
    &&& r matches Ok(s) ==> s.wf() && s.name_spec() == trimmed(name)
        && s.selection_spec() == Some(trimmed_all(fs))
        && s.sampling_spec() == IterationSampling::Iterations(1)
    &&& r matches Err(ObservationError::EmptyFieldName { stream }) ==> !is_blank(name)
        && stream@ == trimmed(name)
        && exists|i: int| 0 <= i < fs.len() && #[trigger] names_ok_before(fs, i) && is_blank(fs[i])
    &&& r matches Err(ObservationError::DuplicateField { stream, field }) ==> !is_blank(name)
        && stream@ == trimmed(name)
        && exists|i: int| 0 <= i < fs.len() && #[trigger] names_ok_before(fs, i)
            && !is_blank(fs[i]) && !name_ok(fs, i) && field@ == trimmed(fs[i])
    &&& r matches Err(ObservationError::EmptyFieldSelection { stream }) ==> !is_blank(name)
        && stream@ == trimmed(name) && fs.len() == 0
    &&& r is Err ==> (r matches Err(ObservationError::EmptyStreamName)
        || r matches Err(ObservationError::EmptyFieldName { .. })
        || r matches Err(ObservationError::DuplicateField { .. })
        || r matches Err(ObservationError::EmptyFieldSelection { .. }))
}

/// Trims a stream name, rejecting one that is empty after trimming.
pub fn normalize_stream_name(name: &str) -> (r: Result<String, ObservationError>)
    ensures
        is_blank(name@) <==> r is Err,
        r matches Ok(n) ==> n@ == trimmed(name@),
        r matches Err(e) ==> e matches ObservationError::EmptyStreamName,
{
    if is_blank_text(name) {
        return Err(ObservationError::EmptyStreamName);
    }
    Ok(trim_owned(name))
}

/// Whether `list` holds a string equal to `name`.
fn contains_name(list: &Vec<String>, name: &String) -> (r: bool)
    ensures
        r == string_views(list@).contains(name@),
{
    let mut i: usize = 0;
    while i < list.len()
        invariant
            i <= list@.len(),
            forall|k: int| 0 <= k < i ==> list@[k]@ != name@,
        decreases list@.len() - i,
    {
        if list[i] == *name {
            assert(string_views(list@)[i as int] == name@);
            return true;
        }
        i = i + 1;
    }
    proof {
        if string_views(list@).contains(name@) {
            let k = choose|k: int| 0 <= k < string_views(list@).len() && string_views(list@)[k] == name@;
            assert(list@[k]@ == name@);
        }
    }
    false
}

impl ObservationStream {
    /// Normalized stream name.
    pub closed spec fn name_spec(&self) -> Seq<char> {
        self.name@
    }

    /// Selected field names, `None` for every field.
    pub closed spec fn selection_spec(&self) -> Option<Seq<Seq<char>>> {
        selection_view(self.fields)
    }

    /// Sampling cadence.
    pub closed spec fn sampling_spec(&self) -> IterationSampling {
        self.sampling
    }

    /// A stream has a positive cadence.
    pub open spec fn wf(&self) -> bool {
        self.sampling_spec().wf()
    }

    /// Defines a named stream containing every field in its bound state schema.
    /// The name is trimmed; a blank name is rejected.
    pub fn all_fields(name: &str) -> (r: Result<Self, ObservationError>)
        ensures
            is_blank(name@) <==> r is Err,
            r matches Err(e) ==> e matches ObservationError::EmptyStreamName,
            r matches Ok(s) ==> s.wf() && s.name_spec() == trimmed(name@) && s.selection_spec() is None
                && s.sampling_spec() == IterationSampling::Iterations(1),
    {
        let name = normalize_stream_name(name)?;
        Ok(ObservationStream { name, fields: FieldSelection::All, sampling: IterationSampling::every() })
    }

    /// Defines a named stream containing the selected state fields.
    ///
    /// Stream and field names are trimmed. The first blank field name, the
    /// first repeated normalized field name, or an empty selection is
    /// rejected. Binding later restores canonical schema order.
    pub fn fields(name: &str, fields: &[&str]) -> (r: Result<Self, ObservationError>)
        ensures
            stream_fields_outcome(name@, str_views(fields@), r),
    {
        let ghost fs = str_views(fields@);
        let stream = normalize_stream_name(name)?;
        let mut normalized: Vec<String> = Vec::new();
        let mut i: usize = 0;
        while i < fields.len()
            invariant
                i <= fields@.len(),
                fs == str_views(fields@),
                !is_blank(name@),
                stream@ == trimmed(name@),
                normalized@.len() == i,
                names_ok_before(fs, i as int),
                string_views(normalized@) == trimmed_all(fs).take(i as int),
            decreases fields@.len() - i,
        {
            let field = fields[i];
            assert(fs[i as int] == field@);
            if is_blank_text(field) {
                proof {
                    assert(!name_ok(fs, i as int));
                    assert(names_ok_before(fs, i as int));
                }
                return Err(ObservationError::EmptyFieldName { stream });
            }
            let trimmed_field = trim_owned(field);
            if contains_name(&normalized, &trimmed_field) {
                proof {
                    let k = choose|k: int| 0 <= k < string_views(normalized@).len() && string_views(normalized@)[k] == trimmed_field@;
                    assert(trimmed_all(fs).take(i as int)[k] == trimmed(fs[k]));
                    assert(!name_ok(fs, i as int));
                    assert(names_ok_before(fs, i as int));
                }
                return Err(ObservationError::DuplicateField { stream, field: trimmed_field });
            }
            let ghost before = normalized@;
            normalized.push(trimmed_field);
            proof {
                assert(name_ok(fs, i as int)) by {
                    assert forall|j: int| 0 <= j < i implies trimmed(#[trigger] fs[j]) != trimmed(fs[i as int]) by {
                        assert(string_views(before)[j] == trimmed_all(fs).take(i as int)[j]);
                        if trimmed(fs[j]) == trimmed(fs[i as int]) {
                            assert(string_views(before).contains(trimmed_field@));
                        }
                    }
                }
                assert forall|k: int| 0 <= k < i + 1 implies #[trigger] name_ok(fs, k) by {}
                assert(string_views(normalized@) =~= trimmed_all(fs).take(i as int + 1)) by {
                    assert forall|k: int| 0 <= k < i + 1 implies string_views(normalized@)[k] == trimmed_all(fs).take(i as int + 1)[k] by {
                        if k < i {
                            assert(normalized@[k] == before[k]);
                            assert(string_views(before)[k] == trimmed_all(fs).take(i as int)[k]);
                        }
                    }
                }
            }
            i = i + 1;
        }
        if normalized.len() == 0 {
            return Err(ObservationError::EmptyFieldSelection { stream });
        }
        proof {
            assert(trimmed_all(fs).take(fs.len() as int) =~= trimmed_all(fs));
        }
        Ok(ObservationStream {
            name: stream,
            fields: FieldSelection::Selected(normalized),
            sampling: IterationSampling::every(),
        })
    }

    /// Changes this stream's cadence from every iteration to every
    /// `iterations`; zero is rejected.
    pub fn every_iterations(self, iterations: u64) -> (r: Result<Self, ObservationError>)
        ensures
            iterations == 0 <==> r is Err,
            r matches Err(e) ==> e matches ObservationError::InvalidSamplingInterval { stream }
                && stream@ == self.name_spec(),
            r matches Ok(s) ==> s.wf() && s.name_spec() == self.name_spec()
                && s.selection_spec() == self.selection_spec()
                && s.sampling_spec() == IterationSampling::Iterations(iterations),
    {
        if iterations == 0 {
            return Err(ObservationError::InvalidSamplingInterval { stream: self.name });
        }
        Ok(ObservationStream { sampling: IterationSampling::new(iterations), ..self })
    }

    /// Records the initial state and the successful final state only.
    pub fn initial_and_final(self) -> (r: Self)
        ensures
            r.wf(),
            r.name_spec() == self.name_spec(),
            r.selection_spec() == self.selection_spec(),
            r.sampling_spec() == IterationSampling::InitialAndFinal,
    {
        ObservationStream { sampling: IterationSampling::InitialAndFinal, ..self }
    }

    /// Returns the normalized stream name.
    pub fn name(&self) -> (r: &str)
        ensures
            r@ == self.name_spec(),
    {
        self.name.as_str()
    }

    /// Whether two streams carry the same normalized name.
    pub(crate) fn has_same_name(&self, other: &ObservationStream) -> (r: bool)
        ensures
            r == (self.name_spec() == other.name_spec()),
    {
        self.name == other.name
    }

    /// An owned copy of the normalized name.
    pub(crate) fn owned_name(&self) -> (r: String)
        ensures
            r@ == self.name_spec(),
    {
        self.name.clone()
    }

    /// Binds the stream to `schema`: every field, or the selected fields in
    /// schema order. The first unknown selected field is rejected, as is an
    /// empty result.
    pub fn bind(self, schema: &SystemStateSchema) -> (r: Result<BoundObservationStream, ObservationError>)
        requires
            self.wf(),
            schema.wf(),
        ensures
            ({
                let chosen = bound_fields(schema.fields_spec(), self.selection_spec());
                &&& r is Ok <==> all_known(schema, self.selection_spec()) && chosen.len() > 0
                &&& r matches Ok(b) ==> b.wf() && b.name_spec() == self.name_spec()
                    && b.fields_spec() == chosen && b.sampling_spec() == self.sampling_spec()
                &&& r matches Err(ObservationError::UnknownField { stream, field }) ==> stream@ == self.name_spec()
                    && self.selection_spec() is Some && exists|i: int| 0 <= i < self.selection_spec()->0.len()
                        && #[trigger] self.selection_spec()->0[i] == field@ && schema.lookup(field@) is None
                        && forall|k: int| 0 <= k < i ==> schema.lookup(#[trigger] self.selection_spec()->0[k]) is Some
                &&& r matches Err(ObservationError::EmptyFieldSelection { stream }) ==> stream@ == self.name_spec()
                    && all_known(schema, self.selection_spec()) && chosen.len() == 0
                &&& r is Err ==> (r matches Err(ObservationError::UnknownField { .. })
                    || r matches Err(ObservationError::EmptyFieldSelection { .. }))
            }),
    {
        let ghost selection = self.selection_spec();
        let schema_fields = schema.field_schemas();
        let mut fields: Vec<StateFieldSchema> = Vec::new();
        match &self.fields {
            FieldSelection::All => {
                let mut i: usize = 0;
                while i < schema_fields.len()
                    invariant
                        i <= schema_fields@.len(),
                        fields@ == schema_fields@.take(i as int),
                    decreases schema_fields@.len() - i,
                {
                    fields.push(schema_fields[i].clone());
                    proof {
                        assert(fields@ =~= schema_fields@.take(i as int + 1));
                    }
                    i = i + 1;
                }
                proof {
                    assert(schema_fields@.take(schema_fields@.len() as int) =~= schema_fields@);
                }
            },
            FieldSelection::Selected(selected) => {
                let ghost sel = string_views(selected@);
                assert(selection == Some(sel));
                let mut k: usize = 0;
                while k < selected.len()
                    invariant
                        k <= selected@.len(),
                        sel == string_views(selected@),
                        selection == Some(sel),
                        selection == self.selection_spec(),
                        schema.wf(),
                        forall|m: int| 0 <= m < k ==> schema.lookup(#[trigger] sel[m]) is Some,
                    decreases selected@.len() - k,
                {
                    assert(sel[k as int] == selected@[k as int]@);
                    if !schema.contains_field(selected[k].as_str()) {
                        proof {
                            assert(!all_known(schema, self.selection_spec()));
                        }
                        return Err(ObservationError::UnknownField {
                            stream: self.name,
                            field: selected[k].clone(),
                        });
                    }
                    k = k + 1;
                }
                let ghost pred = |f: StateFieldSchema| sel.contains(f.name_spec());
                let mut i: usize = 0;
                while i < schema_fields.len()
                    invariant
                        i <= schema_fields@.len(),
                        sel == string_views(selected@),
                        pred == (|f: StateFieldSchema| sel.contains(f.name_spec())),
                        fields@ == schema_fields@.take(i as int).filter(pred),
                    decreases schema_fields@.len() - i,
                {
                    let field = &schema_fields[i];
                    let name = field.owned_name();
                    let keep = contains_name(selected, &name);
                    proof {
                        assert(schema_fields@.take(i as int + 1) =~= schema_fields@.take(i as int).push(*field));
                        assert(pred(*field) == keep);
                        schema_fields@.take(i as int).lemma_filter_push(*field, pred);
                    }
                    if keep {
                        fields.push(field.clone());
                    }
                    i = i + 1;
                }
                proof {
                    assert(schema_fields@.take(schema_fields@.len() as int) =~= schema_fields@);
                }
            },
        }
        if fields.len() == 0 {
            return Err(ObservationError::EmptyFieldSelection { stream: self.name });
        }
        Ok(BoundObservationStream { name: self.name, fields, sampling: self.sampling })
    }
}

/// Every selected field is declared by the schema.
pub open spec fn all_known(schema: &SystemStateSchema, selection: Option<Seq<Seq<char>>>) -> bool {
    selection matches Some(sel) ==> forall|k: int| 0 <= k < sel.len() ==> schema.lookup(#[trigger] sel[k]) is Some
}

/// The bound fields: every schema field, or the selected ones in schema order.
pub open spec fn bound_fields(schema_fields: Seq<StateFieldSchema>, selection: Option<Seq<Seq<char>>>) -> Seq<StateFieldSchema> {
    match selection {
        None => schema_fields,
        Some(sel) => schema_fields.filter(|f: StateFieldSchema| sel.contains(f.name_spec())),
    }
}

/// One stream validated and ordered against a concrete state schema.
pub struct BoundObservationStream {
    name: String,
    fields: Vec<StateFieldSchema>,
    sampling: IterationSampling,
}

impl BoundObservationStream {
    /// Stream name.
    pub closed spec fn name_spec(&self) -> Seq<char> {
        self.name@
    }

    /// Fields in schema order.
    pub closed spec fn fields_spec(&self) -> Seq<StateFieldSchema> {
        self.fields@
    }

    /// Cadence.
    pub closed spec fn sampling_spec(&self) -> IterationSampling {
        self.sampling
    }

    /// A bound stream has a positive cadence.
    pub open spec fn wf(&self) -> bool {
        self.sampling_spec().wf()
    }

    /// An owned copy of the stream name.
    pub(crate) fn owned_name(&self) -> (r: String)
        ensures
            r@ == self.name_spec(),
    {
        self.name.clone()
    }

    /// Returns the normalized scientific stream name.
    pub fn name(&self) -> (r: &str)
        ensures
            r@ == self.name_spec(),
    {
        self.name.as_str()
    }

    /// Returns selected fields in canonical state-schema order.
    pub fn fields(&self) -> (r: &[StateFieldSchema])
        ensures
            r@ == self.fields_spec(),
    {
        self.fields.as_slice()
    }

    /// Returns the positive iteration sampling cadence, if any.
    pub fn every_iterations(&self) -> (r: Option<u64>)
        ensures
            r == match self.sampling_spec() {
                IterationSampling::Iterations(n) => Some(n),
                IterationSampling::InitialAndFinal => None::<u64>,
            },
    {
        self.sampling.get()
    }

    /// Whether a non-terminal observation at `iteration` is due.
    pub fn includes(&self, iteration: u64) -> (r: bool)
        requires
            self.wf(),
        ensures
            r == self.sampling_spec().includes_spec(iteration),
    {
        self.sampling.includes(iteration)
    }
}

} // verus!
