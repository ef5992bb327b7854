//! Per-session observation scheduling: which streams are due at an observed
//! iteration, and the last iteration each stream accepted.
use vstd::prelude::*;
use crate::state::schema::SystemStateSchema;
use super::error::ObservationError;
use super::plan::BoundObservationPlan;
use super::sampling::IterationSampling;

verus! {

/// A stream with `marker` as its last accepted iteration records `iteration`:
/// it has not recorded it yet, and either the state is terminal, or the
/// cadence includes it, or the stream records only its boundaries and has
/// not yet recorded its initial state.
pub open spec fn stream_due(marker: Option<u64>, sampling: IterationSampling, iteration: u64, terminal: bool) -> bool {
    &&& marker != Some(iteration)
    &&& (terminal || sampling.includes_spec(iteration)
        || (sampling == IterationSampling::InitialAndFinal && marker is None))
}

/// `iteration` lies before the last iteration a stream accepted.
pub open spec fn regressed(marker: Option<u64>, iteration: u64) -> bool {
    marker matches Some(previous) && iteration < previous
}

/// The stream indices `0..n`, in order.
pub open spec fn indices_upto(n: nat) -> Seq<usize> {
    Seq::new(n, |i: int| i as usize)
}

/// The indices of the due streams, in definition order.
pub open spec fn due_indices(markers: Seq<Option<u64>>, samplings: Seq<IterationSampling>, iteration: u64, terminal: bool) -> Seq<usize> {
    indices_upto(markers.len()).filter(|i: usize| stream_due(markers[i as int], samplings[i as int], iteration, terminal))
}

/// Markers after the `selected` streams accepted `iteration`.
pub open spec fn committed(markers: Seq<Option<u64>>, selected: Seq<usize>, iteration: u64) -> Seq<Option<u64>> {
    Seq::new(markers.len(), |i: int| if selected.contains(i as usize) { Some(iteration) } else { markers[i] })
}

/// Applies one bound observation plan across an ordered state sequence.
pub struct ObservationSession {
    descriptor: BoundObservationPlan,
    last_iterations: Vec<Option<u64>>,
}

impl ObservationSession {
    /// The bound plan.
    pub closed spec fn plan_spec(&self) -> BoundObservationPlan {
        self.descriptor
    }

    /// The last iteration each stream accepted, by stream index.
    pub closed spec fn markers(&self) -> Seq<Option<u64>> {
        self.last_iterations@
    }

    /// The cadence of each stream, by stream index.
    pub open spec fn samplings(&self) -> Seq<IterationSampling> {
        self.plan_spec().streams_spec().map_values(|s: super::stream::BoundObservationStream| s.sampling_spec())
    }

    /// One marker per stream, and every cadence positive.
    pub open spec fn wf(&self) -> bool {
        &&& self.markers().len() == self.plan_spec().streams_spec().len()
        &&& forall|i: int| 0 <= i < self.plan_spec().streams_spec().len()
            ==> (#[trigger] self.plan_spec().streams_spec()[i]).wf()
    }

    /// Starts a session in which no stream has accepted an iteration.
    pub fn new(descriptor: BoundObservationPlan) -> (r: Self)
        requires
            forall|i: int| 0 <= i < descriptor.streams_spec().len() ==> (#[trigger] descriptor.streams_spec()[i]).wf(),
        ensures
            r.wf(),
            r.plan_spec() == descriptor,
            r.markers() == Seq::new(descriptor.streams_spec().len(), |i: int| None::<u64>),
    {
        let n = descriptor.streams().len();
        let mut last_iterations: Vec<Option<u64>> = Vec::new();
        let mut i: usize = 0;
        while i < n
            invariant
                i <= n,
                last_iterations@ == Seq::new(i as nat, |k: int| None::<u64>),
            decreases n - i,
        {
            last_iterations.push(None);
            i = i + 1;
            assert(last_iterations@ =~= Seq::new(i as nat, |k: int| None::<u64>));
        }
        ObservationSession { descriptor, last_iterations }
    }

    /// Returns the bound plan.
    pub fn plan(&self) -> (r: &BoundObservationPlan)
        ensures
            *r == self.plan_spec(),
    {
        &self.descriptor
    }

    /// Rejects an observation at `iteration` that lies before the last
    /// iteration some stream accepted; the first such stream is reported.
    pub fn check_order(&self, iteration: u64) -> (r: Result<(), ObservationError>)
        requires
            self.wf(),
        ensures
            r is Ok <==> forall|i: int| 0 <= i < self.markers().len() ==> !#[trigger] regressed(self.markers()[i], iteration),
            r matches Err(e) ==> exists|i: int| 0 <= i < self.markers().len()
                && (forall|k: int| 0 <= k < i ==> !#[trigger] regressed(self.markers()[k], iteration))
                && #[trigger] regressed(self.markers()[i], iteration)
                && (e matches ObservationError::NonIncreasingObservation { stream, previous, next }
                    && stream@ == self.plan_spec().streams_spec()[i].name_spec()
                    && Some(previous) == self.markers()[i] && next == iteration),
    {
        let streams = self.descriptor.streams();
        let mut i: usize = 0;
        while i < self.last_iterations.len()
            invariant
                self.wf(),
                streams@ == self.plan_spec().streams_spec(),
                i <= self.markers().len(),
                forall|k: int| 0 <= k < i ==> !#[trigger] regressed(self.markers()[k], iteration),
            decreases self.markers().len() - i,
        {
            if let Some(previous) = self.last_iterations[i] {
                if iteration < previous {
                    assert(regressed(self.markers()[i as int], iteration));
                    return Err(ObservationError::NonIncreasingObservation {
                        stream: streams[i].owned_name(),
                        previous,
                        next: iteration,
                    });
                }
            }
            assert(!regressed(self.markers()[i as int], iteration));
            i = i + 1;
        }
        Ok(())
    }

    /// The indices of the streams due at `iteration`, in definition order.
    pub fn due_streams(&self, iteration: u64, terminal: bool) -> (r: Vec<usize>)
        requires
            self.wf(),
        ensures
            r@ == due_indices(self.markers(), self.samplings(), iteration, terminal),
    {
        let streams = self.descriptor.streams();
        let n = self.last_iterations.len();
        let ghost markers = self.markers();
        let ghost samplings = self.samplings();
        let ghost pred = |i: usize| stream_due(markers[i as int], samplings[i as int], iteration, terminal);
        let mut due: Vec<usize> = Vec::new();
        let mut i: usize = 0;
        while i < n
            invariant
                self.wf(),
                n == markers.len(),
                markers == self.markers(),
                samplings == self.samplings(),
                streams@ == self.plan_spec().streams_spec(),
                pred == (|i: usize| stream_due(markers[i as int], samplings[i as int], iteration, terminal)),
                i <= n,
                due@ == indices_upto(i as nat).filter(pred),
            decreases n - i,
        {
            proof {
                assert(indices_upto(i as nat + 1) =~= indices_upto(i as nat).push(i));
                indices_upto(i as nat).lemma_filter_push(i, pred);
            }
            let marker = self.last_iterations[i];
            let includes = streams[i].includes(iteration);
            let boundary_only = streams[i].every_iterations().is_none();
            assert(samplings[i as int] == streams@[i as int].sampling_spec());
            let keep = marker != Some(iteration) && (terminal || includes || (boundary_only && marker.is_none()));
            assert(keep == pred(i));
            if keep {
                due.push(i);
            }
            i = i + 1;
        }
        due
    }

    /// Selects the streams that record an observation of a state at
    /// `iteration` whose schema is `schema`.
    ///
    /// An iteration before a stream's last accepted one is rejected first;
    /// then a state of another schema allocation is rejected. The session is
    /// not changed: `commit` records what was accepted.
    pub fn select(&self, schema: &SystemStateSchema, iteration: u64, terminal: bool) -> (r: Result<Vec<usize>, ObservationError>)
        requires
            self.wf(),
        ensures
            (exists|i: int| 0 <= i < self.markers().len() && #[trigger] regressed(self.markers()[i], iteration))
                ==> (r matches Err(ObservationError::NonIncreasingObservation { .. })),
            r matches Err(ObservationError::NonIncreasingObservation { stream, previous, next }) ==>
                exists|i: int| 0 <= i < self.markers().len()
                && (forall|k: int| 0 <= k < i ==> !#[trigger] regressed(self.markers()[k], iteration))
                && #[trigger] regressed(self.markers()[i], iteration)
                && stream@ == self.plan_spec().streams_spec()[i].name_spec()
                && Some(previous) == self.markers()[i] && next == iteration,
            r matches Err(ObservationError::SchemaMismatch { iteration: it }) ==> it == iteration
                && forall|i: int| 0 <= i < self.markers().len() ==> !#[trigger] regressed(self.markers()[i], iteration),
            r is Err ==> (r matches Err(ObservationError::NonIncreasingObservation { .. })
                || r matches Err(ObservationError::SchemaMismatch { .. })),
            (forall|i: int| 0 <= i < self.markers().len() ==> !#[trigger] regressed(self.markers()[i], iteration))
                && *schema != self.plan_spec().schema_spec() ==> r is Err,
            r matches Ok(v) ==> *schema == self.plan_spec().schema_spec()
                && v@ == due_indices(self.markers(), self.samplings(), iteration, terminal),
    {
        match self.check_order(iteration) {
            Ok(()) => {},
            Err(e) => {
                return Err(e);
            },
        }
        if !self.descriptor.schema().shares_schema_instance(schema) {
            return Err(ObservationError::SchemaMismatch { iteration });
        }
        Ok(self.due_streams(iteration, terminal))
    }

    /// Settles an observation whose due streams `selected` were each encoded,
    /// in order, into `encoded`: the iteration is committed only when every
    /// stream encoded, and then the records are returned in stream order;
    /// otherwise the first failure is returned and no stream advances.
    pub fn settle_encoded<R, E>(&mut self, selected: &[usize], iteration: u64, encoded: Vec<Result<R, E>>) -> (r: Result<Vec<R>, E>)
        requires
            old(self).wf(),
            encoded@.len() == selected@.len(),
            forall|k: int| 0 <= k < selected@.len() ==> #[trigger] selected@[k] < old(self).markers().len(),
        ensures
            final(self).wf(),
            final(self).plan_spec() == old(self).plan_spec(),
            r is Ok <==> forall|i: int| 0 <= i < encoded@.len() ==> #[trigger] encoded@[i] is Ok,
            r matches Ok(v) ==> v@.len() == encoded@.len()
                && (forall|i: int| 0 <= i < encoded@.len() ==> encoded@[i] == Ok::<R, E>(#[trigger] v@[i]))
                && final(self).markers() == committed(old(self).markers(), selected@, iteration),
            r matches Err(e) ==> final(self).markers() == old(self).markers()
                && exists|i: int| 0 <= i < encoded@.len()
                    && (forall|k: int| 0 <= k < i ==> #[trigger] encoded@[k] is Ok)
                    && #[trigger] encoded@[i] == Err::<R, E>(e),
    {
        let ghost all = encoded@;
        let mut rest = encoded;
        let mut records: Vec<R> = Vec::new();
        let mut i: usize = 0;
        while i < selected.len()
            invariant
                i <= selected@.len(),
                self.wf(),
                self.markers() == old(self).markers(),
                self.plan_spec() == old(self).plan_spec(),
                forall|k: int| 0 <= k < selected@.len() ==> #[trigger] selected@[k] < self.markers().len(),
                all.len() == selected@.len(),
                all == encoded@,
                rest@ == all.skip(i as int),
                records@.len() == i,
                forall|k: int| 0 <= k < i ==> all[k] == Ok::<R, E>(#[trigger] records@[k]),
            decreases selected@.len() - i,
        {
            let next = rest.remove(0);
            assert(next == all[i as int]);
            match next {
                Ok(record) => records.push(record),
                Err(e) => {
                    assert forall|k: int| 0 <= k < i implies #[trigger] all[k] is Ok by {
                        assert(all[k] == Ok::<R, E>(records@[k]));
                    }
                    assert(!(all[i as int] is Ok));
                    return Err(e);
                },
            }
            i = i + 1;
            assert(rest@ =~= all.skip(i as int));
        }
        assert forall|k: int| 0 <= k < all.len() implies #[trigger] all[k] is Ok by {
            assert(all[k] == Ok::<R, E>(records@[k]));
        }
        self.commit(selected, iteration);
        Ok(records)
    }

    /// Records that the `selected` streams accepted `iteration`.
    pub fn commit(&mut self, selected: &[usize], iteration: u64)
        requires
            old(self).wf(),
            forall|k: int| 0 <= k < selected@.len() ==> #[trigger] selected@[k] < old(self).markers().len(),
        ensures
            final(self).wf(),
            final(self).plan_spec() == old(self).plan_spec(),
            final(self).markers() == committed(old(self).markers(), selected@, iteration),
    {
        let ghost start = self.markers();
        let n = self.last_iterations.len();
        let mut k: usize = 0;
        while k < selected.len()
            invariant
                self.wf(),
                n == start.len(),
                self.plan_spec() == old(self).plan_spec(),
                start == old(self).markers(),
                forall|j: int| 0 <= j < selected@.len() ==> #[trigger] selected@[j] < start.len(),
                k <= selected@.len(),
                self.markers() == committed(start, selected@.take(k as int), iteration),
            decreases selected@.len() - k,
        {
            let index = selected[k];
            self.last_iterations.set(index, Some(iteration));
            proof {
                let before = selected@.take(k as int);
                let after = selected@.take(k as int + 1);
                assert(after =~= before.push(index));
                assert forall|i: int| 0 <= i < start.len() implies
                    #[trigger] after.contains(i as usize) == (before.contains(i as usize) || i as usize == index) by {
                    if after.contains(i as usize) {
                        let j = choose|j: int| 0 <= j < after.len() && after[j] == i as usize;
                        if j < k {
                            assert(before[j] == i as usize);
                        }
                    }
                    if i as usize == index {
                        assert(after[k as int] == index);
                    }
                    if before.contains(i as usize) {
                        let j = choose|j: int| 0 <= j < before.len() && before[j] == i as usize;
                        assert(after[j] == i as usize);
                    }
                }
                assert forall|i: int| 0 <= i < start.len() implies
                    #[trigger] self.markers()[i] == committed(start, after, iteration)[i] by {
                    assert(after.contains(i as usize) == (before.contains(i as usize) || i as usize == index));
                }
                assert(self.markers() =~= committed(start, after, iteration));
            }
            k = k + 1;
        }
        assert(selected@.take(selected@.len() as int) =~= selected@);
    }
}

/// No stream records one iteration twice: once the streams due at
/// `iteration` have accepted it, none of them is due at `iteration` again,
/// terminal or not, and with the same terminal flag nothing is due at all.
pub proof fn law_no_iteration_recorded_twice(
    markers: Seq<Option<u64>>,
    samplings: Seq<IterationSampling>,
    iteration: u64,
    terminal: bool,
    later_terminal: bool,
)
    requires
        markers.len() == samplings.len(),
        markers.len() <= usize::MAX,
    ensures
        ({
            let selected = due_indices(markers, samplings, iteration, terminal);
            let after = committed(markers, selected, iteration);
            &&& forall|k: int| 0 <= k < selected.len()
                ==> !stream_due(after[#[trigger] selected[k] as int], samplings[selected[k] as int], iteration, later_terminal)
            &&& due_indices(after, samplings, iteration, terminal).len() == 0
        }),
{
    let n = markers.len();
    let idx = indices_upto(n);
    let p1 = |i: usize| stream_due(markers[i as int], samplings[i as int], iteration, terminal);
    let selected = idx.filter(p1);
    let after = committed(markers, selected, iteration);
    let p2 = |i: usize| stream_due(after[i as int], samplings[i as int], iteration, terminal);
    broadcast use vstd::seq_lib::group_filter_ensures;
    assert forall|k: int| 0 <= k < selected.len() implies
        !stream_due(after[#[trigger] selected[k] as int], samplings[selected[k] as int], iteration, later_terminal) by {
        assert(selected.contains(selected[k]));
        idx.lemma_filter_contains_rev(p1, selected[k]);
        let j = choose|j: int| 0 <= j < idx.len() && idx[j] == selected[k];
        assert(after[selected[k] as int] == Some(iteration));
    }
    assert forall|k: int| 0 <= k < idx.len() implies !p2(#[trigger] idx[k]) by {
        assert(idx[k] == k as usize);
        if p1(idx[k]) {
            assert(selected.contains(idx[k]));
        }
    }
    assert(idx.all(|x: usize| !p2(x)));
    idx.lemma_all_neg_filter_empty(p2);
}

/// Accepted iterations never move backward: when no stream has accepted an
/// iteration after `iteration`, committing `iteration` leaves every marker
/// at least where it was.
pub proof fn law_markers_never_move_backward(markers: Seq<Option<u64>>, selected: Seq<usize>, iteration: u64)
    requires
        forall|i: int| 0 <= i < markers.len() ==> !#[trigger] regressed(markers[i], iteration),
    ensures
        ({
            let after = committed(markers, selected, iteration);
            &&& after.len() == markers.len()
            &&& forall|i: int| 0 <= i < markers.len() && (#[trigger] markers[i]) is Some
                ==> after[i] is Some && markers[i]->0 <= after[i]->0
        }),
{
    let after = committed(markers, selected, iteration);
    assert forall|i: int| 0 <= i < markers.len() && (#[trigger] markers[i]) is Some
        implies after[i] is Some && markers[i]->0 <= after[i]->0 by {
        assert(!regressed(markers[i], iteration));
    }
}

} // verus!
