use crate::ingest::{
    IngestError, dto_views, error_of, keys_of_rows, map_of_rows, poll_tick, rows_valid, submit, submit_spec,
};
use crate::model::{PlayerDTO, PlayerView, dto_is_valid};
use crate::snapshot::State;
use arc_swap::ArcSwap;
use std::sync::Arc;
use vstd::prelude::*;

verus! {

/// An atomic cell holding a reference-counted snapshot. `ArcSwap`'s
/// default strategy is a private type of its crate, which Verus cannot
/// declare, so the cell is kept opaque.
#[verifier::external_body]
pub struct SnapshotCell {
    inner: ArcSwap<State>,
}

/// Relies on `ArcSwapAny::new`: a new atomic cell that holds `s`.
#[verifier::external_body]
fn cell_new(s: Arc<State>) -> SnapshotCell {
    SnapshotCell { inner: ArcSwap::new(s) }
}

/// Relies on `ArcSwapAny::load_full`: a wait-free copy of the `Arc` held at
/// this moment. The writer may store at any time, so nothing is known of
/// which snapshot comes back.
#[verifier::external_body]
fn cell_load(c: &SnapshotCell) -> Arc<State> {
    c.inner.load_full()
}

/// Relies on `ArcSwapAny::store`: atomically replaces the held `Arc`.
#[verifier::external_body]
fn cell_store(c: &SnapshotCell, s: Arc<State>) {
    c.inner.store(s)
}

/// The writing end of the shared snapshot: there is one, owned by the
/// active ingestion task, so merges are never lost. It remembers the
/// snapshot it last published, which is its view. Readers never block it:
/// it replaces the shared reference atomically and never changes a
/// snapshot.
pub struct StateStore {
    cell: Arc<SnapshotCell>,
    latest: Arc<State>,
}

impl View for StateStore {
    type V = Map<Seq<char>, PlayerView>;

    closed spec fn view(&self) -> Map<Seq<char>, PlayerView> {
        self.latest@
    }
}

/// A reading end of the shared snapshot, for the viewers' tasks. It can
/// only read, so no viewer can change what others see.
pub struct SnapshotReader {
    cell: Arc<SnapshotCell>,
}

impl StateStore {
    /// A store that holds the empty snapshot.
    pub fn new() -> (r: Self)
        ensures
            r@ == Map::<Seq<char>, PlayerView>::empty(),
    {
        let latest = Arc::new(State::new());
        let cell = Arc::new(cell_new(latest.clone()));
        StateStore { cell, latest }
    }

    /// A new reading end of this store.
    pub fn reader(&self) -> (r: SnapshotReader) {
        SnapshotReader { cell: self.cell.clone() }
    }

    /// Makes `snapshot` the one that later reads return, and hands back a
    /// reference to it.
    pub fn publish(&mut self, snapshot: State) -> (r: Arc<State>)
        ensures
            r@ == snapshot@,
            final(self)@ == snapshot@,
    {
        let stored = Arc::new(snapshot);
        cell_store(&self.cell, stored.clone());
        self.latest = stored.clone();
        stored
    }

    /// The snapshot this store last published (the empty one before any).
    pub fn current(&self) -> (r: Arc<State>)
        ensures
            r@ == self@,
    {
        self.latest.clone()
    }

    /// Merges one update into the latest snapshot and publishes the result.
    /// A malformed update is rejected and nothing is published. On success
    /// the snapshot that was read and the one that was published come back.
    pub fn submit(&mut self, update: &PlayerDTO, now: u64) -> (r: Result<(Arc<State>, Arc<State>), IngestError>)
        ensures
            r is Ok <==> dto_is_valid(update@),
            r matches Ok((prev, next)) ==> prev@ == old(self)@ && next@ == submit_spec(old(self)@, update@, now)
                && final(self)@ == next@,
            r matches Err(e) ==> e == error_of(update@) && final(self)@ == old(self)@,
    {
        let prev = self.current();
        match submit(&*prev, update, now) {
            Ok(next) => {
                let next = self.publish(next);
                Ok((prev, next))
            },
            Err(e) => Err(e),
        }
    }

    /// One poll tick: replaces the snapshot with the players read from the
    /// backing store and returns the published snapshot, which holds exactly
    /// the rows' players. When a row is malformed the tick is skipped, the
    /// visible snapshot stays as it is, and the first bad row's error comes
    /// back.
    pub fn poll(&mut self, rows: &Vec<PlayerDTO>, now: u64) -> (r: Result<Arc<State>, IngestError>)
        ensures
            r is Ok <==> rows_valid(dto_views(rows@)),
            r matches Ok(s) ==> s@ == map_of_rows(dto_views(rows@), now) && final(self)@ == s@,
            r matches Ok(s) ==> s@.dom() == keys_of_rows(dto_views(rows@)),
            r matches Err(e) ==> final(self)@ == old(self)@ && exists|i: int|
                0 <= i < rows.len() && !dto_is_valid(rows@[i]@) && e == error_of(rows@[i]@) && (forall|j: int|
                    0 <= j < i ==> dto_is_valid(#[trigger] rows@[j]@)),
    {
        let prev = self.current();
        let (next, err) = poll_tick(&*prev, rows, now);
        match err {
            None => Ok(self.publish(next)),
            Some(e) => Err(e),
        }
    }
}

impl SnapshotReader {
    /// The latest published snapshot at the moment of the call. The writer
    /// may publish concurrently, so which one that is cannot be stated here.
    pub fn current(&self) -> (r: Arc<State>) {
        cell_load(&self.cell)
    }

    /// Another reading end of the same store.
    pub fn duplicate(&self) -> (r: SnapshotReader) {
        SnapshotReader { cell: self.cell.clone() }
    }
}

} // verus!
