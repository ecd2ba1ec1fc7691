use crate::model::{PlayerDTO, PlayerDtoView, PlayerView, dto_is_valid, finite_bits, record_of};
use crate::snapshot::State;
use vstd::prelude::*;

verus! {

/// Why an update was rejected.
#[derive(Clone, Copy, Debug, PartialEq, Eq, Structural)]
pub enum IngestError {
    /// The identity key is empty.
    EmptyKey,
    /// A coordinate is infinite or not a number.
    NonFiniteCoordinate,
}

/// The error that an invalid update is rejected with: an empty key is
/// reported before a bad coordinate.
pub open spec fn error_of(d: PlayerDtoView) -> IngestError {
    if d.username.len() == 0 {
        IngestError::EmptyKey
    } else {
        IngestError::NonFiniteCoordinate
    }
}

/// The snapshot contents after one submitted update at time `now`: a valid
/// update inserts or overwrites its key, an invalid one changes nothing.
pub open spec fn submit_spec(m: Map<Seq<char>, PlayerView>, d: PlayerDtoView, now: u64) -> Map<
    Seq<char>,
    PlayerView,
> {
    if dto_is_valid(d) {
        m.insert(d.username, record_of(d, now))
    } else {
        m
    }
}

/// The snapshot contents after a sequence of submissions, each with its
/// own time stamp, applied in order to `m`.
pub open spec fn fold_submits(m: Map<Seq<char>, PlayerView>, us: Seq<(PlayerDtoView, u64)>) -> Map<
    Seq<char>,
    PlayerView,
>
    decreases us.len(),
{
    if us.len() == 0 {
        m
    } else {
        submit_spec(fold_submits(m, us.drop_last()), us.last().0, us.last().1)
    }
}

/// Whether submission `i` of `us` is a valid update of key `k`.
pub open spec fn updates_key(us: Seq<(PlayerDtoView, u64)>, i: int, k: Seq<char>) -> bool {
    dto_is_valid(us[i].0) && us[i].0.username == k
}

/// Event-driven merge: the new snapshot is `prev` with the update's record
/// stored under its key. A malformed update is rejected and `prev` is left
/// as it was.
pub fn submit(prev: &State, update: &PlayerDTO, now: u64) -> (r: Result<State, IngestError>)
    ensures
        r is Ok <==> dto_is_valid(update@),
        r matches Ok(s) ==> s@ == submit_spec(prev@, update@, now),
        r matches Err(e) ==> e == error_of(update@),
{
    if update.username.as_str().is_empty() {
        Err(IngestError::EmptyKey)
    } else if !finite_bits(update.x) || !finite_bits(update.y) {
        Err(IngestError::NonFiniteCoordinate)
    } else {
        let mut next = State::from(prev);
        next.update_player(update, now);
        Ok(next)
    }
}

/// The latest valid update of `k` decides the entry of `k`.
proof fn lemma_merge_latest(m: Map<Seq<char>, PlayerView>, us: Seq<(PlayerDtoView, u64)>, k: Seq<char>, i: int)
    requires
        0 <= i < us.len(),
        updates_key(us, i, k),
        forall|j: int| i < j < us.len() ==> !updates_key(us, j, k),
    ensures
        fold_submits(m, us).contains_key(k),
        fold_submits(m, us)[k] == record_of(us[i].0, us[i].1),
    decreases us.len(),
{
    let t = us.drop_last();
    let n = us.len() - 1;
    if i < n {
        assert(!updates_key(us, n, k));
        assert(updates_key(t, i, k));
        assert forall|j: int| i < j < t.len() implies !updates_key(t, j, k) by {
            assert(!updates_key(us, j, k));
        }
        lemma_merge_latest(m, t, k, i);
    }
}

/// A key that no valid update names keeps its entry, or its absence.
proof fn lemma_merge_untouched(m: Map<Seq<char>, PlayerView>, us: Seq<(PlayerDtoView, u64)>, k: Seq<char>)
    requires
        forall|i: int| 0 <= i < us.len() ==> !updates_key(us, i, k),
    ensures
        fold_submits(m, us).contains_key(k) == m.contains_key(k),
        m.contains_key(k) ==> fold_submits(m, us)[k] == m[k],
    decreases us.len(),
{
    if us.len() > 0 {
        let t = us.drop_last();
        assert(!updates_key(us, us.len() - 1, k));
        assert forall|i: int| 0 <= i < t.len() implies !updates_key(t, i, k) by {
            assert(!updates_key(us, i, k));
        }
        lemma_merge_untouched(m, t, k);
    }
}

/// For every sequence of submissions, the entry of key `k` is the record of
/// the latest valid update of `k`; a key that no valid update names keeps
/// its entry (or its absence) from the starting snapshot.
pub proof fn lemma_merge_correct(m: Map<Seq<char>, PlayerView>, us: Seq<(PlayerDtoView, u64)>, k: Seq<char>)
    ensures
        forall|i: int|
            0 <= i < us.len() && #[trigger] updates_key(us, i, k) && (forall|j: int|
                i < j < us.len() ==> !updates_key(us, j, k)) ==> fold_submits(m, us).contains_key(k)
                && fold_submits(m, us)[k] == record_of(us[i].0, us[i].1),
        (forall|i: int| 0 <= i < us.len() ==> !updates_key(us, i, k)) ==> fold_submits(m, us).contains_key(k)
            == m.contains_key(k) && (m.contains_key(k) ==> fold_submits(m, us)[k] == m[k]),
{
    assert forall|i: int|
        0 <= i < us.len() && #[trigger] updates_key(us, i, k) && (forall|j: int|
            i < j < us.len() ==> !updates_key(us, j, k)) implies fold_submits(m, us).contains_key(k)
        && fold_submits(m, us)[k] == record_of(us[i].0, us[i].1) by {
        lemma_merge_latest(m, us, k, i);
    }
    if forall|i: int| 0 <= i < us.len() ==> !updates_key(us, i, k) {
        lemma_merge_untouched(m, us, k);
    }
}

pub open spec fn dto_views(rows: Seq<PlayerDTO>) -> Seq<PlayerDtoView> {
    rows.map_values(|d: PlayerDTO| d@)
}

/// The snapshot contents that a full read of the backing store gives when
/// every row is stamped `now`; of two rows with one key the later wins.
pub open spec fn map_of_rows(rows: Seq<PlayerDtoView>, now: u64) -> Map<Seq<char>, PlayerView>
    decreases rows.len(),
{
    if rows.len() == 0 {
        Map::empty()
    } else {
        map_of_rows(rows.drop_last(), now).insert(rows.last().username, record_of(rows.last(), now))
    }
}

/// The identity keys that occur among the rows.
pub open spec fn keys_of_rows(rows: Seq<PlayerDtoView>) -> Set<Seq<char>> {
    Set::new(|k: Seq<char>| exists|i: int| 0 <= i < rows.len() && rows[i].username == k)
}

pub open spec fn rows_valid(rows: Seq<PlayerDtoView>) -> bool {
    forall|i: int| 0 <= i < rows.len() ==> dto_is_valid(#[trigger] rows[i])
}

/// The key set of a replacement snapshot is exactly the key set of the rows.
pub proof fn lemma_rows_keys(rows: Seq<PlayerDtoView>, now: u64)
    ensures
        map_of_rows(rows, now).dom() == keys_of_rows(rows),
    decreases rows.len(),
{
    if rows.len() > 0 {
        let t = rows.drop_last();
        lemma_rows_keys(t, now);
        assert forall|k: Seq<char>| #[trigger] keys_of_rows(rows).contains(k) implies map_of_rows(
            rows,
            now,
        ).dom().contains(k) by {
            let i = choose|i: int| 0 <= i < rows.len() && rows[i].username == k;
            if i < rows.len() - 1 {
                assert(t[i].username == k);
                assert(keys_of_rows(t).contains(k));
            }
        }
        assert forall|k: Seq<char>| #[trigger] map_of_rows(rows, now).dom().contains(k) implies keys_of_rows(
            rows,
        ).contains(k) by {
            if k != rows.last().username {
                assert(keys_of_rows(t).contains(k));
                let i = choose|i: int| 0 <= i < t.len() && t[i].username == k;
                assert(rows[i].username == k);
            } else {
                assert(rows[rows.len() - 1].username == k);
            }
        }
        assert(map_of_rows(rows, now).dom() =~= keys_of_rows(rows));
    }
}

/// Poll-driven replacement: when every row read from the backing store is
/// well formed, the new snapshot holds exactly the rows' players, whatever
/// `prev` held. Otherwise the tick is skipped: a copy of `prev` comes back
/// with the error of the first malformed row.
pub fn poll_tick(prev: &State, rows: &Vec<PlayerDTO>, now: u64) -> (r: (State, Option<IngestError>))
    ensures
        r.1 is None <==> rows_valid(dto_views(rows@)),
        r.1 is None ==> r.0@ == map_of_rows(dto_views(rows@), now),
        r.1 is None ==> r.0@.dom() == keys_of_rows(dto_views(rows@)),
        r.1 matches Some(e) ==> r.0@ == prev@ && exists|i: int|
            0 <= i < rows.len() && !dto_is_valid(rows@[i]@) && e == error_of(rows@[i]@) && (forall|j: int|
                0 <= j < i ==> dto_is_valid(#[trigger] rows@[j]@)),
{
    let ghost views = dto_views(rows@);
    let n = rows.len();
    let mut i: usize = 0;
    while i < n
        invariant
            n == rows.len(),
            0 <= i <= n,
            views == dto_views(rows@),
            forall|j: int| 0 <= j < i ==> dto_is_valid(#[trigger] rows@[j]@),
        decreases n - i,
    {
        if !rows[i].is_valid() {
            let e = if rows[i].username.as_str().is_empty() {
                IngestError::EmptyKey
            } else {
                IngestError::NonFiniteCoordinate
            };
            proof {
                assert(!dto_is_valid(views[i as int]));
                assert(!dto_is_valid(rows@[i as int]@) && e == error_of(rows@[i as int]@));
            }
            return (State::from(prev), Some(e));
        }
        i = i + 1;
    }
    proof {
        assert forall|j: int| 0 <= j < views.len() implies dto_is_valid(#[trigger] views[j]) by {
            assert(dto_is_valid(rows@[j]@));
        }
    }
    let mut s = State::new();
    let mut i: usize = 0;
    while i < n
        invariant
            n == rows.len(),
            0 <= i <= n,
            views == dto_views(rows@),
            s@ == map_of_rows(views.take(i as int), now),
        decreases n - i,
    {
        proof {
            assert(views.take(i + 1).drop_last() =~= views.take(i as int));
        }
        s.update_player(&rows[i], now);
        i = i + 1;
    }
    proof {
        assert(views.take(n as int) =~= views);
        lemma_rows_keys(views, now);
    }
    (s, None)
}

} // verus!
