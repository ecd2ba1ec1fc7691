use std::sync::Arc;
use zomboid_map::viewer::{wire_players, BroadcastAction, Broadcaster};
use zomboid_map::ingest::{poll_tick, submit, IngestError};
use zomboid_map::model::{finite_bits, Player, PlayerDTO, Position};
use zomboid_map::snapshot::State;
use zomboid_map::store::StateStore;
use zomboid_map::util::Directory;

fn dto(key: &str, forename: &str, surname: &str, x: f32, y: f32) -> PlayerDTO {
    PlayerDTO::new(
        key.to_string(),
        forename.to_string(),
        surname.to_string(),
        x.to_bits(),
        y.to_bits(),
    )
}

fn find<'a>(s: &'a State, key: &str) -> Option<&'a Player> {
    s.players().iter().find(|p| p.name() == key)
}

fn xy(p: &Player) -> (f32, f32) {
    let pos = p.position();
    (f32::from_bits(pos.x), f32::from_bits(pos.y))
}

#[test]
fn submit_then_current_has_alice() {
    let mut store = StateStore::new();
    let (prev, next) = store.submit(&dto("alice", "A", "B", 1.0, 2.0), 1).unwrap();
    assert_eq!(prev.len(), 0);
    assert_eq!(next.len(), 1);
    let snap = store.current();
    assert_eq!(snap.len(), 1);
    let alice = find(&snap, "alice").unwrap();
    assert_eq!(xy(alice), (1.0, 2.0));
    assert_eq!(alice.character_name(), "A B");
    assert_eq!(alice.last_updated_at(), 1);
}

#[test]
fn second_submit_overwrites_position() {
    let mut store = StateStore::new();
    store.submit(&dto("alice", "A", "B", 1.0, 2.0), 1).unwrap();
    store.submit(&dto("alice", "A", "B", 5.5, -3.0), 2).unwrap();
    let snap = store.current();
    assert_eq!(snap.len(), 1);
    assert_eq!(xy(find(&snap, "alice").unwrap()), (5.5, -3.0));
}

#[test]
fn submit_leaves_other_keys_alone() {
    let s0 = State::new();
    let s1 = submit(&s0, &dto("alice", "A", "B", 1.0, 2.0), 1).unwrap();
    let s2 = submit(&s1, &dto("bob", "C", "D", 3.0, 4.0), 2).unwrap();
    let s3 = submit(&s2, &dto("bob", "C", "D", 7.0, 8.0), 3).unwrap();
    assert_eq!(s3.len(), 2);
    assert_eq!(xy(find(&s3, "alice").unwrap()), (1.0, 2.0));
    assert_eq!(find(&s3, "alice").unwrap().last_updated_at(), 1);
    assert_eq!(xy(find(&s3, "bob").unwrap()), (7.0, 8.0));
}

#[test]
fn empty_key_is_rejected() {
    let s0 = submit(&State::new(), &dto("alice", "A", "B", 1.0, 2.0), 1).unwrap();
    let r = submit(&s0, &dto("", "A", "B", 1.0, 2.0), 2);
    assert_eq!(r.err(), Some(IngestError::EmptyKey));
    assert_eq!(s0.len(), 1);
}

#[test]
fn non_finite_coordinate_is_rejected() {
    let mut store = StateStore::new();
    store.submit(&dto("alice", "A", "B", 1.0, 2.0), 1).unwrap();
    assert_eq!(
        store.submit(&dto("alice", "A", "B", f32::NAN, 2.0), 2).err(),
        Some(IngestError::NonFiniteCoordinate)
    );
    assert_eq!(
        store.submit(&dto("alice", "A", "B", 1.0, f32::INFINITY), 3).err(),
        Some(IngestError::NonFiniteCoordinate)
    );
    let snap = store.current();
    assert_eq!(xy(find(&snap, "alice").unwrap()), (1.0, 2.0));
}

#[test]
fn empty_key_reported_before_bad_coordinate() {
    let r = submit(&State::new(), &dto("", "A", "B", f32::NAN, 0.0), 1);
    assert_eq!(r.err(), Some(IngestError::EmptyKey));
}

#[test]
fn finite_bits_matches_float_classification() {
    for v in [0.0f32, -0.0, 1.0, -2.5, f32::MAX, f32::MIN_POSITIVE, 1e-45] {
        assert!(finite_bits(v.to_bits()));
    }
    for v in [f32::NAN, f32::INFINITY, f32::NEG_INFINITY] {
        assert!(!finite_bits(v.to_bits()));
    }
}

#[test]
fn poll_replaces_and_drops_missing_players() {
    let mut store = StateStore::new();
    let first = store.poll(&vec![dto("bob", "C", "D", 3.0, 4.0)], 1).unwrap();
    assert_eq!(first.len(), 1);
    assert_eq!(store.current().len(), 1);
    let second = store.poll(&vec![], 2).unwrap();
    assert_eq!(second.len(), 0);
    assert_eq!(store.current().len(), 0);
    assert_eq!(first.len(), 1);
}

#[test]
fn poll_key_set_is_store_key_set() {
    let prev = submit(&State::new(), &dto("carol", "E", "F", 0.0, 0.0), 1).unwrap();
    let rows = vec![
        dto("alice", "A", "B", 1.0, 2.0),
        dto("bob", "C", "D", 3.0, 4.0),
        dto("alice", "A", "B", 9.0, 9.0),
    ];
    let (next, err) = poll_tick(&prev, &rows, 5);
    assert_eq!(prev.len(), 1);
    assert_eq!(err, None);
    assert_eq!(next.len(), 2);
    assert!(find(&next, "carol").is_none());
    assert_eq!(xy(find(&next, "alice").unwrap()), (9.0, 9.0));
    assert_eq!(find(&next, "bob").unwrap().last_updated_at(), 5);
}

#[test]
fn malformed_poll_skips_tick() {
    let mut store = StateStore::new();
    store.poll(&vec![dto("bob", "C", "D", 3.0, 4.0)], 1).unwrap();
    let rows = vec![dto("alice", "A", "B", 1.0, 2.0), dto("", "x", "y", 0.0, 0.0)];
    assert_eq!(store.poll(&rows, 2).err(), Some(IngestError::EmptyKey));
    let snap = store.current();
    assert_eq!(snap.len(), 1);
    assert!(find(&snap, "bob").is_some());
    let (kept, err) = poll_tick(&snap, &vec![dto("z", "x", "y", f32::NEG_INFINITY, 0.0)], 3);
    assert_eq!(err, Some(IngestError::NonFiniteCoordinate));
    assert!(find(&kept, "bob").is_some());
}

#[test]
fn held_snapshot_is_unchanged_by_publish() {
    let mut store = StateStore::new();
    store.submit(&dto("alice", "A", "B", 1.0, 2.0), 1).unwrap();
    let held: Arc<State> = store.reader().current();
    store.submit(&dto("alice", "A", "B", 3.0, 4.0), 2).unwrap();
    store.submit(&dto("bob", "C", "D", 5.0, 6.0), 3).unwrap();
    assert_eq!(held.len(), 1);
    assert_eq!(xy(find(&held, "alice").unwrap()), (1.0, 2.0));
    assert_eq!(store.current().len(), 2);
}

#[test]
fn empty_store_reads_empty_snapshot() {
    let mut store = StateStore::new();
    assert_eq!(store.current().len(), 0);
    assert!(wire_players(&store.current()).is_empty());
}

#[test]
fn state_from_copies_contents() {
    let s = submit(&State::new(), &dto("alice", "A", "B", 1.0, 2.0), 1).unwrap();
    let c = State::from(&s);
    assert_eq!(c.len(), 1);
    assert_eq!(xy(find(&c, "alice").unwrap()), (1.0, 2.0));
}

#[test]
fn from_dto_builds_record() {
    let p = Player::from_dto(&dto("alice", "Jane", "Doe", 1.5, 2.5), 42);
    assert_eq!(p.name(), "alice");
    assert_eq!(p.character_name(), "Jane Doe");
    assert_eq!(p.position(), Position::new(1.5f32.to_bits(), 2.5f32.to_bits()));
    assert_eq!(p.last_updated_at(), 42);
}

#[test]
fn late_viewers_both_see_alice() {
    let mut store = StateStore::new();
    let viewers = store.reader();
    let mut early = Broadcaster::new();
    assert_eq!(early.on_tick(), BroadcastAction::SendSnapshot);
    assert!(wire_players(&viewers.current()).is_empty());
    early.on_send_result(true);
    store.submit(&dto("alice", "A", "B", 1.0, 2.0), 1).unwrap();
    let mut late = Broadcaster::new();
    for b in [&mut early, &mut late] {
        assert_eq!(b.on_tick(), BroadcastAction::SendSnapshot);
        let wire = wire_players(&viewers.current());
        assert_eq!(wire.len(), 1);
        assert_eq!(wire[0].name, "alice");
        assert_eq!(wire[0].character_name, "A B");
        b.on_send_result(true);
    }
    assert_eq!(early.sent(), 2);
    assert_eq!(late.sent(), 1);
}

#[test]
fn failed_send_on_third_tick_stops_only_that_viewer() {
    let mut store = StateStore::new();
    store.submit(&dto("alice", "A", "B", 1.0, 2.0), 1).unwrap();
    let mut a = Broadcaster::new();
    let mut b = Broadcaster::new();
    for tick in 1..=3 {
        assert_eq!(a.on_tick(), BroadcastAction::SendSnapshot);
        a.on_send_result(tick != 3);
        assert_eq!(b.on_tick(), BroadcastAction::SendSnapshot);
        b.on_send_result(true);
    }
    assert!(!a.is_open());
    assert_eq!(a.sent(), 2);
    for _ in 0..3 {
        assert_eq!(a.on_tick(), BroadcastAction::Stop);
        a.on_send_result(true);
        assert!(!a.is_open());
        assert_eq!(b.on_tick(), BroadcastAction::SendSnapshot);
        b.on_send_result(true);
    }
    assert_eq!(b.sent(), 6);
    assert_eq!(store.current().len(), 1);
}

#[test]
fn directory_requires_a_directory() {
    assert!(Directory::new("/srv/map".to_string(), false).is_none());
    assert!(Directory::new("/srv/map".to_string(), true).is_some());
}

#[test]
fn path_to_joins_relative_and_keeps_absolute() {
    let d = Directory::new("/srv/map".to_string(), true).unwrap();
    assert_eq!(d.path_to("index.html"), "/srv/map/index.html");
    assert_eq!(d.path_to("/etc/x"), "/etc/x");
    let slash = Directory::new("static/".to_string(), true).unwrap();
    assert_eq!(slash.path_to("a.js"), "static/a.js");
}

#[test]
fn readers_see_what_the_writer_published() {
    let mut store = StateStore::new();
    let first = store.reader();
    let second = first.duplicate();
    assert_eq!(first.current().len(), 0);
    store.submit(&dto("alice", "A", "B", 1.0, 2.0), 1).unwrap();
    store.submit(&dto("bob", "C", "D", 3.0, 4.0), 2).unwrap();
    for r in [&first, &second] {
        let snap = r.current();
        assert_eq!(snap.len(), 2);
        assert_eq!(xy(find(&snap, "alice").unwrap()), (1.0, 2.0));
    }
    let replaced = store.poll(&vec![dto("carol", "E", "F", 0.0, 0.0)], 3).unwrap();
    assert_eq!(replaced.len(), 1);
    assert!(find(&second.current(), "alice").is_none());
    assert!(find(&store.current(), "carol").is_some());
}
