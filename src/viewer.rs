use crate::model::{Player, Position};
use crate::snapshot::{State, lemma_map_of, lemma_unique_len, views_of};
use vstd::prelude::*;

verus! {

/// What a viewer's broadcaster does next.
#[derive(Clone, Copy, Debug, PartialEq, Eq, Structural)]
pub enum BroadcastAction {
    /// Read the latest snapshot and send it to the viewer.
    SendSnapshot,
    /// The connection is gone: end the task and release the connection.
    Stop,
}

/// The per-connection broadcast loop, as a state machine. The task that runs
/// it reports each timer tick and the outcome of each send; the machine
/// decides whether to send again. Each connection owns its own machine, so
/// the end of one never touches another.
#[derive(Clone, Copy, Debug)]
pub struct Broadcaster {
    open: bool,
    sent: u64,
}

pub ghost struct BroadcasterView {
    pub open: bool,
    pub sent: u64,
}

impl View for Broadcaster {
    type V = BroadcasterView;

    closed spec fn view(&self) -> BroadcasterView {
        BroadcasterView { open: self.open, sent: self.sent }
    }
}

impl Broadcaster {
    /// A broadcaster for a connection that was just opened.
    pub fn new() -> (r: Self)
        ensures
            r@.open,
            r@.sent == 0,
    {
        Broadcaster { open: true, sent: 0 }
    }

    /// Whether the connection is still served.
    pub fn is_open(&self) -> (r: bool)
        ensures
            r == self@.open,
    {
        self.open
    }

    /// Number of snapshots delivered so far (saturating).
    pub fn sent(&self) -> (r: u64)
        ensures
            r == self@.sent,
    {
        self.sent
    }

    /// A timer tick: send while the connection is open, stop once it is not.
    pub fn on_tick(&self) -> (r: BroadcastAction)
        ensures
            r == (if self@.open {
                BroadcastAction::SendSnapshot
            } else {
                BroadcastAction::Stop
            }),
    {
        if self.open {
            BroadcastAction::SendSnapshot
        } else {
            BroadcastAction::Stop
        }
    }

    /// The outcome of a send. A failed send closes the connection for good;
    /// it is never retried.
    pub fn on_send_result(&mut self, delivered: bool)
        ensures
            final(self)@ == after_send(old(self)@, delivered),
    {
        if self.open && delivered {
            if self.sent < u64::MAX {
                self.sent = self.sent + 1;
            }
        } else {
            self.open = false;
        }
    }
}

/// The machine after a send with the given outcome.
pub open spec fn after_send(v: BroadcasterView, delivered: bool) -> BroadcasterView {
    BroadcasterView {
        open: v.open && delivered,
        sent: if v.open && delivered && v.sent < u64::MAX {
            (v.sent + 1) as u64
        } else {
            v.sent
        },
    }
}

/// The number of sends that a connection's loop makes when it starts in `v`
/// and its successive sends have the given outcomes: one send per tick while
/// the machine says to send, none once it says to stop.
pub open spec fn sends_made(v: BroadcasterView, outcomes: Seq<bool>) -> nat
    decreases outcomes.len(),
{
    if outcomes.len() == 0 || !v.open {
        0
    } else {
        1 + sends_made(after_send(v, outcomes[0]), outcomes.drop_first())
    }
}

/// When the sends of an open connection succeed up to send `k` and send `k`
/// fails, exactly `k + 1` sends are made: the failed one is not retried and
/// no later tick sends again, whatever outcomes would follow.
pub proof fn lemma_stops_after_failed_send(v: BroadcasterView, outcomes: Seq<bool>, k: int)
    requires
        v.open,
        0 <= k < outcomes.len(),
        !outcomes[k],
        forall|j: int| 0 <= j < k ==> outcomes[j],
    ensures
        sends_made(v, outcomes) == k + 1,
    decreases k,
{
    let rest = outcomes.drop_first();
    if k == 0 {
        assert(!after_send(v, outcomes[0]).open);
        assert(sends_made(after_send(v, outcomes[0]), rest) == 0);
    } else {
        assert(outcomes[0]);
        assert forall|j: int| 0 <= j < k - 1 implies rest[j] by {
            assert(outcomes[j + 1]);
        }
        assert(!rest[k - 1]);
        lemma_stops_after_failed_send(after_send(v, outcomes[0]), rest, k - 1);
    }
}

/// A player as viewers see it: the internal update stamp is left out.
#[derive(Clone, Debug)]
pub struct WirePlayer {
    pub character_name: String,
    pub name: String,
    pub position: Position,
}

/// The list of players that is sent to a viewer for one snapshot: one entry
/// per key of the snapshot, each with the record's name fields and position.
pub fn wire_players(snapshot: &State) -> (r: Vec<WirePlayer>)
    ensures
        r.len() == snapshot@.len(),
        forall|i: int|
            0 <= i < r.len() ==> snapshot@.contains_key(#[trigger] r@[i].name@) && snapshot@[r@[i].name@].character_name
                == r@[i].character_name@ && snapshot@[r@[i].name@].position == r@[i].position,
        forall|k: Seq<char>| #[trigger] snapshot@.contains_key(k) ==> exists|i: int| 0 <= i < r.len() && r@[i].name@ == k,
{
    let players = snapshot.players();
    let n = players.len();
    let ghost vs = views_of(players@);
    proof {
        lemma_map_of(vs);
        lemma_unique_len(vs);
    }
    let mut out: Vec<WirePlayer> = Vec::new();
    let mut i: usize = 0;
    while i < n
        invariant
            n == players.len(),
            0 <= i <= n,
            vs == views_of(players@),
            out.len() == i,
            forall|j: int|
                0 <= j < i ==> (#[trigger] out@[j]).name@ == vs[j].name && out@[j].character_name@
                    == vs[j].character_name && out@[j].position == vs[j].position,
        decreases n - i,
    {
        let p: &Player = &players[i];
        out.push(
            WirePlayer {
                character_name: p.character_name().clone(),
                name: p.name().clone(),
                position: p.position(),
            },
        );
        i = i + 1;
    }
    proof {
        assert forall|j: int| 0 <= j < out.len() implies snapshot@.contains_key(#[trigger] out@[j].name@)
            && snapshot@[out@[j].name@].character_name == out@[j].character_name@
            && snapshot@[out@[j].name@].position == out@[j].position by {
            assert(vs[j].name == out@[j].name@);
        }
        assert forall|k: Seq<char>| #[trigger] snapshot@.contains_key(k) implies exists|j: int|
            0 <= j < out.len() && out@[j].name@ == k by {
            let j = choose|j: int| 0 <= j < vs.len() && vs[j].name == k;
            assert(out@[j].name@ == k);
        }
    }
    out
}

} // verus!
