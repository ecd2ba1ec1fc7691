use crate::model::{Player, PlayerDTO, PlayerView, record_of};
use vstd::prelude::*;

verus! {

/// The mapping that a list of records stands for: a later record of a key
/// overrides an earlier one.
pub open spec fn map_of(s: Seq<PlayerView>) -> Map<Seq<char>, PlayerView>
    decreases s.len(),
{
    if s.len() == 0 {
        Map::empty()
    } else {
        map_of(s.drop_last()).insert(s.last().name, s.last())
    }
}

/// No two records share an identity key.
pub open spec fn keys_unique(s: Seq<PlayerView>) -> bool {
    forall|i: int, j: int| 0 <= i < j < s.len() ==> s[i].name != s[j].name
}

pub open spec fn views_of(v: Seq<Player>) -> Seq<PlayerView> {
    v.map_values(|p: Player| p@)
}

/// The keys of `map_of(s)` are exactly the keys that occur in `s`, and with
/// unique keys each record is the value of its own key.
pub proof fn lemma_map_of(s: Seq<PlayerView>)
    ensures
        forall|k: Seq<char>|
            #[trigger] map_of(s).contains_key(k) <==> exists|j: int| 0 <= j < s.len() && s[j].name == k,
        keys_unique(s) ==> forall|j: int| 0 <= j < s.len() ==> map_of(s)[#[trigger] s[j].name] == s[j],
    decreases s.len(),
{
    if s.len() > 0 {
        let t = s.drop_last();
        lemma_map_of(t);
        assert(map_of(s) == map_of(t).insert(s.last().name, s.last()));
        assert forall|k: Seq<char>|
            #[trigger] map_of(s).contains_key(k) <== exists|j: int| 0 <= j < s.len() && s[j].name == k by {
            if exists|j: int| 0 <= j < s.len() && s[j].name == k {
                let j = choose|j: int| 0 <= j < s.len() && s[j].name == k;
                if j < s.len() - 1 {
                    assert(t[j].name == k);
                    assert(map_of(t).contains_key(k));
                }
            }
        }
        assert forall|k: Seq<char>|
            #[trigger] map_of(s).contains_key(k) ==> exists|j: int| 0 <= j < s.len() && s[j].name == k by {
            if map_of(s).contains_key(k) && k != s.last().name {
                assert(map_of(t).contains_key(k));
                let j = choose|j: int| 0 <= j < t.len() && t[j].name == k;
                assert(s[j].name == k);
            }
        }
        if keys_unique(s) {
            assert forall|j: int| 0 <= j < s.len() implies map_of(s)[#[trigger] s[j].name] == s[j] by {
                if j < s.len() - 1 {
                    assert(t[j] == s[j]);
                    assert(s[j].name != s.last().name);
                }
            }
        }
    }
}

/// A snapshot: the world as of one moment, a mapping from identity key to
/// player record. A snapshot is never changed after it is built; a new one
/// takes its place.
#[derive(Debug)]
pub struct State {
    players: Vec<Player>,
}

impl View for State {
    type V = Map<Seq<char>, PlayerView>;

    closed spec fn view(&self) -> Map<Seq<char>, PlayerView> {
        map_of(views_of(self.players@))
    }
}

impl State {
    #[verifier::type_invariant]
    spec fn inv(&self) -> bool {
        keys_unique(views_of(self.players@))
    }

    /// The empty snapshot.
    pub fn new() -> (r: Self)
        ensures
            r@ == Map::<Seq<char>, PlayerView>::empty(),
    {
        let r = State { players: Vec::new() };
        assert(views_of(r.players@) =~= Seq::<PlayerView>::empty());
        r
    }

    /// A fresh snapshot with the same contents.
    pub fn from(state: &State) -> (r: Self)
        ensures
            r@ == state@,
    {
        proof {
            use_type_invariant(state);
        }
        let mut players: Vec<Player> = Vec::new();
        let n = state.players.len();
        let mut i: usize = 0;
        while i < n
            invariant
                n == state.players.len(),
                0 <= i <= n,
                keys_unique(views_of(state.players@)),
                views_of(players@) =~= views_of(state.players@).take(i as int),
            decreases n - i,
        {
            let ghost before = views_of(players@);
            let p = state.players[i].duplicate();
            players.push(p);
            i = i + 1;
            proof {
                assert(views_of(players@) =~= before.push(p@));
                assert(views_of(players@) =~= views_of(state.players@).take(i as int));
            }
        }
        proof {
            assert(views_of(state.players@).take(n as int) =~= views_of(state.players@));
        }
        State { players }
    }

    /// The records of this snapshot, one per key, in no particular order.
    pub fn players(&self) -> (r: &Vec<Player>)
        ensures
            map_of(views_of(r@)) == self@,
            keys_unique(views_of(r@)),
    {
        proof {
            use_type_invariant(self);
        }
        &self.players
    }

    /// Number of players in the snapshot.
    pub fn len(&self) -> (r: usize)
        ensures
            r == self@.len(),
    {
        proof {
            use_type_invariant(self);
            lemma_unique_len(views_of(self.players@));
        }
        self.players.len()
    }

    /// A new snapshot equal to this one with `player` stored under its key,
    /// in place of any earlier record of that key.
    pub fn with_player(&self, player: Player) -> (r: Self)
        ensures
            r@ == self@.insert(player@.name, player@),
    {
        proof {
            use_type_invariant(self);
        }
        let ghost key = player@.name;
        let ghost all = views_of(self.players@);
        let mut out: Vec<Player> = Vec::new();
        let n = self.players.len();
        let mut i: usize = 0;
        while i < n
            invariant
                n == self.players.len(),
                0 <= i <= n,
                all == views_of(self.players@),
                keys_unique(all),
                key == player@.name,
                keys_unique(views_of(out@)),
                forall|j: int| 0 <= j < out.len() ==> #[trigger] out@[j]@.name != key,
                forall|j: int|
                    0 <= j < out.len() ==> exists|m: int| 0 <= m < i && (#[trigger] out@[j])@.name == all[m].name,
                map_of(views_of(out@)) == map_of(all.take(i as int)).remove(key),
            decreases n - i,
        {
            let ghost before = views_of(out@);
            let ghost pre = all.take(i as int);
            assert(all.take(i + 1) =~= pre.push(all[i as int]));
            assert(all.take(i + 1).drop_last() =~= pre);
            if self.players[i].name != player.name {
                let p = self.players[i].duplicate();
                out.push(p);
                proof {
                    assert(views_of(out@) =~= before.push(p@));
                    assert(views_of(out@).drop_last() =~= before);
                    assert forall|j: int| 0 <= j < out.len() - 1 implies (#[trigger] out@[j])@.name != p@.name by {
                        let m = choose|m: int| 0 <= m < i && out@[j]@.name == all[m].name;
                        assert(all[m].name != all[i as int].name);
                    }
                    assert forall|j: int|
                        0 <= j < out.len() implies exists|m: int| 0 <= m < i + 1 && (#[trigger] out@[j])@.name == all[m].name by {
                        if j == out.len() - 1 {
                            assert(out@[j]@.name == all[i as int].name);
                        } else {
                            let m = choose|m: int| 0 <= m < i && out@[j]@.name == all[m].name;
                        }
                    }
                    assert(map_of(views_of(out@)) =~= map_of(all.take(i + 1)).remove(key));
                }
            } else {
                proof {
                    assert(map_of(before) =~= map_of(all.take(i + 1)).remove(key));
                }
            }
            i = i + 1;
        }
        let ghost before = views_of(out@);
        let ghost pv = player@;
        out.push(player);
        proof {
            assert(all.take(n as int) =~= all);
            assert(views_of(out@) =~= before.push(pv));
            assert(views_of(out@).drop_last() =~= before);
            assert(map_of(views_of(out@)) =~= map_of(all).insert(key, pv));
        }
        State { players: out }
    }

    /// Stores the record of `update`, stamped `now`, under the update's key,
    /// in place of any earlier record of that key. Used on a fresh copy,
    /// before the snapshot is published.
    pub fn update_player(&mut self, update: &PlayerDTO, now: u64)
        ensures
            final(self)@ == old(self)@.insert(update@.username, record_of(update@, now)),
    {
        let next = self.with_player(Player::from_dto(update, now));
        *self = next;
    }
}

/// With unique keys the mapping has one entry per record.
pub proof fn lemma_unique_len(s: Seq<PlayerView>)
    requires
        keys_unique(s),
    ensures
        map_of(s).len() == s.len(),
        map_of(s).dom().finite(),
    decreases s.len(),
{
    if s.len() > 0 {
        let t = s.drop_last();
        lemma_unique_len(t);
        lemma_map_of(t);
        if map_of(t).contains_key(s.last().name) {
            let j = choose|j: int| 0 <= j < t.len() && t[j].name == s.last().name;
            assert(s[j].name == s[s.len() - 1].name);
        }
    }
}

} // verus!
