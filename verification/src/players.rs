//! The players that the server knows, and its three lists of player ids:
//! whitelist, blacklist and operators.

use crate::registry::{position, Registry};
use vstd::prelude::*;

verus! {

/// A player of the server.
#[derive(Debug)]
pub struct Player {
    pub uuid: String,
    pub name: String,
    pub is_online: bool,
    pub is_op: bool,
    pub last_seen: String,
    pub playtime: u64,
    pub deaths: u32,
    pub kills: u32,
}

/// The texts of a list of ids, as character sequences.
pub open spec fn id_views(ids: Seq<String>) -> Seq<Seq<char>> {
    ids.map_values(|s: String| s@)
}

/// The list after `id` was added: a list that holds `id` stays what it is;
/// otherwise `id` goes to the end.
pub open spec fn with_id(ids: Seq<Seq<char>>, id: Seq<char>) -> Seq<Seq<char>> {
    if ids.contains(id) {
        ids
    } else {
        ids.push(id)
    }
}

/// The list without every occurrence of `id`.
pub open spec fn without_id(ids: Seq<Seq<char>>, id: Seq<char>) -> Seq<Seq<char>> {
    ids.filter(|u: Seq<char>| u != id)
}

/// The players of `players` that are online, in their order.
pub open spec fn online(players: Seq<Player>) -> Seq<Player> {
    players.filter(|p: Player| p.is_online)
}

/// The players that a sequence of borrowed players refers to.
pub open spec fn referred(players: Seq<&Player>) -> Seq<Player> {
    players.map_values(|p: &Player| *p)
}

/// Extending the online players of a prefix by one player.
proof fn lemma_online_step(players: Seq<Player>, i: int)
    requires
        0 <= i < players.len(),
    ensures
        online(players.take(i + 1)) == if players[i].is_online {
            online(players.take(i)).push(players[i])
        } else {
            online(players.take(i))
        },
{
    reveal(Seq::filter);
    assert(players.take(i + 1).drop_last() =~= players.take(i));
}

/// Extending a list without `id` by one entry.
proof fn lemma_without_step(ids: Seq<Seq<char>>, id: Seq<char>, i: int)
    requires
        0 <= i < ids.len(),
    ensures
        without_id(ids.take(i + 1), id) == if ids[i] != id {
            without_id(ids.take(i), id).push(ids[i])
        } else {
            without_id(ids.take(i), id)
        },
{
    reveal(Seq::filter);
    assert(ids.take(i + 1).drop_last() =~= ids.take(i));
}

/// Whether the list `ids` holds `id`.
fn list_contains(ids: &Vec<String>, id: &str) -> (b: bool)
    ensures
        b == id_views(ids@).contains(id@),
{
    let wanted = id.to_owned();
    let mut i: usize = 0;
    while i < ids.len()
        invariant
            wanted@ == id@,
            i <= ids@.len(),
            forall|j: int| 0 <= j < i ==> id_views(ids@)[j] != id@,
        decreases ids.len() - i,
    {
        if ids[i] == wanted {
            assert(id_views(ids@)[i as int] == id@);
            return true;
        }
        i = i + 1;
    }
    false
}

/// Adds `id` to the list `ids` unless it is there.
fn list_add(ids: &mut Vec<String>, id: String)
    ensures
        id_views(final(ids)@) == with_id(id_views(old(ids)@), id@),
{
    if !list_contains(ids, id.as_str()) {
        let ghost before = ids@;
        ids.push(id);
        assert(id_views(before.push(id)) =~= id_views(before).push(id@));
    }
}

/// Takes every occurrence of `id` out of the list `ids`.
fn list_remove(ids: &mut Vec<String>, id: &str)
    ensures
        id_views(final(ids)@) == without_id(id_views(old(ids)@), id@),
{
    let wanted = id.to_owned();
    let mut rest: Vec<String> = Vec::new();
    let n = ids.len();
    let mut i: usize = 0;
    assert(without_id(id_views(ids@).take(0), id@) =~= Seq::<Seq<char>>::empty()) by {
        reveal(Seq::filter);
    }
    assert(id_views(rest@) =~= Seq::<Seq<char>>::empty());
    while i < n
        invariant
            *ids == *old(ids),
            wanted@ == id@,
            n == ids@.len(),
            i <= n,
            id_views(rest@) == without_id(id_views(ids@).take(i as int), id@),
        decreases n - i,
    {
        proof {
            lemma_without_step(id_views(ids@), id@, i as int);
        }
        if !(ids[i] == wanted) {
            let ghost shown = rest@;
            let copy = ids[i].clone();
            rest.push(copy);
            assert(id_views(shown.push(copy)) =~= id_views(shown).push(copy@));
        }
        i = i + 1;
    }
    assert(id_views(ids@).take(n as int) =~= id_views(ids@));
    *ids = rest;
}

/// The players under their ids, and the three lists of ids.
#[derive(Debug)]
pub struct PlayerList {
    players: Registry<Player>,
    whitelist: Vec<String>,
    blacklist: Vec<String>,
    ops: Vec<String>,
}

impl PlayerList {
    /// The ids under which the players are registered, in registry order.
    pub closed spec fn player_ids(&self) -> Seq<Seq<char>> {
        self.players.keys()
    }

    /// The registered players, in registry order.
    pub closed spec fn players(&self) -> Seq<Player> {
        self.players.values()
    }

    /// The ids on the whitelist, in the order in which they were added.
    pub closed spec fn whitelist(&self) -> Seq<Seq<char>> {
        id_views(self.whitelist@)
    }

    /// The ids on the blacklist, in the order in which they were added.
    pub closed spec fn blacklist(&self) -> Seq<Seq<char>> {
        id_views(self.blacklist@)
    }

    /// The ids of the operators, in the order in which they were added.
    pub closed spec fn ops(&self) -> Seq<Seq<char>> {
        id_views(self.ops@)
    }

    /// No id is registered twice, and every player stands under its own id.
    pub closed spec fn wf(&self) -> bool {
        &&& self.players.wf()
        &&& self.players.keys().len() == self.players.values().len()
        &&& forall|i: int|
            0 <= i < self.players.values().len() ==> #[trigger] self.players.keys()[i]
                == self.players.values()[i].uuid@
    }

    /// What well-formedness says in terms of the public model.
    pub proof fn lemma_wf(&self)
        requires
            self.wf(),
        ensures
            self.player_ids().len() == self.players().len(),
            self.player_ids().no_duplicates(),
            forall|i: int|
                0 <= i < self.players().len() ==> #[trigger] self.player_ids()[i]
                    == self.players()[i].uuid@,
    {
        self.players.lemma_wf();
    }

    /// Whether the three lists are the same in `self` and `other`.
    pub open spec fn same_lists(&self, other: &PlayerList) -> bool {
        &&& self.whitelist() == other.whitelist()
        &&& self.blacklist() == other.blacklist()
        &&& self.ops() == other.ops()
    }

    /// Whether the registered players are the same in `self` and `other`.
    pub open spec fn same_players(&self, other: &PlayerList) -> bool {
        &&& self.player_ids() == other.player_ids()
        &&& self.players() == other.players()
    }

    /// No players, and three empty lists.
    pub fn new() -> (l: PlayerList)
        ensures
            l.wf(),
            l.player_ids() == Seq::<Seq<char>>::empty(),
            l.players() == Seq::<Player>::empty(),
            l.whitelist() == Seq::<Seq<char>>::empty(),
            l.blacklist() == Seq::<Seq<char>>::empty(),
            l.ops() == Seq::<Seq<char>>::empty(),
    {
        let l = PlayerList {
            players: Registry::new(),
            whitelist: Vec::new(),
            blacklist: Vec::new(),
            ops: Vec::new(),
        };
        assert(l.whitelist() =~= Seq::<Seq<char>>::empty());
        assert(l.blacklist() =~= Seq::<Seq<char>>::empty());
        assert(l.ops() =~= Seq::<Seq<char>>::empty());
        l
    }

    /// Replaces the lists by what the list files of the server hold. A list
    /// whose file is missing, given as nothing, stays what it is.
    pub fn load_lists(
        &mut self,
        whitelist: Option<Vec<String>>,
        ops: Option<Vec<String>>,
        banned: Option<Vec<String>>,
    )
        requires
            old(self).wf(),
        ensures
            final(self).wf(),
            final(self).same_players(old(self)),
            final(self).whitelist() == match whitelist {
                Some(ids) => id_views(ids@),
                None => old(self).whitelist(),
            },
            final(self).ops() == match ops {
                Some(ids) => id_views(ids@),
                None => old(self).ops(),
            },
            final(self).blacklist() == match banned {
                Some(ids) => id_views(ids@),
                None => old(self).blacklist(),
            },
    {
        match whitelist {
            Some(ids) => {
                self.whitelist = ids;
            },
            None => {},
        }
        match ops {
            Some(ids) => {
                self.ops = ids;
            },
            None => {},
        }
        match banned {
            Some(ids) => {
                self.blacklist = ids;
            },
            None => {},
        }
    }

    /// Registers `player` under its id. A player that is registered under
    /// that id is replaced and keeps its place; a new id goes to the end.
    pub fn add_player(&mut self, player: Player)
        requires
            old(self).wf(),
        ensures
            final(self).wf(),
            final(self).same_lists(old(self)),
            match position(old(self).player_ids(), player.uuid@) {
                Some(i) => {
                    &&& final(self).player_ids() == old(self).player_ids()
                    &&& final(self).players() == old(self).players().update(i, player)
                },
                None => {
                    &&& final(self).player_ids() == old(self).player_ids().push(player.uuid@)
                    &&& final(self).players() == old(self).players().push(player)
                },
            },
    {
        let key = player.uuid.clone();
        let _ = self.players.insert(key, player);
    }

    /// Takes the player under `uuid` out of the registry; the others keep
    /// their order. An unknown id changes nothing.
    pub fn remove_player(&mut self, uuid: &str)
        requires
            old(self).wf(),
        ensures
            final(self).wf(),
            final(self).same_lists(old(self)),
            match position(old(self).player_ids(), uuid@) {
                Some(i) => {
                    &&& final(self).player_ids() == old(self).player_ids().remove(i)
                    &&& final(self).players() == old(self).players().remove(i)
                },
                None => final(self).same_players(old(self)),
            },
    {
        let _ = self.players.remove(uuid);
    }

    /// The player under `uuid`, if there is one.
    pub fn get_player(&self, uuid: &str) -> (r: Option<&Player>)
        requires
            self.wf(),
        ensures
            match position(self.player_ids(), uuid@) {
                Some(i) => r matches Some(p) && *p == self.players()[i],
                None => r is None,
            },
    {
        self.players.get(uuid)
    }

    /// All players, in registry order.
    pub fn get_all_players(&self) -> (out: Vec<&Player>)
        requires
            self.wf(),
        ensures
            referred(out@) == self.players(),
    {
        let out = self.players.all();
        assert(referred(out@) =~= self.players());
        out
    }

    /// The players that are online, in registry order.
    pub fn get_online_players(&self) -> (out: Vec<&Player>)
        requires
            self.wf(),
        ensures
            referred(out@) == online(self.players()),
    {
        let mut out: Vec<&Player> = Vec::new();
        let n = self.players.len();
        let mut i: usize = 0;
        assert(online(self.players().take(0)) =~= Seq::<Player>::empty()) by {
            reveal(Seq::filter);
        }
        assert(referred(out@) =~= Seq::<Player>::empty());
        while i < n
            invariant
                self.wf(),
                n == self.players().len(),
                i <= n,
                referred(out@) == online(self.players().take(i as int)),
            decreases n - i,
        {
            proof {
                lemma_online_step(self.players(), i as int);
            }
            let p = self.players.value_at(i);
            if p.is_online {
                let ghost shown = out@;
                out.push(p);
                assert(referred(shown.push(p)) =~= referred(shown).push(*p));
            }
            i = i + 1;
        }
        assert(self.players().take(n as int) =~= self.players());
        out
    }

    /// Puts `uuid` on the whitelist unless it is there.
    pub fn add_to_whitelist(&mut self, uuid: String)
        ensures
            final(self).wf() == old(self).wf(),
            final(self).same_players(old(self)),
            final(self).whitelist() == with_id(old(self).whitelist(), uuid@),
            final(self).blacklist() == old(self).blacklist(),
            final(self).ops() == old(self).ops(),
    {
        list_add(&mut self.whitelist, uuid);
    }

    /// Takes `uuid` off the whitelist.
    pub fn remove_from_whitelist(&mut self, uuid: &str)
        ensures
            final(self).wf() == old(self).wf(),
            final(self).same_players(old(self)),
            final(self).whitelist() == without_id(old(self).whitelist(), uuid@),
            final(self).blacklist() == old(self).blacklist(),
            final(self).ops() == old(self).ops(),
    {
        list_remove(&mut self.whitelist, uuid);
    }

    /// Puts `uuid` on the blacklist unless it is there.
    pub fn add_to_blacklist(&mut self, uuid: String)
        ensures
            final(self).wf() == old(self).wf(),
            final(self).same_players(old(self)),
            final(self).blacklist() == with_id(old(self).blacklist(), uuid@),
            final(self).whitelist() == old(self).whitelist(),
            final(self).ops() == old(self).ops(),
    {
        list_add(&mut self.blacklist, uuid);
    }

    /// Takes `uuid` off the blacklist.
    pub fn remove_from_blacklist(&mut self, uuid: &str)
        ensures
            final(self).wf() == old(self).wf(),
            final(self).same_players(old(self)),
            final(self).blacklist() == without_id(old(self).blacklist(), uuid@),
            final(self).whitelist() == old(self).whitelist(),
            final(self).ops() == old(self).ops(),
    {
        list_remove(&mut self.blacklist, uuid);
    }

    /// Makes `uuid` an operator unless it is one.
    pub fn add_op(&mut self, uuid: String)
        ensures
            final(self).wf() == old(self).wf(),
            final(self).same_players(old(self)),
            final(self).ops() == with_id(old(self).ops(), uuid@),
            final(self).whitelist() == old(self).whitelist(),
            final(self).blacklist() == old(self).blacklist(),
    {
        list_add(&mut self.ops, uuid);
    }

    /// Takes the operator rights from `uuid`.
    pub fn remove_op(&mut self, uuid: &str)
        ensures
            final(self).wf() == old(self).wf(),
            final(self).same_players(old(self)),
            final(self).ops() == without_id(old(self).ops(), uuid@),
            final(self).whitelist() == old(self).whitelist(),
            final(self).blacklist() == old(self).blacklist(),
    {
        list_remove(&mut self.ops, uuid);
    }

    /// Whether `uuid` is on the whitelist.
    pub fn is_whitelisted(&self, uuid: &str) -> (b: bool)
        ensures
            b == self.whitelist().contains(uuid@),
    {
        list_contains(&self.whitelist, uuid)
    }

    /// Whether `uuid` is on the blacklist.
    pub fn is_banned(&self, uuid: &str) -> (b: bool)
        ensures
            b == self.blacklist().contains(uuid@),
    {
        list_contains(&self.blacklist, uuid)
    }

    /// Whether `uuid` is an operator.
    pub fn is_op(&self, uuid: &str) -> (b: bool)
        ensures
            b == self.ops().contains(uuid@),
    {
        list_contains(&self.ops, uuid)
    }
}

/// Once an id was added to a list, the list holds it; adding it again changes
/// nothing; and once it was removed, the list does not hold it.
pub proof fn lemma_list_membership(ids: Seq<Seq<char>>, id: Seq<char>)
    ensures
        with_id(ids, id).contains(id),
        with_id(with_id(ids, id), id) == with_id(ids, id),
        !without_id(ids, id).contains(id),
    decreases ids.len(),
{
    if ids.contains(id) {
    } else {
        assert(ids.push(id)[ids.len() as int] == id);
    }
    reveal(Seq::filter);
    if ids.len() > 0 {
        lemma_list_membership(ids.drop_last(), id);
        let front = without_id(ids.drop_last(), id);
        if ids.last() != id {
            assert forall|k: int| 0 <= k < front.push(ids.last()).len() implies front.push(
                ids.last(),
            )[k] != id by {
                if k < front.len() {
                    assert(front.contains(front[k]));
                }
            }
        }
    }
}

} // verus!
