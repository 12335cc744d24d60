//! Who is online, server by server.

use crate::filtered::lemma_filter_order;
use crate::text::{copy_texts, listed, same_text, texts};
use vstd::prelude::*;

verus! {

/// A message that is passed on to every connected server.
#[derive(Debug, Clone)]
pub struct BroadcastData {
    pub data: String,
    pub name: String,
    pub server: String,
}

/// A player on a server.
#[derive(Debug)]
pub struct OnlinePlayer {
    pub realname: String,
    pub server: String,
}

/// A server and the players on it, in the order in which they joined.
#[derive(Debug)]
pub struct ServerPlayers {
    pub server: String,
    pub players: Vec<String>,
}

/// A report that a player joined (`kind` is `join`) or left (anything else).
#[derive(Debug)]
pub struct PlayerUpdata {
    pub kind: String,
    pub player: OnlinePlayer,
}

/// A request for the list of players.
#[derive(Debug, Clone, Copy)]
pub struct PlayersGet;

/// A report that a server is gone, and all its players with it.
#[derive(Debug)]
pub struct PlayersRemoveByServer {
    pub server: String,
}

impl ServerPlayers {
    /// The entry as texts.
    pub open spec fn entry(self) -> (Seq<char>, Seq<Seq<char>>) {
        (self.server@, texts(self.players@))
    }
}

/// The entries of a list of servers as texts.
pub open spec fn server_entries(list: Seq<ServerPlayers>) -> Seq<(Seq<char>, Seq<Seq<char>>)> {
    Seq::new(list.len(), |i: int| list[i].entry())
}

/// Where `server` stands among the entries, if it does.
pub open spec fn position(entries: Seq<(Seq<char>, Seq<Seq<char>>)>, server: Seq<char>) -> Option<
    int,
>
    decreases entries.len(),
{
    if entries.len() == 0 {
        None
    } else if entries.last().0 == server {
        Some(entries.len() - 1)
    } else {
        position(entries.drop_last(), server)
    }
}

/// A list of players without `name`.
pub open spec fn without_player(players: Seq<Seq<char>>, name: Seq<char>) -> Seq<Seq<char>> {
    players.filter(another_player(name))
}

/// The test that a player is not called `name`.
pub open spec fn another_player(name: Seq<char>) -> spec_fn(Seq<char>) -> bool {
    |player: Seq<char>| player != name
}

/// The entries without the one of `server`.
pub open spec fn without_server(
    entries: Seq<(Seq<char>, Seq<Seq<char>>)>,
    server: Seq<char>,
) -> Seq<(Seq<char>, Seq<Seq<char>>)> {
    entries.filter(another_server(server))
}

/// The test that an entry is not the one of `server`.
pub open spec fn another_server(server: Seq<char>) -> spec_fn((Seq<char>, Seq<Seq<char>>)) -> bool {
    |entry: (Seq<char>, Seq<Seq<char>>)| entry.0 != server
}

/// No server stands twice among the entries.
pub open spec fn servers_distinct(entries: Seq<(Seq<char>, Seq<Seq<char>>)>) -> bool {
    forall|i: int, j: int|
        0 <= i < j < entries.len() ==> (#[trigger] entries[i]).0 != (#[trigger] entries[j]).0
}

/// The entries after `name` joined `server`: a new entry for a server that
/// has none, the name at the end of the server's list if it is not in it,
/// and no change if it is.
pub open spec fn joined(
    entries: Seq<(Seq<char>, Seq<Seq<char>>)>,
    server: Seq<char>,
    name: Seq<char>,
) -> Seq<(Seq<char>, Seq<Seq<char>>)> {
    match position(entries, server) {
        None => entries.push((server, seq![name])),
        Some(at) => if entries[at].1.contains(name) {
            entries
        } else {
            entries.update(at, (server, entries[at].1.push(name)))
        },
    }
}

/// Whether `name` is on `server`.
pub open spec fn is_online(
    entries: Seq<(Seq<char>, Seq<Seq<char>>)>,
    server: Seq<char>,
    name: Seq<char>,
) -> bool {
    position(entries, server) matches Some(at) && entries[at].1.contains(name)
}

/// The entries after `name` left `server`: the server's list without the
/// name, and no change if the name is not on the server.
pub open spec fn departed(
    entries: Seq<(Seq<char>, Seq<Seq<char>>)>,
    server: Seq<char>,
    name: Seq<char>,
) -> Seq<(Seq<char>, Seq<Seq<char>>)> {
    match position(entries, server) {
        None => entries,
        Some(at) => if entries[at].1.contains(name) {
            entries.update(at, (server, without_player(entries[at].1, name)))
        } else {
            entries
        },
    }
}

/// A position that is found is the place of an entry of that server.
pub proof fn lemma_position(entries: Seq<(Seq<char>, Seq<Seq<char>>)>, server: Seq<char>)
    ensures
        match position(entries, server) {
            Some(at) => 0 <= at < entries.len() && entries[at].0 == server,
            None => forall|i: int| 0 <= i < entries.len() ==> (#[trigger] entries[i]).0 != server,
        },
    decreases entries.len(),
{
    if entries.len() > 0 && entries.last().0 != server {
        lemma_position(entries.drop_last(), server);
        if position(entries, server) is None {
            assert forall|i: int| 0 <= i < entries.len() implies (#[trigger] entries[i]).0
                != server by {
                if i < entries.len() - 1 {
                    assert(entries[i] == entries.drop_last()[i]);
                }
            }
        }
    }
}

/// An entry that is replaced by one of the same server leaves the servers
/// distinct.
pub proof fn lemma_update_keeps_servers(
    entries: Seq<(Seq<char>, Seq<Seq<char>>)>,
    at: int,
    entry: (Seq<char>, Seq<Seq<char>>),
)
    requires
        servers_distinct(entries),
        0 <= at < entries.len(),
        entry.0 == entries[at].0,
    ensures
        servers_distinct(entries.update(at, entry)),
{
    let after = entries.update(at, entry);
    assert forall|i: int, j: int| 0 <= i < j < after.len() implies (#[trigger] after[i]).0 != (
    #[trigger] after[j]).0 by {
        assert(after[i].0 == entries[i].0 && after[j].0 == entries[j].0);
    }
}

/// An entry for a server that has none leaves the servers distinct when it
/// is put at the end.
pub proof fn lemma_push_keeps_servers(
    entries: Seq<(Seq<char>, Seq<Seq<char>>)>,
    entry: (Seq<char>, Seq<Seq<char>>),
)
    requires
        servers_distinct(entries),
        position(entries, entry.0) is None,
    ensures
        servers_distinct(entries.push(entry)),
{
    let after = entries.push(entry);
    lemma_position(entries, entry.0);
    assert forall|i: int, j: int| 0 <= i < j < after.len() implies (#[trigger] after[i]).0 != (
    #[trigger] after[j]).0 by {
        assert(after[i] == entries[i]);
        if j < entries.len() {
            assert(after[j] == entries[j]);
        }
    }
}

/// The players of a list that are not called `name`, in their order.
fn others(list: &Vec<String>, name: &str) -> (rest: Vec<String>)
    ensures
        texts(rest@) == without_player(texts(list@), name@),
{
    let ghost keep = another_player(name@);
    let mut rest: Vec<String> = Vec::new();
    let mut i: usize = 0;
    proof {
        reveal(Seq::filter);
        assert(texts(rest@) =~= texts(list@).take(0).filter(keep));
    }
    while i < list.len()
        invariant
            i <= list.len(),
            keep == another_player(name@),
            texts(rest@) == texts(list@).take(i as int).filter(keep),
        decreases list.len() - i,
    {
        let ghost next = texts(list@).take(i + 1);
        let ghost rest_before = rest@;
        proof {
            reveal(Seq::filter);
            assert(next.drop_last() =~= texts(list@).take(i as int));
            assert(next.last() == list@[i as int]@);
        }
        if !same_text(list[i].as_str(), name) {
            rest.push(list[i].clone());
            proof {
                assert(texts(rest@) =~= texts(rest_before).push(next.last()));
            }
        }
        i += 1;
    }
    proof {
        assert(texts(list@).take(i as int) =~= texts(list@));
    }
    rest
}

/// The players that are online, server by server.
pub struct PlayerManager {
    players: Vec<ServerPlayers>,
}

impl View for PlayerManager {
    type V = Seq<(Seq<char>, Seq<Seq<char>>)>;

    closed spec fn view(&self) -> Seq<(Seq<char>, Seq<Seq<char>>)> {
        server_entries(self.players@)
    }
}

impl PlayerManager {
    /// No server stands twice.
    pub open spec fn wf(self) -> bool {
        servers_distinct(self@)
    }

    #[verifier::type_invariant]
    spec fn distinct(self) -> bool {
        self.wf()
    }

    pub fn new() -> (manager: PlayerManager)
        ensures
            manager@ == Seq::<(Seq<char>, Seq<Seq<char>>)>::empty(),
            manager.wf(),
    {
        let manager = PlayerManager { players: Vec::new() };
        assert(manager@ =~= Seq::empty());
        manager
    }

    /// Takes the list out and leaves an empty one.
    fn take(&mut self) -> (players: Vec<ServerPlayers>)
        ensures
            server_entries(players@) == old(self)@,
            final(self)@ == Seq::<(Seq<char>, Seq<Seq<char>>)>::empty(),
    {
        let mut players: Vec<ServerPlayers> = Vec::new();
        proof {
            assert(server_entries(players@) =~= Seq::empty());
        }
        core::mem::swap(&mut self.players, &mut players);
        players
    }

    fn find(&self, server: &str) -> (at: Option<usize>)
        ensures
            match at {
                Some(i) => position(self@, server@) == Some(i as int) && i < self.players@.len(),
                None => position(self@, server@) is None,
            },
    {
        let mut i: usize = self.players.len();
        proof {
            assert(self@.take(i as int) =~= self@);
        }
        while i > 0
            invariant
                i <= self.players.len(),
                position(self@, server@) == position(self@.take(i as int), server@),
            decreases i,
        {
            let ghost upto = self@.take(i as int);
            i -= 1;
            proof {
                assert(upto.drop_last() =~= self@.take(i as int));
                assert(upto.last() == self.players@[i as int].entry());
            }
            if same_text(self.players[i].server.as_str(), server) {
                return Some(i);
            }
        }
        None
    }

    /// Notes that a player joined a server. The answer is whether the player
    /// was new to it.
    pub fn add_player(&mut self, player: OnlinePlayer) -> (added: bool)
        ensures
            final(self).wf(),
            final(self)@ == joined(old(self)@, player.server@, player.realname@),
            added == !is_online(old(self)@, player.server@, player.realname@),
    {
        let ghost before = self@;
        proof {
            use_type_invariant(&*self);
            lemma_position(before, player.server@);
        }
        match self.find(player.server.as_str()) {
            Some(at) => {
                if listed(&self.players[at].players, player.realname.as_str()) {
                    return false;
                }
                let mut players = self.take();
                let mut entry = players.remove(at);
                let ghost list = entry.players@;
                entry.players.push(player.realname);
                players.insert(at, entry);
                proof {
                    assert(server_entries(players@) =~= before.update(
                        at as int,
                        (player.server@, before[at as int].1.push(player.realname@)),
                    )) by {
                        assert(texts(entry.players@) =~= texts(list).push(player.realname@));
                    }
                    lemma_update_keeps_servers(
                        before,
                        at as int,
                        server_entries(players@)[at as int],
                    );
                }
                self.players = players;
                true
            },
            None => {
                let mut list: Vec<String> = Vec::new();
                list.push(player.realname);
                let mut players = self.take();
                players.push(ServerPlayers { server: player.server, players: list });
                proof {
                    assert(texts(list@) =~= seq![player.realname@]);
                    assert(server_entries(players@) =~= before.push(
                        (player.server@, seq![player.realname@]),
                    ));
                    lemma_push_keeps_servers(before, (player.server@, seq![player.realname@]));
                }
                self.players = players;
                true
            },
        }
    }

    /// Notes that a player left a server. The answer is whether the player
    /// was on it.
    pub fn remove_player(&mut self, player: OnlinePlayer) -> (removed: bool)
        ensures
            final(self).wf(),
            final(self)@ == departed(old(self)@, player.server@, player.realname@),
            removed == is_online(old(self)@, player.server@, player.realname@),
    {
        let ghost before = self@;
        proof {
            use_type_invariant(&*self);
            lemma_position(before, player.server@);
        }
        match self.find(player.server.as_str()) {
            Some(at) => {
                if !listed(&self.players[at].players, player.realname.as_str()) {
                    return false;
                }
                let mut players = self.take();
                let entry = players.remove(at);
                let rest = others(&entry.players, player.realname.as_str());
                players.insert(at, ServerPlayers { server: entry.server, players: rest });
                proof {
                    assert(server_entries(players@) =~= before.update(
                        at as int,
                        (player.server@, without_player(before[at as int].1, player.realname@)),
                    ));
                    lemma_update_keeps_servers(
                        before,
                        at as int,
                        server_entries(players@)[at as int],
                    );
                }
                self.players = players;
                true
            },
            None => false,
        }
    }

    /// Every server with its players.
    pub fn get_players(&self) -> (list: Vec<ServerPlayers>)
        ensures
            server_entries(list@) == self@,
    {
        let mut list: Vec<ServerPlayers> = Vec::new();
        let mut i: usize = 0;
        while i < self.players.len()
            invariant
                i <= self.players.len(),
                list@.len() == i,
                forall|k: int| 0 <= k < i ==> (#[trigger] list@[k]).entry() == self@[k],
            decreases self.players.len() - i,
        {
            let players = copy_texts(&self.players[i].players);
            list.push(ServerPlayers { server: self.players[i].server.clone(), players });
            i += 1;
        }
        proof {
            assert(server_entries(list@) =~= self@);
        }
        list
    }

    /// Forgets every player on every server.
    pub fn _remove_player_all(&mut self)
        ensures
            final(self)@ == Seq::<(Seq<char>, Seq<Seq<char>>)>::empty(),
            final(self).wf(),
    {
        self.players = Vec::new();
        assert(self@ =~= Seq::empty());
    }

    /// Forgets a server and every player on it.
    pub fn remove_players_by_server(&mut self, server: &str)
        ensures
            final(self).wf(),
            final(self)@ == without_server(old(self)@, server@),
            position(final(self)@, server@) is None,
    {
        let ghost before = self@;
        let ghost keep = another_server(server@);
        let mut kept: Vec<ServerPlayers> = Vec::new();
        let mut i: usize = 0;
        proof {
            use_type_invariant(&*self);
            reveal(Seq::filter);
            assert(server_entries(kept@) =~= before.take(0).filter(keep));
        }
        while i < self.players.len()
            invariant
                i <= self.players.len(),
                self@ == before,
                servers_distinct(before),
                keep == another_server(server@),
                server_entries(kept@) == before.take(i as int).filter(keep),
            decreases self.players.len() - i,
        {
            let ghost next = before.take(i + 1);
            let ghost kept_before = kept@;
            proof {
                reveal(Seq::filter);
                assert(next.drop_last() =~= before.take(i as int));
                assert(next.last() == self.players@[i as int].entry());
            }
            if !same_text(self.players[i].server.as_str(), server) {
                let players = copy_texts(&self.players[i].players);
                kept.push(ServerPlayers { server: self.players[i].server.clone(), players });
                proof {
                    assert(server_entries(kept@) =~= server_entries(kept_before).push(next.last()));
                }
            }
            i += 1;
        }
        proof {
            assert(before.take(i as int) =~= before);
            lemma_filter_order(before, keep);
            let left = before.filter(keep);
            assert forall|a: int, b: int| 0 <= a < b < left.len() implies (#[trigger] left[a]).0
                != (#[trigger] left[b]).0 by {
                let (x, y) = choose|x: int, y: int|
                    0 <= x < y < before.len() && before[x] == left[a] && before[y] == left[b];
            }
            lemma_position(left, server@);
            if position(left, server@) is Some {
                left.lemma_filter_pred(keep, position(left, server@)->Some_0);
            }
        }
        self.players = kept;
    }

    /// Takes a report in: a player who joined is added, any other is removed.
    pub fn handle(&mut self, update: PlayerUpdata) -> (changed: bool)
        ensures
            final(self).wf(),
            update.kind@ == "join"@ ==> final(self)@ == joined(
                old(self)@,
                update.player.server@,
                update.player.realname@,
            ) && changed == !is_online(old(self)@, update.player.server@, update.player.realname@),
            update.kind@ != "join"@ ==> final(self)@ == departed(
                old(self)@,
                update.player.server@,
                update.player.realname@,
            ) && changed == is_online(old(self)@, update.player.server@, update.player.realname@),
    {
        if same_text(update.kind.as_str(), "join") {
            self.add_player(update.player)
        } else {
            self.remove_player(update.player)
        }
    }
}

} // verus!
