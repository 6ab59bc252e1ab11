use crate::model::ConnectionType;
use vstd::prelude::*;

verus! {

/// What the engine knows of one live connection. The transport handle
/// itself stays with the caller, keyed by the same session id.
pub struct Connection {
    pub session_id: String,
    pub user_id: Option<i32>,
    pub player_id: Option<i32>,
    pub game_id: Option<i32>,
    pub game_code: Option<String>,
    pub connection_type: ConnectionType,
    pub last_seen_ms: u64,
}

impl Connection {
    /// A fresh connection: a viewer, not yet in any game.
    pub fn viewer(session_id: String, user_id: Option<i32>, now_ms: u64) -> (r: Connection)
        ensures
            r.session_id@ == session_id@,
            r.user_id == user_id,
            r.player_id is None,
            r.game_id is None,
            r.game_code is None,
            r.connection_type == ConnectionType::Viewer,
            r.last_seen_ms == now_ms,
    {
        Connection {
            session_id,
            user_id,
            player_id: None,
            game_id: None,
            game_code: None,
            connection_type: ConnectionType::Viewer,
            last_seen_ms: now_ms,
        }
    }
}

/// The table of live connections, one entry per session id.
pub struct ConnectionRegistry {
    pub connections: Vec<Connection>,
}

/// Whether `sid` is a session id in `conns`.
pub open spec fn registered(conns: Seq<Connection>, sid: Seq<char>) -> bool {
    exists|i: int| 0 <= i < conns.len() && #[trigger] conns[i].session_id@ == sid
}

impl ConnectionRegistry {
    pub open spec fn wf(&self) -> bool {
        forall|a: int, b: int|
            0 <= a < b < self.connections@.len() ==> #[trigger] self.connections@[a].session_id@
                != #[trigger] self.connections@[b].session_id@
    }

    pub open spec fn contains(&self, sid: Seq<char>) -> bool {
        registered(self.connections@, sid)
    }

    /// Two entries with the same session id are one entry.
    pub proof fn lemma_entry_unique(&self, i: int, j: int)
        requires
            self.wf(),
            0 <= i < self.connections@.len(),
            0 <= j < self.connections@.len(),
            self.connections@[i].session_id@ == self.connections@[j].session_id@,
        ensures
            i == j,
    {
        if i < j {
            assert(self.connections@[i].session_id@ != self.connections@[j].session_id@);
        } else if j < i {
            assert(self.connections@[j].session_id@ != self.connections@[i].session_id@);
        }
    }

    pub fn new() -> (r: ConnectionRegistry)
        ensures
            r.wf(),
            r.connections@.len() == 0,
    {
        ConnectionRegistry { connections: Vec::new() }
    }

    /// The number of live connections.
    pub fn len(&self) -> (r: usize)
        ensures
            r == self.connections@.len(),
    {
        self.connections.len()
    }

    /// Where the entry for `session_id` stands.
    pub fn find(&self, session_id: &String) -> (r: Option<usize>)
        ensures
            r matches Some(i) ==> i < self.connections@.len() && self.connections@[i as int].session_id@
                == session_id@,
            r is None <==> !self.contains(session_id@),
    {
        let mut i: usize = 0;
        while i < self.connections.len()
            invariant
                i <= self.connections@.len(),
                forall|j: int|
                    0 <= j < i ==> #[trigger] self.connections@[j].session_id@ != session_id@,
            decreases self.connections@.len() - i,
        {
            if self.connections[i].session_id == *session_id {
                return Some(i);
            }
            i = i + 1;
        }
        None
    }

    /// The entry for `session_id`, if registered.
    pub fn get(&self, session_id: &String) -> (r: Option<&Connection>)
        ensures
            r is None <==> !self.contains(session_id@),
            r matches Some(c) ==> c.session_id@ == session_id@ && self.connections@.contains(*c),
    {
        match self.find(session_id) {
            Some(i) => Some(&self.connections[i]),
            None => None,
        }
    }

    /// Adds `conn`; an entry under the same session id is overwritten.
    pub fn register(&mut self, conn: Connection)
        requires
            old(self).wf(),
        ensures
            final(self).wf(),
            final(self).contains(conn.session_id@),
            exists|i: int|
                0 <= i < final(self).connections@.len() && #[trigger] final(self).connections@[i]
                    == conn,
            forall|sid: Seq<char>|
                sid != conn.session_id@ ==> (#[trigger] final(self).contains(sid) <==> old(self).contains(sid)),
            forall|j: int|
                0 <= j < old(self).connections@.len() && old(self).connections@[j].session_id@
                    != conn.session_id@ ==> final(self).connections@.contains(
                    #[trigger] old(self).connections@[j],
                ),
            final(self).connections@.len() <= old(self).connections@.len() + 1,
    {
        let ghost before = self.connections@;
        let ghost sid = conn.session_id@;
        match self.find(&conn.session_id) {
            Some(i) => {
                self.connections.set(i, conn);
                proof {
                    assert(self.connections@[i as int] == conn);
                    assert forall|s: Seq<char>| s != sid implies #[trigger] registered(self.connections@, s)
                        <==> registered(before, s) by {
                        if registered(before, s) {
                            let k = choose|k: int| 0 <= k < before.len() && #[trigger] before[k].session_id@ == s;
                            assert(self.connections@[k] == before[k]);
                        }
                        if registered(self.connections@, s) {
                            let k = choose|k: int|
                                0 <= k < self.connections@.len() && #[trigger] self.connections@[k].session_id@ == s;
                            assert(self.connections@[k] == before[k]);
                        }
                    }
                    assert forall|j: int|
                        0 <= j < before.len() && before[j].session_id@ != sid implies self.connections@.contains(
                        #[trigger] before[j],
                    ) by {
                        assert(self.connections@[j] == before[j]);
                    }
                }
            },
            None => {
                self.connections.push(conn);
                proof {
                    let last = before.len() as int;
                    assert(self.connections@[last] == conn);
                    assert forall|s: Seq<char>| s != sid implies #[trigger] registered(self.connections@, s)
                        <==> registered(before, s) by {
                        if registered(before, s) {
                            let k = choose|k: int| 0 <= k < before.len() && #[trigger] before[k].session_id@ == s;
                            assert(self.connections@[k] == before[k]);
                        }
                    }
                    assert forall|j: int|
                        0 <= j < before.len() && before[j].session_id@ != sid implies self.connections@.contains(
                        #[trigger] before[j],
                    ) by {
                        assert(self.connections@[j] == before[j]);
                    }
                }
            },
        }
    }

    /// Drops the entry for `session_id`; returns whether there was one.
    pub fn remove(&mut self, session_id: &String) -> (r: bool)
        requires
            old(self).wf(),
        ensures
            final(self).wf(),
            r == old(self).contains(session_id@),
            !final(self).contains(session_id@),
            forall|sid: Seq<char>|
                sid != session_id@ ==> (#[trigger] final(self).contains(sid) <==> old(self).contains(sid)),
            forall|j: int|
                0 <= j < old(self).connections@.len() && old(self).connections@[j].session_id@
                    != session_id@ ==> final(self).connections@.contains(
                    #[trigger] old(self).connections@[j],
                ),
    {
        let ghost before = self.connections@;
        match self.find(session_id) {
            Some(i) => {
                self.connections.remove(i);
                proof {
                    assert(self.connections@ == before.remove(i as int));
                    assert forall|k: int| 0 <= k < self.connections@.len() implies #[trigger] self.connections@[k].session_id@
                        != session_id@ by {
                        if k < i {
                            assert(self.connections@[k] == before[k]);
                        } else {
                            assert(self.connections@[k] == before[k + 1]);
                        }
                    }
                    assert forall|s: Seq<char>| s != session_id@ implies #[trigger] registered(self.connections@, s)
                        <==> registered(before, s) by {
                        if registered(before, s) {
                            let k = choose|k: int| 0 <= k < before.len() && #[trigger] before[k].session_id@ == s;
                            if k < i {
                                assert(self.connections@[k] == before[k]);
                            } else {
                                assert(self.connections@[k - 1] == before[k]);
                            }
                        }
                        if registered(self.connections@, s) {
                            let k = choose|k: int|
                                0 <= k < self.connections@.len() && #[trigger] self.connections@[k].session_id@ == s;
                            if k < i {
                                assert(self.connections@[k] == before[k]);
                            } else {
                                assert(self.connections@[k] == before[k + 1]);
                            }
                        }
                    }
                    assert forall|j: int|
                        0 <= j < before.len() && before[j].session_id@ != session_id@ implies self.connections@.contains(
                        #[trigger] before[j],
                    ) by {
                        if j < i {
                            assert(self.connections@[j] == before[j]);
                        } else {
                            assert(self.connections@[j - 1] == before[j]);
                        }
                    }
                }
                true
            },
            None => false,
        }
    }

    /// Notes activity on `session_id` at `now_ms`; returns whether it is registered.
    pub fn touch(&mut self, session_id: &String, now_ms: u64) -> (r: bool)
        requires
            old(self).wf(),
        ensures
            final(self).wf(),
            r == old(self).contains(session_id@),
            final(self).connections@.len() == old(self).connections@.len(),
            forall|j: int|
                0 <= j < old(self).connections@.len() ==> {
                    let o = #[trigger] old(self).connections@[j];
                    let n = final(self).connections@[j];
                    if o.session_id@ == session_id@ {
                        n == Connection { last_seen_ms: now_ms, ..o }
                    } else {
                        n == o
                    }
                },
    {
        match self.find(session_id) {
            Some(i) => {
                proof {
                    assert forall|j: int|
                        0 <= j < self.connections@.len() && self.connections@[j].session_id@ == session_id@ implies j
                        == i by {
                        self.lemma_entry_unique(j, i as int);
                    }
                }
                self.connections[i].last_seen_ms = now_ms;
                true
            },
            None => false,
        }
    }

    /// Records that `session_id` now plays in a game as `player_id`.
    pub fn assign_player(
        &mut self,
        session_id: &String,
        user_id: Option<i32>,
        player_id: i32,
        game_id: i32,
        game_code: &String,
    ) -> (r: bool)
        requires
            old(self).wf(),
        ensures
            final(self).wf(),
            r == old(self).contains(session_id@),
            final(self).connections@.len() == old(self).connections@.len(),
            forall|sid: Seq<char>| #[trigger] final(self).contains(sid) <==> old(self).contains(sid),
            forall|j: int|
                0 <= j < old(self).connections@.len() ==> {
                    let o = #[trigger] old(self).connections@[j];
                    let n = final(self).connections@[j];
                    if o.session_id@ == session_id@ {
                        &&& n.session_id == o.session_id
                        &&& n.user_id == user_id
                        &&& n.player_id == Some(player_id)
                        &&& n.game_id == Some(game_id)
                        &&& n.game_code matches Some(c) && c@ == game_code@
                        &&& n.connection_type == ConnectionType::Player
                        &&& n.last_seen_ms == o.last_seen_ms
                    } else {
                        n == o
                    }
                },
    {
        match self.find(session_id) {
            Some(i) => {
                proof {
                    assert forall|j: int|
                        0 <= j < self.connections@.len() && self.connections@[j].session_id@ == session_id@ implies j
                        == i by {
                        self.lemma_entry_unique(j, i as int);
                    }
                }
                let c = &mut self.connections[i];
                c.user_id = user_id;
                c.player_id = Some(player_id);
                c.game_id = Some(game_id);
                c.game_code = Some(game_code.clone());
                c.connection_type = ConnectionType::Player;
                proof {
                    let before = old(self).connections@;
                    assert forall|sid: Seq<char>| #[trigger] registered(self.connections@, sid) <==> registered(before, sid) by {
                        if registered(before, sid) {
                            let k = choose|k: int| 0 <= k < before.len() && #[trigger] before[k].session_id@ == sid;
                            assert(self.connections@[k].session_id@ == sid);
                        }
                        if registered(self.connections@, sid) {
                            let k = choose|k: int|
                                0 <= k < self.connections@.len() && #[trigger] self.connections@[k].session_id@ == sid;
                            assert(before[k].session_id@ == sid);
                        }
                    }
                }
                true
            },
            None => false,
        }
    }
}

} // verus!
