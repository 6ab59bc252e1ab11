use crate::model::{AppError, ConnectionType, GameStatus, LeaderboardEntry, Phase};
use crate::registry::{registered, Connection, ConnectionRegistry};
use crate::scoring::ScoringRules;
use crate::scoring::rules_points;
use crate::session::{
    active_entries, only_players_changed, progressed, same_identity, sorted_by_score, AnswerRecord, GameSession, PlayerState,
};
use crate::text::upper_of;
use vstd::prelude::*;

verus! {

/// The durable row of a player, as the store hands it over on reconnection.
pub struct DurablePlayer {
    pub player_id: i32,
    pub game_id: i32,
    pub game_code: String,
    pub user_id: Option<i32>,
    pub is_active: bool,
}

/// The session ids of the active players of a session that are connected,
/// in table order.
pub open spec fn player_recipients(players: Seq<PlayerState>, conns: Seq<Connection>) -> Seq<
    Seq<char>,
>
    decreases players.len(),
{
    if players.len() == 0 {
        Seq::empty()
    } else {
        let rest = player_recipients(players.drop_last(), conns);
        let p = players.last();
        if p.is_active && registered(conns, p.session_id@) {
            rest.push(p.session_id@)
        } else {
            rest
        }
    }
}

/// Everybody a broadcast to `s` reaches, each once: its connected active
/// players, then its host if connected and not among them already.
pub open spec fn recipients_of(s: GameSession, conns: Seq<Connection>) -> Seq<Seq<char>> {
    let ps = player_recipients(s.players@, conns);
    if registered(conns, s.host_session_id@) && !ps.contains(s.host_session_id@) {
        ps.push(s.host_session_id@)
    } else {
        ps
    }
}

pub open spec fn views(v: Seq<String>) -> Seq<Seq<char>> {
    v.map_values(|s: String| s@)
}

/// The live state of the engine: the connection registry and the table of
/// running sessions, one per code.
pub struct Engine {
    pub registry: ConnectionRegistry,
    pub sessions: Vec<GameSession>,
}

impl Engine {
    pub open spec fn wf(&self) -> bool {
        &&& self.registry.wf()
        &&& forall|a: int, b: int|
            0 <= a < b < self.sessions@.len() ==> #[trigger] self.sessions@[a].code@
                != #[trigger] self.sessions@[b].code@
        &&& forall|i: int| 0 <= i < self.sessions@.len() ==> (#[trigger] self.sessions@[i]).wf()
    }

    pub open spec fn has_session(&self, code: Seq<char>) -> bool {
        exists|i: int| 0 <= i < self.sessions@.len() && #[trigger] self.sessions@[i].code@ == code
    }

    /// The session `code` runs a question whose time is up at `now_ms`.
    pub open spec fn question_over(&self, code: Seq<char>, now_ms: u64) -> bool {
        exists|i: int|
            0 <= i < self.sessions@.len() && #[trigger] self.sessions@[i].code@ == code
                && self.sessions@[i].question_expired_at(now_ms)
    }

    /// The session `code` has `sid` for its host connection.
    pub open spec fn hosted_by(&self, code: Seq<char>, sid: Seq<char>) -> bool {
        exists|i: int|
            0 <= i < self.sessions@.len() && #[trigger] self.sessions@[i].code@ == code
                && self.sessions@[i].host_session_id@ == sid
    }

    /// Two sessions with the same code are one session.
    pub proof fn lemma_session_unique(&self, i: int, j: int)
        requires
            self.wf(),
            0 <= i < self.sessions@.len(),
            0 <= j < self.sessions@.len(),
            self.sessions@[i].code@ == self.sessions@[j].code@,
        ensures
            i == j,
    {
        if i < j {
            assert(self.sessions@[i].code@ != self.sessions@[j].code@);
        } else if j < i {
            assert(self.sessions@[j].code@ != self.sessions@[i].code@);
        }
    }

    pub fn new() -> (r: Engine)
        ensures
            r.wf(),
            r.registry.connections@.len() == 0,
            r.sessions@.len() == 0,
    {
        Engine { registry: ConnectionRegistry::new(), sessions: Vec::new() }
    }

    /// Where the session with `code` stands.
    pub fn find_session(&self, code: &String) -> (r: Option<usize>)
        ensures
            r matches Some(i) ==> i < self.sessions@.len() && self.sessions@[i as int].code@
                == code@,
            r is None <==> !self.has_session(code@),
    {
        let mut i: usize = 0;
        while i < self.sessions.len()
            invariant
                i <= self.sessions@.len(),
                forall|j: int| 0 <= j < i ==> #[trigger] self.sessions@[j].code@ != code@,
            decreases self.sessions@.len() - i,
        {
            if self.sessions[i].code == *code {
                return Some(i);
            }
            i = i + 1;
        }
        None
    }

    /// Registers a new connection as a viewer with no user, player or game.
    /// An entry under the same session id is overwritten; the others stay.
    pub fn connect(&mut self, session_id: String, now_ms: u64)
        requires
            old(self).wf(),
        ensures
            final(self).wf(),
            final(self).registry.contains(session_id@),
            final(self).sessions == old(self).sessions,
            forall|i: int|
                0 <= i < final(self).registry.connections@.len()
                    && #[trigger] final(self).registry.connections@[i].session_id@ == session_id@ ==> {
                    let c = final(self).registry.connections@[i];
                    &&& c.user_id is None
                    &&& c.player_id is None
                    &&& c.game_id is None
                    &&& c.game_code is None
                    &&& c.connection_type == ConnectionType::Viewer
                    &&& c.last_seen_ms == now_ms
                },
            forall|sid: Seq<char>|
                sid != session_id@ ==> (#[trigger] final(self).registry.contains(sid) <==> old(self).registry.contains(sid)),
            forall|j: int|
                0 <= j < old(self).registry.connections@.len()
                    && old(self).registry.connections@[j].session_id@ != session_id@
                    ==> final(self).registry.connections@.contains(#[trigger] old(self).registry.connections@[j]),
    {
        let c = Connection::viewer(session_id, None, now_ms);
        let ghost cv = c;
        self.registry.register(c);
        proof {
            let i0 = choose|i0: int|
                0 <= i0 < self.registry.connections@.len() && #[trigger] self.registry.connections@[i0] == cv;
            assert forall|i: int|
                0 <= i < self.registry.connections@.len()
                    && #[trigger] self.registry.connections@[i].session_id@ == cv.session_id@ implies self.registry.connections@[i] == cv by {
                self.registry.lemma_entry_unique(i, i0);
            }
        }
    }

    /// Registers `session` unless one with its code already runs, which is
    /// then kept; returns where the session with that code stands.
    pub fn open_session(&mut self, session: GameSession) -> (r: usize)
        requires
            old(self).wf(),
            session.wf(),
        ensures
            final(self).wf(),
            final(self).registry == old(self).registry,
            r < final(self).sessions@.len(),
            final(self).sessions@[r as int].code@ == session.code@,
            old(self).has_session(session.code@) ==> final(self).sessions == old(self).sessions,
            !old(self).has_session(session.code@) ==> final(self).sessions@ == old(self).sessions@.push(session),
    {
        match self.find_session(&session.code) {
            Some(i) => i,
            None => {
                self.sessions.push(session);
                self.sessions.len() - 1
            },
        }
    }

    /// Whether a player may join the lobby of `code` under `display_name`,
    /// given the durable status of the game: the game must still be in its
    /// lobby, and no player of the running session may use that name.
    pub fn check_join(&self, code: &String, status: GameStatus, display_name: &String) -> (r: Result<
        (),
        AppError,
    >)
        requires
            self.wf(),
        ensures
            status != GameStatus::Lobby ==> (r matches Err(AppError::BadRequestError(_))),
            r is Ok <==> (status == GameStatus::Lobby && forall|i: int, k: int|
                0 <= i < self.sessions@.len() && self.sessions@[i].code@ == code@ && 0 <= k
                    < self.sessions@[i].players@.len() ==> #[trigger] self.sessions@[i].players@[k].nickname@
                    != display_name@),
            r is Err ==> (r matches Err(AppError::BadRequestError(_))),
    {
        if status != GameStatus::Lobby {
            return Err(AppError::BadRequestError(String::from_str("this game is no longer open to join")));
        }
        match self.find_session(code) {
            Some(i) => {
                proof {
                    assert forall|j: int| 0 <= j < self.sessions@.len() && self.sessions@[j].code@ == code@ implies j
                        == i by {
                        self.lemma_session_unique(j, i as int);
                    }
                }
                if self.sessions[i].nickname_taken(display_name) {
                    return Err(AppError::BadRequestError(String::from_str("this nickname is already in use")));
                }
                Ok(())
            },
            None => Ok(()),
        }
    }

    /// Seats the player the store created for `session_id` in the running
    /// session `code` and records the connection as that player's.
    pub fn admit_player(
        &mut self,
        session_id: &String,
        code: &String,
        game_id: i32,
        player_id: i32,
        user_id: Option<i32>,
        display_name: String,
        now_ms: u64,
    ) -> (r: Result<(usize, usize), AppError>)
        requires
            old(self).wf(),
        ensures
            final(self).wf(),
            r is Ok <==> old(self).has_session(code@),
            r is Err ==> (r matches Err(AppError::NotFoundError(_))),
            r is Err ==> *final(self) == *old(self),
            r matches Ok((s, k)) ==> {
                let os = old(self).sessions@[s as int];
                let ns = final(self).sessions@[s as int];
                let p = ns.players@[k as int];
                &&& s < final(self).sessions@.len()
                &&& final(self).sessions@.len() == old(self).sessions@.len()
                &&& os.code@ == code@
                &&& only_players_changed(os, ns)
                &&& k < ns.players@.len()
                &&& p.session_id@ == session_id@
                &&& p.player_id == player_id
                &&& p.user_id == user_id
                &&& p.nickname@ == display_name@
                &&& p.score == 0
                &&& p.answers@.len() == 0
                &&& p.is_active
                &&& p.joined_at_ms == now_ms
                &&& (os.has_player(session_id@) ==> ns.players@.len() == os.players@.len())
                &&& (!os.has_player(session_id@) ==> ns.players@.len() == os.players@.len() + 1)
                &&& forall|j: int|
                    0 <= j < os.players@.len() && j != k ==> ns.players@[j] == os.players@[j]
                &&& forall|j: int|
                    0 <= j < old(self).sessions@.len() && j != s ==> final(self).sessions@[j]
                        == old(self).sessions@[j]
            },
            r is Ok ==> final(self).registry.connections@.len() == old(self).registry.connections@.len(),
            r is Ok ==> forall|j: int|
                0 <= j < old(self).registry.connections@.len() ==> {
                    let o = #[trigger] old(self).registry.connections@[j];
                    let n = final(self).registry.connections@[j];
                    if o.session_id@ == session_id@ {
                        &&& n.session_id == o.session_id
                        &&& n.user_id == user_id
                        &&& n.player_id == Some(player_id)
                        &&& n.game_id == Some(game_id)
                        &&& (n.game_code matches Some(c) && c@ == code@)
                        &&& n.connection_type == ConnectionType::Player
                    } else {
                        n == o
                    }
                },
    {
        let s = match self.find_session(code) {
            Some(s) => s,
            None => {
                return Err(AppError::NotFoundError(String::from_str("game not found")));
            },
        };
        self.registry.assign_player(session_id, user_id, player_id, game_id, code);
        let k = self.sessions[s].add_player(player_id, user_id, session_id.clone(), display_name, now_ms);
        Ok((s, k))
    }

    /// Finds the session `code` and takes the host capability for the
    /// caller; all host-only commands go through here.
    pub fn host_session(&mut self, code: &String, session_id: &String, user_id: Option<i32>) -> (r:
        Result<usize, AppError>)
        requires
            old(self).wf(),
        ensures
            final(self).wf(),
            final(self).registry == old(self).registry,
            final(self).sessions@.len() == old(self).sessions@.len(),
            !old(self).has_session(code@) ==> (r matches Err(AppError::NotFoundError(_))),
            forall|i: int|
                0 <= i < old(self).sessions@.len() && #[trigger] old(self).sessions@[i].code@ == code@ ==> {
                    &&& (r is Ok <==> user_id == Some(old(self).sessions@[i].host_id))
                    &&& (r is Err ==> (r matches Err(AppError::ForbiddenError(_))))
                },
            r is Err ==> final(self).sessions@ == old(self).sessions@,
            r is Err ==> forall|j: int|
                0 <= j < old(self).sessions@.len() ==> #[trigger] final(self).sessions@[j].phase
                    == old(self).sessions@[j].phase && final(self).sessions@[j].current_question
                    == old(self).sessions@[j].current_question && final(self).sessions@[j].players
                    == old(self).sessions@[j].players,
            r matches Ok(s) ==> {
                &&& s < old(self).sessions@.len()
                &&& old(self).sessions@[s as int].code@ == code@
                &&& user_id == Some(old(self).sessions@[s as int].host_id)
                &&& final(self).sessions@[s as int].host_session_id@ == session_id@
            },
            forall|j: int|
                0 <= j < old(self).sessions@.len() ==> {
                    let o = #[trigger] old(self).sessions@[j];
                    let n = final(self).sessions@[j];
                    &&& same_identity(o, n)
                    &&& n.players == o.players
                    &&& n.phase == o.phase
                    &&& n.current_question == o.current_question
                },
            forall|j: int|
                0 <= j < old(self).sessions@.len() && !(r matches Ok(s) && s == j) ==> final(self).sessions@[j] == old(self).sessions@[j],
    {
        let s = match self.find_session(code) {
            Some(s) => s,
            None => {
                return Err(AppError::NotFoundError(String::from_str("game not found")));
            },
        };
        proof {
            assert forall|i: int|
                0 <= i < self.sessions@.len() && #[trigger] self.sessions@[i].code@ == code@ implies i == s by {
                self.lemma_session_unique(i, s as int);
            }
        }
        let ghost before = self.sessions@;
        match self.sessions[s].authorize_host(session_id, user_id) {
            Ok(()) => Ok(s),
            Err(e) => {
                assert(self.sessions@ =~= before);
                Err(e)
            },
        }
    }

    /// The session ids a broadcast to `code` reaches, each once (none when
    /// the session is not running).
    pub fn recipients(&self, code: &String) -> (r: Vec<String>)
        requires
            self.wf(),
        ensures
            !self.has_session(code@) ==> r@.len() == 0,
            forall|i: int|
                0 <= i < self.sessions@.len() && #[trigger] self.sessions@[i].code@ == code@ ==> views(
                    r@,
                ) == recipients_of(self.sessions@[i], self.registry.connections@),
    {
        let s = match self.find_session(code) {
            Some(s) => s,
            None => {
                return Vec::new();
            },
        };
        let game = &self.sessions[s];
        let ghost h = game.host_session_id@;
        let mut out: Vec<String> = Vec::new();
        let mut host_seen = false;
        let mut i: usize = 0;
        while i < game.players.len()
            invariant
                i <= game.players@.len(),
                h == game.host_session_id@,
                host_seen == views(out@).contains(h),
                views(out@) == player_recipients(
                    game.players@.subrange(0, i as int),
                    self.registry.connections@,
                ),
            decreases game.players@.len() - i,
        {
            assert(game.players@.subrange(0, i + 1).drop_last() =~= game.players@.subrange(
                0,
                i as int,
            ));
            let p = &game.players[i];
            if p.is_active && self.registry.find(&p.session_id).is_some() {
                let ghost before = out@;
                let is_host = p.session_id == game.host_session_id;
                out.push(p.session_id.clone());
                proof {
                    let v0 = views(before);
                    let v1 = views(out@);
                    assert(v1 =~= v0.push(p.session_id@));
                    if v0.contains(h) {
                        let w = choose|w: int| 0 <= w < v0.len() && v0[w] == h;
                        assert(v1[w] == h);
                    }
                    if is_host {
                        assert(v1[v1.len() - 1] == h);
                    }
                    if v1.contains(h) {
                        let w = choose|w: int| 0 <= w < v1.len() && v1[w] == h;
                        if w < v0.len() {
                            assert(v0[w] == h);
                        }
                    }
                }
                host_seen = host_seen || is_host;
            }
            i = i + 1;
        }
        assert(game.players@.subrange(0, game.players@.len() as int) =~= game.players@);
        if !host_seen && self.registry.find(&game.host_session_id).is_some() {
            let ghost before = out@;
            out.push(game.host_session_id.clone());
            assert(views(out@) =~= views(before).push(game.host_session_id@));
        }
        proof {
            assert forall|j: int|
                0 <= j < self.sessions@.len() && #[trigger] self.sessions@[j].code@ == code@ implies j
                == s by {
                self.lemma_session_unique(j, s as int);
            }
        }
        out
    }

    /// The codes of the sessions whose running question is over at `now_ms`.
    pub fn expired_sessions(&self, now_ms: u64) -> (r: Vec<String>)
        ensures
            r@.len() <= self.sessions@.len(),
            forall|k: int| 0 <= k < r@.len() ==> self.question_over((#[trigger] r@[k])@, now_ms),
            forall|i: int|
                0 <= i < self.sessions@.len() && (#[trigger] self.sessions@[i]).question_expired_at(
                    now_ms,
                ) ==> exists|k: int| 0 <= k < r@.len() && (#[trigger] r@[k])@ == self.sessions@[i].code@,
    {
        let mut out: Vec<String> = Vec::new();
        let ghost mut src: Seq<int> = Seq::empty();
        let mut i: usize = 0;
        while i < self.sessions.len()
            invariant
                i <= self.sessions@.len(),
                out@.len() <= i,
                src.len() == out@.len(),
                forall|k: int|
                    0 <= k < out@.len() ==> 0 <= #[trigger] src[k] < i && self.sessions@[src[k]].code@
                        == out@[k]@ && self.sessions@[src[k]].question_expired_at(now_ms),
                forall|j: int|
                    0 <= j < i && (#[trigger] self.sessions@[j]).question_expired_at(now_ms)
                        ==> exists|k: int| 0 <= k < out@.len() && src[k] == j,
            decreases self.sessions@.len() - i,
        {
            let ghost src0 = src;
            let ghost out0 = out@;
            if self.sessions[i].question_expired(now_ms) {
                out.push(self.sessions[i].code.clone());
                proof {
                    src = src.push(i as int);
                    assert(src[src.len() - 1] == i);
                }
            }
            proof {
                assert forall|k: int| 0 <= k < src0.len() implies src[k] == src0[k] && out@[k] == out0[k] by {}
                assert forall|j: int|
                    0 <= j < i + 1 && (#[trigger] self.sessions@[j]).question_expired_at(now_ms)
                        implies exists|k: int| 0 <= k < out@.len() && src[k] == j by {
                    if j < i {
                        let k = choose|k: int| 0 <= k < out0.len() && src0[k] == j;
                        assert(src[k] == j);
                    } else {
                        assert(src[src.len() - 1] == j);
                    }
                }
            }
            i = i + 1;
        }
        proof {
            assert forall|k: int| 0 <= k < out@.len() implies self.question_over(
                (#[trigger] out@[k])@,
                now_ms,
            ) by {
                let j = src[k];
                assert(self.sessions@[j].code@ == out@[k]@);
            }
            assert forall|j: int|
                0 <= j < self.sessions@.len() && (#[trigger] self.sessions@[j]).question_expired_at(
                    now_ms,
                ) implies exists|k: int| 0 <= k < out@.len() && (#[trigger] out@[k])@ == self.sessions@[j].code@ by {
                let k = choose|k: int| 0 <= k < out@.len() && src[k] == j;
                assert(out@[k]@ == self.sessions@[j].code@);
            }
        }
        out
    }

    /// The timer's transition for `code`: closes the running question for
    /// review and gives the board. A session that is gone, or not in the
    /// `Question` phase any more, is left alone.
    pub fn close_question(&mut self, code: &String) -> (r: Option<Vec<LeaderboardEntry>>)
        requires
            old(self).wf(),
        ensures
            final(self).wf(),
            final(self).registry == old(self).registry,
            final(self).sessions@.len() == old(self).sessions@.len(),
            r is None ==> final(self).sessions@ == old(self).sessions@,
            forall|i: int|
                0 <= i < old(self).sessions@.len() && #[trigger] old(self).sessions@[i].code@ == code@
                    && old(self).sessions@[i].phase == Phase::Question ==> (r matches Some(b) && sorted_by_score(b@)
                    && b@.to_multiset() == active_entries(old(self).sessions@[i].players@).to_multiset()),
            r is Some <==> exists|i: int|
                0 <= i < old(self).sessions@.len() && #[trigger] old(self).sessions@[i].code@ == code@
                    && old(self).sessions@[i].phase == Phase::Question,
            forall|j: int|
                0 <= j < old(self).sessions@.len() ==> {
                    let o = #[trigger] old(self).sessions@[j];
                    let n = final(self).sessions@[j];
                    if o.code@ == code@ && o.phase == Phase::Question {
                        &&& n.phase == Phase::Review
                        &&& n.current_question == o.current_question
                        &&& n.players == o.players
                        &&& same_identity(o, n)
                    } else {
                        n == o
                    }
                },
    {
        let s = match self.find_session(code) {
            Some(s) => s,
            None => {
                return None;
            },
        };
        proof {
            assert forall|j: int|
                0 <= j < self.sessions@.len() && #[trigger] self.sessions@[j].code@ == code@ implies j
                == s by {
                self.lemma_session_unique(j, s as int);
            }
        }
        if self.sessions[s].end_question() {
            Some(self.sessions[s].leaderboard())
        } else {
            None
        }
    }

    /// Grades and records an answer from the player on `session_id` in the
    /// session `code`. Nothing changes unless the answer is recorded.
    pub fn submit_answer(
        &mut self,
        code: &String,
        session_id: &String,
        question_id: i32,
        answer: &str,
        correct_option: &String,
        response_time_ms: i32,
        rules: &ScoringRules,
        now_ms: u64,
    ) -> (r: Result<AnswerRecord, AppError>)
        requires
            old(self).wf(),
            rules.wf(),
        ensures
            final(self).wf(),
            final(self).registry == old(self).registry,
            final(self).sessions@.len() == old(self).sessions@.len(),
            !old(self).has_session(code@) ==> (r matches Err(AppError::NotFoundError(_))),
            r is Err ==> final(self).sessions@ == old(self).sessions@,
            forall|i: int, k: int|
                0 <= i < old(self).sessions@.len() && old(self).sessions@[i].code@ == code@ && 0 <= k
                    < old(self).sessions@[i].players@.len()
                    && old(self).sessions@[i].players@[k].session_id@ == session_id@
                    && #[trigger] old(self).sessions@[i].players@[k].answered(question_id) ==> (r matches Err(
                    AppError::BadRequestError(_),
                )),
            r matches Ok(a) ==> {
                &&& a.question_id == question_id
                &&& a.answer@ == upper_of(answer@)
                &&& a.is_correct == (upper_of(answer@) == correct_option@)
                &&& a.response_time_ms == response_time_ms
                &&& a.points_earned == rules_points(a.is_correct, response_time_ms as int, *rules)
                &&& exists|i: int, k: int|
                    0 <= i < old(self).sessions@.len() && old(self).sessions@[i].code@ == code@ && 0
                        <= k < old(self).sessions@[i].players@.len()
                        && #[trigger] old(self).sessions@[i].players@[k].session_id@ == session_id@
                        && final(self).sessions@[i].players@[k].score == old(self).sessions@[i].players@[k].score
                        + a.points_earned && final(self).sessions@[i].players@[k].answers@.len()
                        == old(self).sessions@[i].players@[k].answers@.len() + 1
                        && final(self).sessions@[i].players@[k].answers@.last().question_id
                        == question_id
            },
            forall|i: int|
                0 <= i < old(self).sessions@.len() && #[trigger] old(self).sessions@[i].code@ == code@
                    && !old(self).sessions@[i].has_player(session_id@) ==> (r matches Err(
                    AppError::NotFoundError(_),
                )),
            forall|i: int, k: int|
                0 <= i < old(self).sessions@.len() && old(self).sessions@[i].code@ == code@ && 0 <= k
                    < old(self).sessions@[i].players@.len()
                    && #[trigger] old(self).sessions@[i].players@[k].session_id@ == session_id@ ==> {
                    let p = old(self).sessions@[i].players@[k];
                    let pts = rules_points(
                        upper_of(answer@) == correct_option@,
                        response_time_ms as int,
                        *rules,
                    );
                    &&& !p.answered(question_id) && i64::MIN <= p.score + pts <= i64::MAX ==> r is Ok
                    &&& !p.answered(question_id) && !(i64::MIN <= p.score + pts <= i64::MAX) ==> (r matches Err(
                        AppError::InternalError(_),
                    ))
                },
            forall|j: int|
                0 <= j < old(self).sessions@.len() ==> {
                    let o = #[trigger] old(self).sessions@[j];
                    let n = final(self).sessions@[j];
                    &&& same_identity(o, n)
                    &&& n.phase == o.phase
                    &&& n.current_question == o.current_question
                },
    {
        let s = match self.find_session(code) {
            Some(s) => s,
            None => {
                return Err(AppError::NotFoundError(String::from_str("game not found")));
            },
        };
        proof {
            assert forall|j: int|
                0 <= j < self.sessions@.len() && #[trigger] self.sessions@[j].code@ == code@ implies j
                == s by {
                self.lemma_session_unique(j, s as int);
            }
            let g = self.sessions@[s as int];
            assert forall|a: int, b: int|
                0 <= a < g.players@.len() && 0 <= b < g.players@.len() && g.players@[a].session_id@
                    == g.players@[b].session_id@ implies a == b by {
                g.lemma_player_unique(a, b);
            }
        }
        let record = match self.sessions[s].evaluate_answer(
            session_id,
            question_id,
            answer,
            correct_option,
            response_time_ms,
            rules,
        ) {
            Ok(a) => a,
            Err(e) => {
                return Err(e);
            },
        };
        let qid = record.question_id;
        let points = record.points_earned;
        let is_correct = record.is_correct;
        let latency = record.response_time_ms;
        let upper = record.answer.clone();
        let ghost before = self.sessions@[s as int];
        match self.sessions[s].record_answer(session_id, record, now_ms) {
            Ok(k) => {
                proof {
                    let after = self.sessions@[s as int];
                    assert(after.players@[k as int].answers@.last() == record);
                    assert(old(self).sessions@[s as int].players@[k as int].session_id@ == session_id@);
                }
                Ok(
                AnswerRecord {
                    question_id: qid,
                    answer: upper,
                    is_correct,
                    response_time_ms: latency,
                    points_earned: points,
                },
            )
            },
            Err(e) => Err(e),
        }
    }

    /// Teardown of the connection `session_id`: drops it from the registry,
    /// marks its player entries inactive, and ends every running session it
    /// was the host of. Returns the codes of the sessions so ended.
    pub fn disconnect(&mut self, session_id: &String, now_ms: u64) -> (r: Vec<String>)
        requires
            old(self).wf(),
        ensures
            final(self).wf(),
            !final(self).registry.contains(session_id@),
            forall|sid: Seq<char>|
                sid != session_id@ ==> (#[trigger] final(self).registry.contains(sid) <==> old(self).registry.contains(sid)),
            forall|j: int|
                0 <= j < old(self).registry.connections@.len()
                    && old(self).registry.connections@[j].session_id@ != session_id@
                    ==> final(self).registry.connections@.contains(#[trigger] old(self).registry.connections@[j]),
            final(self).sessions@.len() == old(self).sessions@.len(),
            forall|j: int|
                0 <= j < old(self).sessions@.len() ==> {
                    let o = #[trigger] old(self).sessions@[j];
                    let n = final(self).sessions@[j];
                    &&& same_identity(o, n)
                    &&& progressed(o, n)
                    &&& n.current_question == o.current_question
                    &&& n.players@.len() == o.players@.len()
                    &&& (o.host_session_id@ == session_id@ ==> n.phase == Phase::Ended)
                    &&& (o.host_session_id@ != session_id@ ==> n.phase == o.phase)
                    &&& forall|k: int|
                        0 <= k < n.players@.len() ==> {
                            let op = #[trigger] o.players@[k];
                            let np = n.players@[k];
                            if op.session_id@ == session_id@ {
                                &&& !np.is_active
                                &&& np.score == op.score
                                &&& np.answers == op.answers
                                &&& np.player_id == op.player_id
                            } else {
                                np == op
                            }
                        }
                },
            forall|k: int|
                0 <= k < r@.len() ==> old(self).hosted_by((#[trigger] r@[k])@, session_id@),
            forall|j: int|
                0 <= j < old(self).sessions@.len() && #[trigger] old(self).sessions@[j].host_session_id@
                    == session_id@ && old(self).sessions@[j].phase != Phase::Ended ==> exists|k: int|
                    0 <= k < r@.len() && (#[trigger] r@[k])@ == old(self).sessions@[j].code@,
    {
        self.registry.remove(session_id);
        let ghost reg1 = self.registry;
        let ghost start = self.sessions@;
        let ghost mut src: Seq<int> = Seq::empty();
        let mut ended: Vec<String> = Vec::new();
        let mut i: usize = 0;
        while i < self.sessions.len()
            invariant
                self.wf(),
                self.registry == reg1,
                forall|j: int|
                    0 <= j < old(self).registry.connections@.len()
                        && old(self).registry.connections@[j].session_id@ != session_id@
                        ==> reg1.connections@.contains(#[trigger] old(self).registry.connections@[j]),
                !self.registry.contains(session_id@),
                forall|sid: Seq<char>|
                    sid != session_id@ ==> (#[trigger] self.registry.contains(sid) <==> old(self).registry.contains(sid)),
                self.sessions@.len() == start.len(),
                start == old(self).sessions@,
                i <= start.len(),
                forall|j: int| i <= j < start.len() ==> #[trigger] self.sessions@[j] == start[j],
                forall|j: int|
                    0 <= j < i ==> {
                        let o = #[trigger] start[j];
                        let n = self.sessions@[j];
                        &&& same_identity(o, n)
                        &&& progressed(o, n)
                        &&& n.current_question == o.current_question
                        &&& n.players@.len() == o.players@.len()
                        &&& (o.host_session_id@ == session_id@ ==> n.phase == Phase::Ended)
                        &&& (o.host_session_id@ != session_id@ ==> n.phase == o.phase)
                        &&& forall|k: int|
                            0 <= k < n.players@.len() ==> {
                                let op = #[trigger] o.players@[k];
                                let np = n.players@[k];
                                if op.session_id@ == session_id@ {
                                    &&& !np.is_active
                                    &&& np.score == op.score
                                    &&& np.answers == op.answers
                                    &&& np.player_id == op.player_id
                                } else {
                                    np == op
                                }
                            }
                    },
                src.len() == ended@.len(),
                forall|k: int|
                    0 <= k < ended@.len() ==> 0 <= #[trigger] src[k] < i && start[src[k]].code@
                        == ended@[k]@ && start[src[k]].host_session_id@ == session_id@,
                forall|j: int|
                    0 <= j < i && #[trigger] start[j].host_session_id@ == session_id@
                        && start[j].phase != Phase::Ended ==> exists|k: int|
                        0 <= k < ended@.len() && src[k] == j,
            decreases start.len() - i,
        {
            let ghost o = self.sessions@[i as int];
            let ghost src0 = src;
            let ghost ended0 = ended@;
            self.sessions[i].deactivate_player(session_id);
            let ghost mid = self.sessions@[i as int];
            if self.sessions[i].host_session_id == *session_id {
                if self.sessions[i].phase != Phase::Ended {
                    self.sessions[i].force_end(now_ms);
                    ended.push(self.sessions[i].code.clone());
                    proof {
                        src = src.push(i as int);
                        assert(src[src.len() - 1] == i);
                    }
                }
            }
            proof {
                let n = self.sessions@[i as int];
                assert forall|k: int| 0 <= k < n.players@.len() implies {
                    let op = #[trigger] o.players@[k];
                    let np = n.players@[k];
                    if op.session_id@ == session_id@ {
                        &&& !np.is_active
                        &&& np.score == op.score
                        &&& np.answers == op.answers
                        &&& np.player_id == op.player_id
                    } else {
                        np == op
                    }
                } by {
                    assert(mid.players@[k] == n.players@[k]);
                }
                assert forall|k: int| 0 <= k < src0.len() implies src[k] == src0[k] && ended@[k] == ended0[k] by {}
                assert forall|j: int|
                    0 <= j < i + 1 && #[trigger] start[j].host_session_id@ == session_id@
                        && start[j].phase != Phase::Ended implies exists|k: int|
                        0 <= k < ended@.len() && src[k] == j by {
                    if j < i {
                        let k = choose|k: int| 0 <= k < ended0.len() && src0[k] == j;
                        assert(src[k] == j);
                    } else {
                        assert(src[src.len() - 1] == j);
                    }
                }
            }
            i = i + 1;
        }
        proof {
            assert forall|k: int| 0 <= k < ended@.len() implies old(self).hosted_by(
                (#[trigger] ended@[k])@,
                session_id@,
            ) by {
                let j = src[k];
                assert(start[j].code@ == ended@[k]@);
            }
            assert forall|j: int|
                0 <= j < old(self).sessions@.len() && #[trigger] old(self).sessions@[j].host_session_id@
                    == session_id@ && old(self).sessions@[j].phase != Phase::Ended implies exists|k: int|
                    0 <= k < ended@.len() && (#[trigger] ended@[k])@ == old(self).sessions@[j].code@ by {
                let k = choose|k: int| 0 <= k < ended@.len() && src[k] == j;
                assert(ended@[k]@ == start[j].code@);
            }
        }
        ended
    }

    /// Reconnection of `new_session_id` as the player that was on
    /// `old_session_id`, given the player's durable row. Refused when no row
    /// was found, or when that player is still active. Otherwise the registry
    /// entry of the new connection becomes the player's, the old one is
    /// dropped, and the in-memory standing moves to the new session id with
    /// its score and answers untouched; the result says where it stands, if
    /// the running session holds it.
    pub fn reconnect(
        &mut self,
        old_session_id: &String,
        new_session_id: &String,
        row: Option<&DurablePlayer>,
        now_ms: u64,
    ) -> (r: Result<Option<(usize, usize)>, AppError>)
        requires
            old(self).wf(),
        ensures
            final(self).wf(),
            row is None <==> (r matches Err(AppError::NotFoundError(_))),
            (row matches Some(d) && d.is_active) <==> (r matches Err(AppError::ForbiddenError(_))),
            r is Err ==> *final(self) == *old(self),
            r is Ok && old_session_id@ != new_session_id@ ==> !final(self).registry.contains(
                old_session_id@,
            ),
            r is Ok ==> final(self).registry.contains(new_session_id@) == old(self).registry.contains(
                new_session_id@,
            ),
            r is Ok ==> forall|sid: Seq<char>|
                sid != old_session_id@ && sid != new_session_id@ ==> (#[trigger] final(self).registry.contains(sid)
                    <==> old(self).registry.contains(sid)),
            row matches Some(d) ==> (r is Ok ==> forall|j: int|
                0 <= j < final(self).registry.connections@.len()
                    && #[trigger] final(self).registry.connections@[j].session_id@ == new_session_id@ ==> {
                    let c = final(self).registry.connections@[j];
                    &&& c.user_id == d.user_id
                    &&& c.player_id == Some(d.player_id)
                    &&& c.game_id == Some(d.game_id)
                    &&& (c.game_code matches Some(g) && g@ == d.game_code@)
                    &&& c.connection_type == ConnectionType::Player
                }),
            row matches Some(d) ==> (!d.is_active && !old(self).has_session(d.game_code@) ==> (r matches Ok(
                None,
            ))),
            row matches Some(d) ==> (!d.is_active ==> forall|i: int|
                0 <= i < old(self).sessions@.len() && #[trigger] old(self).sessions@[i].code@ == d.game_code@
                    ==> ((r matches Ok(Some(_))) <==> (old(self).sessions@[i].has_player(old_session_id@) && (
                    old_session_id@ == new_session_id@ || !old(self).sessions@[i].has_player(
                        new_session_id@,
                    ))))),
            final(self).sessions@.len() == old(self).sessions@.len(),
            r matches Ok(None) ==> final(self).sessions@ == old(self).sessions@,
            r matches Ok(Some((s, k))) ==> {
                let os = old(self).sessions@[s as int];
                let ns = final(self).sessions@[s as int];
                let o = os.players@[k as int];
                let n = ns.players@[k as int];
                &&& row matches Some(d) && os.code@ == d.game_code@
                &&& s < old(self).sessions@.len()
                &&& k < os.players@.len()
                &&& ns.players@.len() == os.players@.len()
                &&& o.session_id@ == old_session_id@
                &&& n.session_id@ == new_session_id@
                &&& n.is_active
                &&& n.last_seen_ms == now_ms
                &&& n.player_id == o.player_id
                &&& n.user_id == o.user_id
                &&& n.nickname == o.nickname
                &&& n.score == o.score
                &&& n.answers == o.answers
                &&& n.joined_at_ms == o.joined_at_ms
                &&& n.last_answer_ms == o.last_answer_ms
                &&& !ns.has_player(old_session_id@) || old_session_id@ == new_session_id@
                &&& only_players_changed(os, ns)
                &&& ns.phase == os.phase
                &&& ns.current_question == os.current_question
                &&& forall|j: int|
                    0 <= j < os.players@.len() && j != k ==> ns.players@[j] == os.players@[j]
                &&& forall|j: int|
                    0 <= j < old(self).sessions@.len() && j != s ==> final(self).sessions@[j]
                        == old(self).sessions@[j]
            },
    {
        let d = match row {
            Some(d) => d,
            None => {
                return Err(AppError::NotFoundError(String::from_str("previous session not found")));
            },
        };
        if d.is_active {
            return Err(AppError::ForbiddenError(String::from_str("this session is already active")));
        }
        self.registry.assign_player(new_session_id, d.user_id, d.player_id, d.game_id, &d.game_code);
        let ghost mid = self.registry;
        if *old_session_id != *new_session_id {
            self.registry.remove(old_session_id);
        }
        proof {
            assert forall|j: int|
                0 <= j < self.registry.connections@.len()
                    && #[trigger] self.registry.connections@[j].session_id@ == new_session_id@ implies {
                    let c = self.registry.connections@[j];
                    &&& c.user_id == d.user_id
                    &&& c.player_id == Some(d.player_id)
                    &&& c.game_id == Some(d.game_id)
                    &&& (c.game_code matches Some(g) && g@ == d.game_code@)
                    &&& c.connection_type == ConnectionType::Player
                } by {
                if old_session_id@ != new_session_id@ {
                    assert(self.registry.contains(new_session_id@));
                    assert(mid.contains(new_session_id@));
                    let w = choose|w: int|
                        0 <= w < mid.connections@.len() && #[trigger] mid.connections@[w].session_id@
                            == new_session_id@;
                    assert(self.registry.connections@.contains(mid.connections@[w]));
                    let m = choose|m: int|
                        0 <= m < self.registry.connections@.len() && self.registry.connections@[m]
                            == mid.connections@[w];
                    self.registry.lemma_entry_unique(j, m);
                    assert(mid.connections@[w] == self.registry.connections@[j]);
                    let o = old(self).registry.connections@[w];
                    assert(o.session_id@ == new_session_id@);
                } else {
                    let o = old(self).registry.connections@[j];
                    assert(o.session_id@ == new_session_id@);
                }
            }
        }
        let s = match self.find_session(&d.game_code) {
            Some(s) => s,
            None => {
                return Ok(None);
            },
        };
        proof {
            assert forall|i: int|
                0 <= i < self.sessions@.len() && #[trigger] self.sessions@[i].code@ == d.game_code@ implies i
                == s by {
                self.lemma_session_unique(i, s as int);
            }
        }
        let ghost before = self.sessions@;
        match self.sessions[s].migrate_player(old_session_id, new_session_id, now_ms) {
            Some(k) => {
                proof {
                    let ns = self.sessions@[s as int];
                    if ns.has_player(old_session_id@) && old_session_id@ != new_session_id@ {
                        let w = choose|w: int|
                            0 <= w < ns.players@.len() && #[trigger] ns.players@[w].session_id@
                                == old_session_id@;
                        if w != k {
                            assert(ns.players@[w] == before[s as int].players@[w]);
                            before[s as int].lemma_player_unique(w, k as int);
                        }
                    }
                }
                Ok(Some((s, k)))
            },
            None => {
                assert(self.sessions@ =~= before);
                Ok(None)
            },
        }
    }
}

} // verus!
