use crate::model::{AppError, LeaderboardEntry, Phase, PlayerInfo, Question};
use crate::scoring::{calculate_points, rules_points, ScoringRules};
use crate::stats::{active_stats, player_statistics, stats_by_score, PlayerStatistics};
use crate::text::{to_upper, upper_of};
use vstd::prelude::*;

verus! {

broadcast use {vstd::seq_lib::group_to_multiset_ensures, vstd::seq_lib::to_multiset_insert};

/// Seconds a question runs when its own limit is unusable.
pub const DEFAULT_TIME_LIMIT_SECS: u64 = 30;

/// One graded submission of a player for one question.
pub struct AnswerRecord {
    pub question_id: i32,
    pub answer: String,
    pub is_correct: bool,
    pub response_time_ms: i32,
    pub points_earned: i32,
}

/// One participant's standing inside a game session. Times are
/// milliseconds on the caller's clock.
pub struct PlayerState {
    pub player_id: i32,
    pub user_id: Option<i32>,
    pub session_id: String,
    pub nickname: String,
    pub score: i64,
    pub answers: Vec<AnswerRecord>,
    pub is_active: bool,
    pub joined_at_ms: u64,
    pub last_seen_ms: u64,
    pub last_answer_ms: Option<u64>,
}

impl PlayerState {
    /// At most one record per question.
    pub open spec fn wf(&self) -> bool {
        forall|a: int, b: int|
            0 <= a < b < self.answers@.len() ==> #[trigger] self.answers@[a].question_id
                != #[trigger] self.answers@[b].question_id
    }

    pub open spec fn answered(&self, question_id: i32) -> bool {
        exists|k: int|
            0 <= k < self.answers@.len() && #[trigger] self.answers@[k].question_id == question_id
    }

    /// The record for `question_id`, if the player has one.
    pub fn answer_for(&self, question_id: i32) -> (r: Option<&AnswerRecord>)
        ensures
            r is None <==> !self.answered(question_id),
            r matches Some(a) ==> a.question_id == question_id && self.answers@.contains(*a),
    {
        let mut k: usize = 0;
        while k < self.answers.len()
            invariant
                k <= self.answers@.len(),
                forall|j: int| 0 <= j < k ==> #[trigger] self.answers@[j].question_id != question_id,
            decreases self.answers@.len() - k,
        {
            if self.answers[k].question_id == question_id {
                return Some(&self.answers[k]);
            }
            k = k + 1;
        }
        None
    }
}

/// What a leaderboard shows of a player.
pub open spec fn entry_for(p: PlayerState) -> LeaderboardEntry {
    LeaderboardEntry {
        player_id: p.player_id,
        nickname: p.nickname,
        score: p.score,
        is_guest: p.user_id is None,
    }
}

/// The leaderboard lines of the active players, in table order.
pub open spec fn active_entries(players: Seq<PlayerState>) -> Seq<LeaderboardEntry>
    decreases players.len(),
{
    if players.len() == 0 {
        Seq::empty()
    } else {
        let rest = active_entries(players.drop_last());
        if players.last().is_active {
            rest.push(entry_for(players.last()))
        } else {
            rest
        }
    }
}

/// Scores never rise along the board.
pub open spec fn sorted_by_score(s: Seq<LeaderboardEntry>) -> bool {
    forall|a: int, b: int| 0 <= a < b < s.len() ==> #[trigger] s[a].score >= #[trigger] s[b].score
}

/// How long a question with the given limit (in seconds) runs, in ms.
pub open spec fn duration_for(time_limit: int) -> int {
    if 0 <= time_limit {
        time_limit * 1000
    } else {
        DEFAULT_TIME_LIMIT_SECS * 1000
    }
}

/// The announcement of a question. The copy for players carries no
/// `correct_option`; the host's copy does.
pub struct QuestionStart {
    pub question_id: i32,
    pub question_text: String,
    pub option_a: String,
    pub option_b: String,
    pub option_c: String,
    pub option_d: String,
    pub time_limit: i32,
    pub question_number: i64,
    pub total_questions: i64,
    pub correct_option: Option<String>,
}

/// The same announcement in both copies, but for the answer key.
pub open spec fn announces(m: QuestionStart, q: Question, number: int, total: int) -> bool {
    &&& m.question_id == q.id
    &&& m.question_text@ == q.question_text@
    &&& m.option_a@ == q.option_a@
    &&& m.option_b@ == q.option_b@
    &&& m.option_c@ == q.option_c@
    &&& m.option_d@ == q.option_d@
    &&& m.time_limit == q.time_limit
    &&& m.question_number == number
    &&& m.total_questions == total
}

/// The outcome of the advance command.
pub enum Advance {
    /// A question started: one copy for everybody, one for the host.
    Started { public: QuestionStart, host: QuestionStart },
    /// No question was left: the session ended with this final board and
    /// the statistics of its active players.
    Finished { leaderboard: Vec<LeaderboardEntry>, player_stats: Vec<PlayerStatistics> },
}

/// What a player who came back on a new connection is told: standing,
/// phase, whether the running question is to be sent again (without its
/// answer key), and the board.
pub struct ReconnectReply {
    pub player_id: i32,
    pub nickname: String,
    pub score: i64,
    pub phase: Phase,
    pub current_question: i32,
    pub resend_question: bool,
    pub leaderboard: Vec<LeaderboardEntry>,
}

/// One live play-through of a question set.
pub struct GameSession {
    pub id: i32,
    pub code: String,
    pub host_session_id: String,
    pub host_id: i32,
    pub question_set_id: i32,
    pub total_questions: i32,
    pub players: Vec<PlayerState>,
    pub current_question: i32,
    pub phase: Phase,
    pub started_at_ms: Option<u64>,
    pub ended_at_ms: Option<u64>,
    pub question_started_at_ms: Option<u64>,
    pub question_duration_ms: Option<u64>,
}

/// `new` follows `old` in the state machine: the question index never goes
/// back, and nothing leaves `Ended`.
pub open spec fn progressed(old: GameSession, new: GameSession) -> bool {
    &&& old.current_question <= new.current_question
    &&& old.phase == Phase::Ended ==> new.phase == Phase::Ended
}

/// The fields that name the session are those of `old`.
pub open spec fn same_identity(old: GameSession, new: GameSession) -> bool {
    &&& new.id == old.id
    &&& new.code@ == old.code@
    &&& new.host_id == old.host_id
    &&& new.question_set_id == old.question_set_id
    &&& new.total_questions == old.total_questions
}

/// Only the players table changed.
pub open spec fn only_players_changed(old: GameSession, new: GameSession) -> bool {
    &&& same_identity(old, new)
    &&& new.host_session_id@ == old.host_session_id@
    &&& new.current_question == old.current_question
    &&& new.phase == old.phase
    &&& new.started_at_ms == old.started_at_ms
    &&& new.ended_at_ms == old.ended_at_ms
    &&& new.question_started_at_ms == old.question_started_at_ms
    &&& new.question_duration_ms == old.question_duration_ms
}

/// Grades an answer that has already been folded to upper case.
pub fn grade_answer(
    question_id: i32,
    answer_upper: String,
    correct_option: &String,
    response_time_ms: i32,
    rules: &ScoringRules,
) -> (r: AnswerRecord)
    requires
        rules.wf(),
    ensures
        r.question_id == question_id,
        r.answer@ == answer_upper@,
        r.is_correct == (answer_upper@ == correct_option@),
        r.response_time_ms == response_time_ms,
        r.points_earned == rules_points(r.is_correct, response_time_ms as int, *rules),
{
    let is_correct = answer_upper == *correct_option;
    let points = calculate_points(is_correct, response_time_ms as i64, rules);
    AnswerRecord {
        question_id,
        answer: answer_upper,
        is_correct,
        response_time_ms,
        points_earned: points,
    }
}

/// The running time of a question, in ms, from its limit in seconds.
pub fn question_duration_ms(time_limit: i32) -> (r: u64)
    ensures
        r == duration_for(time_limit as int),
{
    if time_limit >= 0 {
        time_limit as u64 * 1000
    } else {
        DEFAULT_TIME_LIMIT_SECS * 1000
    }
}

impl GameSession {
    pub open spec fn wf(&self) -> bool {
        &&& self.current_question >= -1
        &&& forall|a: int, b: int|
            0 <= a < b < self.players@.len() ==> #[trigger] self.players@[a].session_id@
                != #[trigger] self.players@[b].session_id@
        &&& forall|i: int| 0 <= i < self.players@.len() ==> (#[trigger] self.players@[i]).wf()
    }

    pub open spec fn has_player(&self, session_id: Seq<char>) -> bool {
        exists|i: int|
            0 <= i < self.players@.len() && #[trigger] self.players@[i].session_id@ == session_id
    }

    /// Two players with the same session id are one player.
    pub proof fn lemma_player_unique(&self, i: int, j: int)
        requires
            self.wf(),
            0 <= i < self.players@.len(),
            0 <= j < self.players@.len(),
            self.players@[i].session_id@ == self.players@[j].session_id@,
        ensures
            i == j,
    {
        if i < j {
            assert(self.players@[i].session_id@ != self.players@[j].session_id@);
        } else if j < i {
            assert(self.players@[j].session_id@ != self.players@[i].session_id@);
        }
    }

    /// A session in its lobby, before any question.
    pub fn new(
        id: i32,
        code: String,
        host_session_id: String,
        host_id: i32,
        question_set_id: i32,
        total_questions: i32,
    ) -> (r: GameSession)
        ensures
            r.wf(),
            r.id == id,
            r.code@ == code@,
            r.host_session_id@ == host_session_id@,
            r.host_id == host_id,
            r.question_set_id == question_set_id,
            r.total_questions == total_questions,
            r.players@.len() == 0,
            r.current_question == -1,
            r.phase == Phase::Lobby,
            r.started_at_ms is None,
            r.ended_at_ms is None,
            r.question_started_at_ms is None,
            r.question_duration_ms is None,
    {
        GameSession {
            id,
            code,
            host_session_id,
            host_id,
            question_set_id,
            total_questions,
            players: Vec::new(),
            current_question: -1,
            phase: Phase::Lobby,
            started_at_ms: None,
            ended_at_ms: None,
            question_started_at_ms: None,
            question_duration_ms: None,
        }
    }

    /// The index of the player connected as `session_id`.
    pub fn find_player(&self, session_id: &String) -> (r: Option<usize>)
        ensures
            r matches Some(i) ==> i < self.players@.len() && self.players@[i as int].session_id@
                == session_id@,
            r is None <==> !self.has_player(session_id@),
    {
        let mut i: usize = 0;
        while i < self.players.len()
            invariant
                i <= self.players@.len(),
                forall|j: int|
                    0 <= j < i ==> #[trigger] self.players@[j].session_id@ != session_id@,
            decreases self.players@.len() - i,
        {
            if self.players[i].session_id == *session_id {
                return Some(i);
            }
            i = i + 1;
        }
        None
    }

    /// Whether some player of the session, active or not, goes by `nickname`.
    pub fn nickname_taken(&self, nickname: &String) -> (r: bool)
        ensures
            r == exists|i: int|
                0 <= i < self.players@.len() && #[trigger] self.players@[i].nickname@
                    == nickname@,
    {
        let mut i: usize = 0;
        while i < self.players.len()
            invariant
                i <= self.players@.len(),
                forall|j: int| 0 <= j < i ==> #[trigger] self.players@[j].nickname@ != nickname@,
            decreases self.players@.len() - i,
        {
            if self.players[i].nickname == *nickname {
                return true;
            }
            i = i + 1;
        }
        false
    }

    /// Seats a player under `session_id`, replacing any entry that connection
    /// had; returns where the player now stands.
    pub fn add_player(
        &mut self,
        player_id: i32,
        user_id: Option<i32>,
        session_id: String,
        nickname: String,
        now_ms: u64,
    ) -> (r: usize)
        requires
            old(self).wf(),
        ensures
            final(self).wf(),
            only_players_changed(*old(self), *final(self)),
            r < final(self).players@.len(),
            final(self).players@[r as int].player_id == player_id,
            final(self).players@[r as int].user_id == user_id,
            final(self).players@[r as int].session_id@ == session_id@,
            final(self).players@[r as int].nickname@ == nickname@,
            final(self).players@[r as int].score == 0,
            final(self).players@[r as int].answers@.len() == 0,
            final(self).players@[r as int].is_active,
            final(self).players@[r as int].joined_at_ms == now_ms,
            final(self).players@[r as int].last_seen_ms == now_ms,
            final(self).players@[r as int].last_answer_ms is None,
            old(self).has_player(session_id@) ==> final(self).players@.len()
                == old(self).players@.len(),
            !old(self).has_player(session_id@) ==> final(self).players@.len()
                == old(self).players@.len() + 1 && r == old(self).players@.len(),
            forall|j: int|
                0 <= j < old(self).players@.len() && j != r ==> final(self).players@[j]
                    == old(self).players@[j],
    {
        let found = self.find_player(&session_id);
        let fresh = PlayerState {
            player_id,
            user_id,
            session_id,
            nickname,
            score: 0,
            answers: Vec::new(),
            is_active: true,
            joined_at_ms: now_ms,
            last_seen_ms: now_ms,
            last_answer_ms: None,
        };
        match found {
            Some(i) => {
                self.players.set(i, fresh);
                i
            },
            None => {
                self.players.push(fresh);
                self.players.len() - 1
            },
        }
    }

    /// The active players, as a lobby lists them.
    pub fn lobby_players(&self) -> (r: Vec<PlayerInfo>)
        ensures
            r@.len() == active_entries(self.players@).len(),
            forall|k: int|
                0 <= k < r@.len() ==> {
                    let e = #[trigger] active_entries(self.players@)[k];
                    &&& r@[k].player_id == e.player_id
                    &&& r@[k].nickname@ == e.nickname@
                    &&& r@[k].is_guest == e.is_guest
                },
    {
        let mut out: Vec<PlayerInfo> = Vec::new();
        let mut i: usize = 0;
        while i < self.players.len()
            invariant
                i <= self.players@.len(),
                out@.len() == active_entries(self.players@.subrange(0, i as int)).len(),
                forall|k: int|
                    0 <= k < out@.len() ==> {
                        let e = #[trigger] active_entries(self.players@.subrange(0, i as int))[k];
                        &&& out@[k].player_id == e.player_id
                        &&& out@[k].nickname@ == e.nickname@
                        &&& out@[k].is_guest == e.is_guest
                    },
            decreases self.players@.len() - i,
        {
            assert(self.players@.subrange(0, i + 1).drop_last() =~= self.players@.subrange(
                0,
                i as int,
            ));
            let p = &self.players[i];
            if p.is_active {
                out.push(
                    PlayerInfo {
                        player_id: p.player_id,
                        nickname: p.nickname.clone(),
                        is_guest: p.user_id.is_none(),
                    },
                );
            }
            i = i + 1;
        }
        assert(self.players@.subrange(0, self.players@.len() as int) =~= self.players@);
        out
    }

    /// The board of the active players, highest score first.
    pub fn leaderboard(&self) -> (r: Vec<LeaderboardEntry>)
        ensures
            sorted_by_score(r@),
            r@.to_multiset() == active_entries(self.players@).to_multiset(),
    {
        let mut out: Vec<LeaderboardEntry> = Vec::new();
        let mut i: usize = 0;
        while i < self.players.len()
            invariant
                i <= self.players@.len(),
                sorted_by_score(out@),
                out@.to_multiset() == active_entries(self.players@.subrange(0, i as int)).to_multiset(),
            decreases self.players@.len() - i,
        {
            assert(self.players@.subrange(0, i + 1).drop_last() =~= self.players@.subrange(
                0,
                i as int,
            ));
            let p = &self.players[i];
            if p.is_active {
                let e = LeaderboardEntry {
                    player_id: p.player_id,
                    nickname: p.nickname.clone(),
                    score: p.score,
                    is_guest: p.user_id.is_none(),
                };
                assert(e == entry_for(self.players@[i as int]));
                let mut pos: usize = 0;
                while pos < out.len() && out[pos].score >= e.score
                    invariant
                        pos <= out@.len(),
                        forall|k: int| 0 <= k < pos ==> #[trigger] out@[k].score >= e.score,
                    decreases out@.len() - pos,
                {
                    pos = pos + 1;
                }
                let ghost before = out@;
                out.insert(pos, e);
                assert(out@ == before.insert(pos as int, e));
                assert(sorted_by_score(out@)) by {
                    assert forall|a: int, b: int| 0 <= a < b < out@.len() implies #[trigger] out@[a].score
                        >= #[trigger] out@[b].score by {
                        if pos < before.len() {
                            assert(before[pos as int].score < e.score);
                        }
                        if b > pos as int && a < pos as int {
                            assert(out@[b] == before[b - 1]);
                            assert(out@[a] == before[a]);
                        } else if b > pos as int && a > pos as int {
                            assert(out@[b] == before[b - 1]);
                            assert(out@[a] == before[a - 1]);
                        } else if b > pos as int && a == pos as int {
                            assert(out@[b] == before[b - 1]);
                            assert(before[pos as int].score >= before[b - 1].score);
                        }
                    }
                }
            }
            i = i + 1;
        }
        assert(self.players@.subrange(0, self.players@.len() as int) =~= self.players@);
        out
    }

    /// The reply to the player at `k` after a reconnection.
    pub fn reconnect_reply(&self, k: usize) -> (r: ReconnectReply)
        requires
            k < self.players@.len(),
        ensures
            r.player_id == self.players@[k as int].player_id,
            r.nickname@ == self.players@[k as int].nickname@,
            r.score == self.players@[k as int].score,
            r.phase == self.phase,
            r.current_question == self.current_question,
            r.resend_question == ((self.phase == Phase::Question || self.phase == Phase::Review)
                && self.current_question >= 0),
            sorted_by_score(r.leaderboard@),
            r.leaderboard@.to_multiset() == active_entries(self.players@).to_multiset(),
    {
        let p = &self.players[k];
        ReconnectReply {
            player_id: p.player_id,
            nickname: p.nickname.clone(),
            score: p.score,
            phase: self.phase,
            current_question: self.current_question,
            resend_question: (self.phase == Phase::Question || self.phase == Phase::Review)
                && self.current_question >= 0,
            leaderboard: self.leaderboard(),
        }
    }

    /// A copy of the answer the player at `k` gave to `question_id`, if any:
    /// after a reconnection it is sent again with the running question.
    pub fn own_answer(&self, k: usize, question_id: i32) -> (r: Option<AnswerRecord>)
        requires
            k < self.players@.len(),
        ensures
            r is None <==> !self.players@[k as int].answered(question_id),
            r matches Some(a) ==> a.question_id == question_id && self.players@[k as int].answers@.contains(a),
    {
        match self.players[k].answer_for(question_id) {
            Some(a) => Some(
                AnswerRecord {
                    question_id: a.question_id,
                    answer: a.answer.clone(),
                    is_correct: a.is_correct,
                    response_time_ms: a.response_time_ms,
                    points_earned: a.points_earned,
                },
            ),
            None => None,
        }
    }

    /// Takes the host capability for `session_id` when the connection's
    /// user is the session's host; the host's connection is then that one.
    pub fn authorize_host(&mut self, session_id: &String, user_id: Option<i32>) -> (r: Result<
        (),
        AppError,
    >)
        requires
            old(self).wf(),
        ensures
            final(self).wf(),
            same_identity(*old(self), *final(self)),
            final(self).players == old(self).players,
            final(self).current_question == old(self).current_question,
            final(self).phase == old(self).phase,
            r is Ok <==> user_id == Some(old(self).host_id),
            r is Ok ==> final(self).host_session_id@ == session_id@,
            r is Err ==> *final(self) == *old(self),
            r is Err ==> (r matches Err(AppError::ForbiddenError(_))),
            r is Err ==> final(self).host_session_id == old(self).host_session_id,
    {
        if user_id == Some(self.host_id) {
            self.host_session_id = session_id.clone();
            Ok(())
        } else {
            Err(AppError::ForbiddenError(String::from_str("only the host may do this")))
        }
    }

    /// Marks the game as started. Only a session still in its lobby starts.
    pub fn start(&mut self, now_ms: u64) -> (r: Result<(), AppError>)
        requires
            old(self).wf(),
        ensures
            final(self).wf(),
            progressed(*old(self), *final(self)),
            same_identity(*old(self), *final(self)),
            final(self).host_session_id == old(self).host_session_id,
            r is Ok <==> old(self).phase == Phase::Lobby,
            r is Ok ==> final(self).started_at_ms == Some(now_ms),
            r is Err ==> r matches Err(AppError::BadRequestError(_)),
            final(self).players == old(self).players,
            final(self).phase == old(self).phase,
            final(self).current_question == old(self).current_question,
            r is Err ==> *final(self) == *old(self),
    {
        if self.phase != Phase::Lobby {
            return Err(AppError::BadRequestError(String::from_str("the game has already started or ended")));
        }
        self.started_at_ms = Some(now_ms);
        Ok(())
    }

    /// The position of the question the advance command asks for, if any.
    pub fn next_position(&self) -> (r: Option<i32>)
        ensures
            r matches Some(n) ==> n == self.current_question + 1,
            r is None <==> (self.phase == Phase::Ended || self.current_question == i32::MAX),
    {
        if self.phase == Phase::Ended || self.current_question == i32::MAX {
            None
        } else {
            Some(self.current_question + 1)
        }
    }

    /// The advance command. `question` is the question found at
    /// `next_position()`, if any; `total_questions` is the size of the set.
    /// With a question the session enters the `Question` phase on it;
    /// without one it ends with the final board.
    pub fn advance(&mut self, question: Option<&Question>, total_questions: i64, now_ms: u64) -> (r:
        Result<Advance, AppError>)
        requires
            old(self).wf(),
        ensures
            final(self).wf(),
            progressed(*old(self), *final(self)),
            same_identity(*old(self), *final(self)),
            final(self).players == old(self).players,
            final(self).host_session_id == old(self).host_session_id,
            r is Err <==> old(self).phase == Phase::Ended,
            r is Err ==> (r matches Err(AppError::BadRequestError(_))),
            r is Err ==> *final(self) == *old(self),
            r is Ok ==> final(self).current_question > old(self).current_question || final(self).phase == Phase::Ended,
            r matches Ok(Advance::Started { public, host }) ==> {
                &&& question matches Some(q)
                &&& old(self).current_question < i32::MAX
                &&& final(self).current_question == old(self).current_question + 1
                &&& final(self).phase == Phase::Question
                &&& final(self).question_started_at_ms == Some(now_ms)
                &&& final(self).question_duration_ms == Some(
                    duration_for(q.time_limit as int) as u64,
                )
                &&& announces(public, *q, final(self).current_question + 1, total_questions as int)
                &&& announces(host, *q, final(self).current_question + 1, total_questions as int)
                &&& public.correct_option is None
                &&& host.correct_option matches Some(c) && c@ == q.correct_option@
            },
            r matches Ok(Advance::Finished { leaderboard, player_stats }) ==> {
                &&& (question is None || old(self).current_question == i32::MAX)
                &&& final(self).phase == Phase::Ended
                &&& final(self).current_question == old(self).current_question
                &&& final(self).ended_at_ms == Some(now_ms)
                &&& sorted_by_score(leaderboard@)
                &&& leaderboard@.to_multiset() == active_entries(old(self).players@).to_multiset()
                &&& stats_by_score(player_stats@)
                &&& player_stats@.to_multiset() == active_stats(old(self).players@).to_multiset()
            },
            old(self).phase != Phase::Ended ==> (r matches Ok(Advance::Started { .. }) <==> (
            question is Some && old(self).current_question < i32::MAX)),
    {
        if self.phase == Phase::Ended {
            return Err(AppError::BadRequestError(String::from_str("the game has ended")));
        }
        match question {
            Some(q) if self.current_question < i32::MAX => {
                let next = self.current_question + 1;
                let duration = question_duration_ms(q.time_limit);
                self.current_question = next;
                self.phase = Phase::Question;
                self.question_started_at_ms = Some(now_ms);
                self.question_duration_ms = Some(duration);
                let number = next as i64 + 1;
                let public = QuestionStart {
                    question_id: q.id,
                    question_text: q.question_text.clone(),
                    option_a: q.option_a.clone(),
                    option_b: q.option_b.clone(),
                    option_c: q.option_c.clone(),
                    option_d: q.option_d.clone(),
                    time_limit: q.time_limit,
                    question_number: number,
                    total_questions,
                    correct_option: None,
                };
                let host = QuestionStart {
                    question_id: q.id,
                    question_text: q.question_text.clone(),
                    option_a: q.option_a.clone(),
                    option_b: q.option_b.clone(),
                    option_c: q.option_c.clone(),
                    option_d: q.option_d.clone(),
                    time_limit: q.time_limit,
                    question_number: number,
                    total_questions,
                    correct_option: Some(q.correct_option.clone()),
                };
                Ok(Advance::Started { public, host })
            },
            _ => {
                self.phase = Phase::Ended;
                self.ended_at_ms = Some(now_ms);
                let leaderboard = self.leaderboard();
                let player_stats = player_statistics(&self.players);
                Ok(Advance::Finished { leaderboard, player_stats })
            },
        }
    }

    /// The running question's time is up at `now_ms`.
    pub open spec fn question_expired_at(&self, now_ms: u64) -> bool {
        &&& self.phase == Phase::Question
        &&& self.question_started_at_ms matches Some(start)
        &&& self.question_duration_ms matches Some(d)
        &&& start <= now_ms
        &&& now_ms - start >= d
    }

    /// Whether the running question's time is up at `now_ms`.
    pub fn question_expired(&self, now_ms: u64) -> (r: bool)
        ensures
            r == self.question_expired_at(now_ms),
    {
        if self.phase != Phase::Question {
            return false;
        }
        match (self.question_started_at_ms, self.question_duration_ms) {
            (Some(start), Some(d)) => start <= now_ms && now_ms - start >= d,
            _ => false,
        }
    }

    /// Closes the running question for review. Outside the `Question`
    /// phase nothing happens.
    pub fn end_question(&mut self) -> (r: bool)
        requires
            old(self).wf(),
        ensures
            final(self).wf(),
            progressed(*old(self), *final(self)),
            same_identity(*old(self), *final(self)),
            final(self).host_session_id == old(self).host_session_id,
            r == (old(self).phase == Phase::Question),
            r ==> final(self).phase == Phase::Review && final(self).current_question == old(self).current_question && final(self).players == old(self).players,
            !r ==> *final(self) == *old(self),
    {
        if self.phase == Phase::Question {
            self.phase = Phase::Review;
            true
        } else {
            false
        }
    }

    /// Ends the session whatever its phase (the host is gone).
    pub fn force_end(&mut self, now_ms: u64)
        requires
            old(self).wf(),
        ensures
            final(self).wf(),
            progressed(*old(self), *final(self)),
            same_identity(*old(self), *final(self)),
            final(self).host_session_id == old(self).host_session_id,
            final(self).phase == Phase::Ended,
            final(self).ended_at_ms == Some(now_ms),
            final(self).current_question == old(self).current_question,
            final(self).players == old(self).players,
    {
        self.phase = Phase::Ended;
        self.ended_at_ms = Some(now_ms);
    }

    /// Grades a submission of the player on `session_id` for `question_id`,
    /// without recording it. Fails when the player is unknown or has
    /// already answered that question.
    pub fn evaluate_answer(
        &self,
        session_id: &String,
        question_id: i32,
        answer: &str,
        correct_option: &String,
        response_time_ms: i32,
        rules: &ScoringRules,
    ) -> (r: Result<AnswerRecord, AppError>)
        requires
            self.wf(),
            rules.wf(),
        ensures
            !self.has_player(session_id@) <==> r matches Err(AppError::NotFoundError(_)),
            r matches Err(AppError::BadRequestError(_)) <==> (self.has_player(session_id@)
                && exists|i: int|
                0 <= i < self.players@.len() && #[trigger] self.players@[i].session_id@
                    == session_id@ && self.players@[i].answered(question_id)),
            r is Err ==> r matches Err(AppError::NotFoundError(_)) || r matches Err(
                AppError::BadRequestError(_),
            ),
            r matches Ok(a) ==> {
                &&& a.question_id == question_id
                &&& a.answer@ == upper_of(answer@)
                &&& a.is_correct == (upper_of(answer@) == correct_option@)
                &&& a.response_time_ms == response_time_ms
                &&& a.points_earned == rules_points(a.is_correct, response_time_ms as int, *rules)
            },
    {
        let i = match self.find_player(session_id) {
            Some(i) => i,
            None => {
                return Err(AppError::NotFoundError(String::from_str("no active player on this connection")));
            },
        };
        if self.players[i].answer_for(question_id).is_some() {
            return Err(AppError::BadRequestError(String::from_str("this question has already been answered")));
        }
        proof {
            assert forall|j: int|
                0 <= j < self.players@.len() && #[trigger] self.players@[j].session_id@
                    == session_id@ implies !self.players@[j].answered(question_id) by {
                self.lemma_player_unique(j, i as int);
            }
        }
        let upper = to_upper(answer);
        Ok(grade_answer(question_id, upper, correct_option, response_time_ms, rules))
    }

    /// Records a graded answer for the player on `session_id` and adds its
    /// points to the score. A second record for the same question is
    /// refused and changes nothing.
    pub fn record_answer(&mut self, session_id: &String, record: AnswerRecord, now_ms: u64) -> (r:
        Result<usize, AppError>)
        requires
            old(self).wf(),
        ensures
            final(self).wf(),
            only_players_changed(*old(self), *final(self)),
            !old(self).has_player(session_id@) ==> r matches Err(AppError::NotFoundError(_)),
            r is Err ==> *final(self) == *old(self),
            r matches Ok(i) ==> {
                &&& i < old(self).players@.len()
                &&& old(self).players@[i as int].session_id@ == session_id@
                &&& !old(self).players@[i as int].answered(record.question_id)
                &&& final(self).players@.len() == old(self).players@.len()
                &&& final(self).players@[i as int].answers@ == old(self).players@[i as int].answers@.push(record)
                &&& final(self).players@[i as int].score == old(self).players@[i as int].score
                    + record.points_earned
                &&& final(self).players@[i as int].last_answer_ms == Some(now_ms)
                &&& final(self).players@[i as int].player_id == old(self).players@[i as int].player_id
                &&& final(self).players@[i as int].session_id == old(self).players@[i as int].session_id
                &&& final(self).players@[i as int].is_active == old(self).players@[i as int].is_active
                &&& forall|j: int|
                    0 <= j < old(self).players@.len() && j != i ==> final(self).players@[j]
                        == old(self).players@[j]
            },
            forall|i: int|
                0 <= i < old(self).players@.len() && #[trigger] old(self).players@[i].session_id@
                    == session_id@ ==> {
                    let p = old(self).players@[i];
                    &&& p.answered(record.question_id) ==> (r matches Err(AppError::BadRequestError(_)))
                    &&& (!p.answered(record.question_id) && i64::MIN <= p.score + record.points_earned
                        <= i64::MAX) ==> r == Ok::<usize, AppError>(i as usize)
                    &&& (!p.answered(record.question_id) && !(i64::MIN <= p.score
                        + record.points_earned <= i64::MAX)) ==> (r matches Err(
                        AppError::InternalError(_),
                    ))
                },
    {
        let i = match self.find_player(session_id) {
            Some(i) => i,
            None => {
                return Err(AppError::NotFoundError(String::from_str("no active player on this connection")));
            },
        };
        proof {
            assert forall|j: int|
                0 <= j < self.players@.len() && self.players@[j].session_id@ == session_id@ implies j
                == i by {
                self.lemma_player_unique(j, i as int);
            }
        }
        if self.players[i].answer_for(record.question_id).is_some() {
            return Err(AppError::BadRequestError(String::from_str("this question has already been answered")));
        }
        let old_score = self.players[i].score;
        let sum = old_score as i128 + record.points_earned as i128;
        if sum > i64::MAX as i128 || sum < i64::MIN as i128 {
            return Err(AppError::InternalError(String::from_str("score out of range")));
        }
        let ghost before = self.players@[i as int];
        let p = &mut self.players[i];
        p.score = sum as i64;
        p.last_answer_ms = Some(now_ms);
        p.answers.push(record);
        proof {
            let after = self.players@[i as int];
            assert forall|a: int, b: int|
                0 <= a < b < after.answers@.len() implies #[trigger] after.answers@[a].question_id
                != #[trigger] after.answers@[b].question_id by {
                if b == after.answers@.len() - 1 {
                    assert(after.answers@[a] == before.answers@[a]);
                    assert(!before.answered(after.answers@[b].question_id));
                } else {
                    assert(after.answers@[a] == before.answers@[a]);
                    assert(after.answers@[b] == before.answers@[b]);
                }
            }
        }
        Ok(i)
    }

    /// Marks the player on `session_id` as gone; returns whether there was one.
    pub fn deactivate_player(&mut self, session_id: &String) -> (r: bool)
        requires
            old(self).wf(),
        ensures
            final(self).wf(),
            only_players_changed(*old(self), *final(self)),
            r == old(self).has_player(session_id@),
            final(self).players@.len() == old(self).players@.len(),
            forall|j: int|
                0 <= j < old(self).players@.len() ==> {
                    let o = #[trigger] old(self).players@[j];
                    let n = final(self).players@[j];
                    if o.session_id@ == session_id@ {
                        &&& !n.is_active
                        &&& n.player_id == o.player_id
                        &&& n.session_id == o.session_id
                        &&& n.score == o.score
                        &&& n.answers == o.answers
                    } else {
                        n == o
                    }
                },
    {
        match self.find_player(session_id) {
            Some(i) => {
                proof {
                    assert forall|j: int|
                        0 <= j < self.players@.len() && self.players@[j].session_id@ == session_id@ implies j
                        == i by {
                        self.lemma_player_unique(j, i as int);
                    }
                }
                self.players[i].is_active = false;
                true
            },
            None => false,
        }
    }

    /// Moves the player on `old_session_id` to `new_session_id` and marks it
    /// active; its score and answers stay as they were. Refused (nothing
    /// changes) when there is no such player, or when another player is
    /// already seated on the new connection.
    pub fn migrate_player(&mut self, old_session_id: &String, new_session_id: &String, now_ms: u64) -> (r:
        Option<usize>)
        requires
            old(self).wf(),
        ensures
            final(self).wf(),
            only_players_changed(*old(self), *final(self)),
            r is None ==> *final(self) == *old(self),
            r is None <==> (!old(self).has_player(old_session_id@) || (old_session_id@
                != new_session_id@ && old(self).has_player(new_session_id@))),
            r matches Some(i) ==> {
                let o = old(self).players@[i as int];
                let n = final(self).players@[i as int];
                &&& i < old(self).players@.len()
                &&& o.session_id@ == old_session_id@
                &&& final(self).players@.len() == old(self).players@.len()
                &&& n.session_id@ == new_session_id@
                &&& n.is_active
                &&& n.last_seen_ms == now_ms
                &&& n.player_id == o.player_id
                &&& n.user_id == o.user_id
                &&& n.nickname == o.nickname
                &&& n.score == o.score
                &&& n.answers == o.answers
                &&& n.joined_at_ms == o.joined_at_ms
                &&& n.last_answer_ms == o.last_answer_ms
                &&& forall|j: int|
                    0 <= j < old(self).players@.len() && j != i ==> final(self).players@[j]
                        == old(self).players@[j]
            },
    {
        let i = match self.find_player(old_session_id) {
            Some(i) => i,
            None => {
                return None;
            },
        };
        if *old_session_id != *new_session_id {
            if self.find_player(new_session_id).is_some() {
                return None;
            }
        }
        let ghost before = self.players@;
        let p = &mut self.players[i];
        p.session_id = new_session_id.clone();
        p.is_active = true;
        p.last_seen_ms = now_ms;
        proof {
            assert forall|a: int, b: int|
                0 <= a < b < self.players@.len() implies #[trigger] self.players@[a].session_id@
                != #[trigger] self.players@[b].session_id@ by {
                if a != i && b != i {
                    assert(self.players@[a] == before[a]);
                    assert(self.players@[b] == before[b]);
                } else if a == i {
                    assert(self.players@[b] == before[b]);
                    if old_session_id@ == new_session_id@ {
                        assert(before[i as int].session_id@ != before[b].session_id@);
                    }
                } else {
                    assert(self.players@[a] == before[a]);
                    if old_session_id@ == new_session_id@ {
                        assert(before[a].session_id@ != before[i as int].session_id@);
                    }
                }
            }
            assert forall|j: int| 0 <= j < self.players@.len() implies (#[trigger] self.players@[j]).wf() by {
                if j != i {
                    assert(self.players@[j] == before[j]);
                } else {
                    assert(before[j].wf());
                }
            }
        }
        Some(i)
    }
}

/// Along any run of the state machine the question index never goes back,
/// and a session that has ended stays ended: the step relation that every
/// mutating method guarantees composes.
pub proof fn lemma_progress_composes(a: GameSession, b: GameSession, c: GameSession)
    requires
        progressed(a, b),
        progressed(b, c),
    ensures
        progressed(a, c),
        a.current_question <= c.current_question,
{
}

/// At most one answer record is ever kept per player and question.
pub proof fn lemma_one_record_per_question(s: GameSession, i: int, a: int, b: int)
    requires
        s.wf(),
        0 <= i < s.players@.len(),
        0 <= a < s.players@[i].answers@.len(),
        0 <= b < s.players@[i].answers@.len(),
        s.players@[i].answers@[a].question_id == s.players@[i].answers@[b].question_id,
    ensures
        a == b,
{
    let p = s.players@[i];
    assert(p.wf());
    if a < b {
        assert(p.answers@[a].question_id != p.answers@[b].question_id);
    } else if b < a {
        assert(p.answers@[b].question_id != p.answers@[a].question_id);
    }
}

} // verus!
