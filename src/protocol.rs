use crate::model::SubmitAnswerDto;
use crate::text::{has_prefix, starts_with};
use vstd::prelude::*;

verus! {

/// A connection that has been silent this long (ms) is closed.
pub const CLIENT_TIMEOUT_MS: u64 = 30000;

/// A connection that has been silent this long (ms) is pinged.
pub const HEARTBEAT_INTERVAL_MS: u64 = 10000;

/// Whether `a` and `b` hold the same characters.
pub fn text_eq(a: &str, b: &str) -> (r: bool)
    ensures
        r == (a@ == b@),
{
    if a.unicode_len() != b.unicode_len() {
        return false;
    }
    let r = has_prefix(a, b);
    proof {
        if r {
            assert(a@ =~= a@.subrange(0, b@.len() as int));
        }
        if a@ == b@ {
            assert(a@.subrange(0, b@.len() as int) =~= b@);
        }
    }
    r
}

/// The display name of a player: guests carry the prefix `**`, which is
/// added unless the nickname has it already; members keep their nickname.
pub open spec fn display_name(nickname: Seq<char>, is_guest: bool) -> Seq<char> {
    if is_guest && !starts_with(nickname, seq!['*', '*']) {
        seq!['*', '*'] + nickname
    } else {
        nickname
    }
}

/// The name under which a player appears in a game.
pub fn guest_display_name(nickname: &str, is_guest: bool) -> (r: String)
    ensures
        r@ == display_name(nickname@, is_guest),
{
    proof {
        reveal_strlit("**");
    }
    if is_guest && !has_prefix(nickname, "**") {
        let mut name = String::from_str("**");
        name.append(nickname);
        proof {
            assert("**"@ =~= seq!['*', '*']);
        }
        name
    } else {
        proof {
            assert("**"@ =~= seq!['*', '*']);
        }
        String::from_str(nickname)
    }
}

/// The fields an inbound message may carry, as the transport decoded them;
/// a field that was absent or of the wrong type is `None`.
pub struct InboundFields {
    pub game_code: Option<String>,
    pub nickname: Option<String>,
    pub question_id: Option<i64>,
    pub answer: Option<String>,
    pub response_time_ms: Option<i64>,
    pub old_session_id: Option<String>,
}

/// A request of a client, by its `type` tag.
pub enum InboundMessage {
    Ping,
    JoinLobby { game_code: String, nickname: String },
    StartGame { game_code: String },
    SubmitAnswer(SubmitAnswerDto),
    NextQuestion { game_code: String },
    Reconnect { old_session_id: String },
}

pub open spec fn fits_i32(x: i64) -> bool {
    i32::MIN <= x <= i32::MAX
}

/// Reads a request from its tag and fields. An unknown tag, or a missing
/// field the tag needs, gives `None`: such a message is ignored.
pub fn decode_inbound(tag: &str, fields: InboundFields) -> (r: Option<InboundMessage>)
    ensures
        tag@ == "ping"@ ==> (r matches Some(InboundMessage::Ping)),
        tag@ == "join_lobby"@ ==> (r is Some <==> (fields.game_code is Some
            && fields.nickname is Some)),
        tag@ == "join_lobby"@ ==> (r matches Some(InboundMessage::JoinLobby { game_code, nickname }) ==> (
        fields.game_code == Some(game_code) && fields.nickname == Some(nickname))),
        tag@ == "start_game"@ ==> (r is Some <==> fields.game_code is Some),
        tag@ == "start_game"@ ==> (r matches Some(InboundMessage::StartGame { game_code }) ==> fields.game_code
            == Some(game_code)),
        tag@ == "next_question"@ ==> (r is Some <==> fields.game_code is Some),
        tag@ == "next_question"@ ==> (r matches Some(InboundMessage::NextQuestion { game_code }) ==> fields.game_code
            == Some(game_code)),
        tag@ == "reconnect"@ ==> (r is Some <==> fields.old_session_id is Some),
        tag@ == "reconnect"@ ==> (r matches Some(InboundMessage::Reconnect { old_session_id }) ==> fields.old_session_id
            == Some(old_session_id)),
        tag@ == "submit_answer"@ ==> (r is Some <==> (fields.question_id matches Some(q) && fits_i32(q)
            && fields.answer is Some && (fields.response_time_ms matches Some(t) && fits_i32(t)))),
        tag@ == "submit_answer"@ ==> (r matches Some(InboundMessage::SubmitAnswer(d)) ==> (
        fields.question_id == Some(d.question_id as i64) && fields.answer == Some(d.answer)
            && fields.response_time_ms == Some(d.response_time_ms as i64))),
        r matches Some(InboundMessage::Ping) ==> tag@ == "ping"@,
        r matches Some(InboundMessage::JoinLobby { .. }) ==> tag@ == "join_lobby"@,
        r matches Some(InboundMessage::StartGame { .. }) ==> tag@ == "start_game"@,
        r matches Some(InboundMessage::NextQuestion { .. }) ==> tag@ == "next_question"@,
        r matches Some(InboundMessage::Reconnect { .. }) ==> tag@ == "reconnect"@,
        r matches Some(InboundMessage::SubmitAnswer(_)) ==> tag@ == "submit_answer"@,
{
    proof {
        reveal_strlit("ping");
        reveal_strlit("join_lobby");
        reveal_strlit("start_game");
        reveal_strlit("next_question");
        reveal_strlit("reconnect");
        reveal_strlit("submit_answer");
        assert("ping"@.len() == 4);
        assert("reconnect"@.len() == 9);
        assert("join_lobby"@.len() == 10 && "join_lobby"@[0] == 'j');
        assert("start_game"@.len() == 10 && "start_game"@[0] == 's');
        assert("next_question"@.len() == 13 && "next_question"@[0] == 'n');
        assert("submit_answer"@.len() == 13 && "submit_answer"@[0] == 's');
    }
    if text_eq(tag, "ping") {
        return Some(InboundMessage::Ping);
    }
    if text_eq(tag, "join_lobby") {
        return match (fields.game_code, fields.nickname) {
            (Some(game_code), Some(nickname)) => Some(InboundMessage::JoinLobby { game_code, nickname }),
            _ => None,
        };
    }
    if text_eq(tag, "start_game") {
        return match fields.game_code {
            Some(game_code) => Some(InboundMessage::StartGame { game_code }),
            None => None,
        };
    }
    if text_eq(tag, "next_question") {
        return match fields.game_code {
            Some(game_code) => Some(InboundMessage::NextQuestion { game_code }),
            None => None,
        };
    }
    if text_eq(tag, "reconnect") {
        return match fields.old_session_id {
            Some(old_session_id) => Some(InboundMessage::Reconnect { old_session_id }),
            None => None,
        };
    }
    if text_eq(tag, "submit_answer") {
        return match (fields.question_id, fields.answer, fields.response_time_ms) {
            (Some(q), Some(answer), Some(t)) => {
                if i32::MIN as i64 <= q && q <= i32::MAX as i64 && i32::MIN as i64 <= t && t
                    <= i32::MAX as i64 {
                    Some(
                        InboundMessage::SubmitAnswer(
                            SubmitAnswerDto {
                                question_id: q as i32,
                                answer,
                                response_time_ms: t as i32,
                            },
                        ),
                    )
                } else {
                    None
                }
            },
            _ => None,
        };
    }
    None
}

/// What the heartbeat of a connection does on a tick.
#[derive(Clone, Copy, Debug, PartialEq, Eq, Structural)]
pub enum HeartbeatAction {
    /// The client timed out: close the connection.
    Close,
    /// The client has been quiet: ping it, and go on.
    Ping,
    /// Nothing to do but the routine work of a tick.
    Idle,
}

/// The heartbeat's decision at `now_ms` for a client last heard from at
/// `last_heard_ms`.
pub fn heartbeat_action(last_heard_ms: u64, now_ms: u64) -> (r: HeartbeatAction)
    ensures
        now_ms <= last_heard_ms ==> r == HeartbeatAction::Idle,
        last_heard_ms < now_ms ==> (r == HeartbeatAction::Close <==> now_ms - last_heard_ms
            > CLIENT_TIMEOUT_MS),
        last_heard_ms < now_ms ==> (r == HeartbeatAction::Ping <==> HEARTBEAT_INTERVAL_MS < now_ms
            - last_heard_ms <= CLIENT_TIMEOUT_MS),
        last_heard_ms < now_ms ==> (r == HeartbeatAction::Idle <==> now_ms - last_heard_ms
            <= HEARTBEAT_INTERVAL_MS),
{
    if now_ms <= last_heard_ms {
        return HeartbeatAction::Idle;
    }
    let quiet = now_ms - last_heard_ms;
    if quiet > CLIENT_TIMEOUT_MS {
        HeartbeatAction::Close
    } else if quiet > HEARTBEAT_INTERVAL_MS {
        HeartbeatAction::Ping
    } else {
        HeartbeatAction::Idle
    }
}

} // verus!
