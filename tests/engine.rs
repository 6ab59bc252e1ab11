use quiz_engine::engine::{DurablePlayer, Engine};
use quiz_engine::model::{AppError, ConnectionType, GameStatus, Phase, Question, UserRole};
use quiz_engine::protocol::{
    decode_inbound, guest_display_name, heartbeat_action, text_eq, HeartbeatAction, InboundFields,
    InboundMessage,
};
use quiz_engine::scoring::{calculate_points, ScoringRules};
use quiz_engine::session::{question_duration_ms, Advance, GameSession};
use quiz_engine::stats::player_statistics;

const HOST_USER: i32 = 77;

fn s(x: &str) -> String {
    x.to_string()
}

fn question(id: i32, position: i32, correct: &str) -> Question {
    Question {
        id,
        question_set_id: 1,
        question_text: format!("question {}", position),
        option_a: s("a"),
        option_b: s("b"),
        option_c: s("c"),
        option_d: s("d"),
        correct_option: s(correct),
        points: 100,
        time_limit: 20,
        position,
    }
}

/// An engine with one session `ABC123` hosted on `host`, and the given
/// players connected and seated.
fn engine_with(players: &[(&str, &str, i32)]) -> Engine {
    let mut e = Engine::new();
    e.connect(s("host"), 0);
    e.open_session(GameSession::new(1, s("ABC123"), s("host"), HOST_USER, 1, 3));
    for (sid, nick, pid) in players {
        e.connect(s(sid), 0);
        e.admit_player(&s(sid), &s("ABC123"), 1, *pid, None, s(nick), 0).unwrap();
    }
    e
}

fn session(e: &Engine) -> &GameSession {
    &e.sessions[e.find_session(&s("ABC123")).unwrap()]
}

#[test]
fn scoring_scenario() {
    let rules = ScoringRules::standard();
    assert_eq!(calculate_points(true, 0, &rules), 1000);
    assert_eq!(calculate_points(true, 10000, &rules), 100);
    assert_eq!(calculate_points(true, 5000, &rules), 550);
    assert_eq!(calculate_points(true, 12000, &rules), 100);
    assert_eq!(calculate_points(true, -50, &rules), 1000);
    assert_eq!(calculate_points(true, 2500, &rules), 775);
    assert_eq!(calculate_points(true, 3333, &rules), 700);
}

#[test]
fn scoring_is_monotone_and_bounded() {
    let rules = ScoringRules { min_points: 10, max_points: 70, time_budget_ms: 7 };
    let mut last = i32::MAX;
    for latency in -3..12 {
        let p = calculate_points(true, latency, &rules);
        assert!(p <= last);
        assert!((10..=70).contains(&p));
        last = p;
    }
}

#[test]
fn wrong_answers_score_zero() {
    let rules = ScoringRules::standard();
    for latency in [-1, 0, 5000, 10000, 99999] {
        assert_eq!(calculate_points(false, latency, &rules), 0);
    }
}

#[test]
fn second_submission_is_rejected() {
    let mut e = engine_with(&[("a", "**A", 11)]);
    let rules = ScoringRules::standard();
    let first = e
        .submit_answer(&s("ABC123"), &s("a"), 7, "B", &s("A"), 1000, &rules, 5)
        .unwrap();
    assert!(!first.is_correct);
    assert_eq!(first.points_earned, 0);
    assert_eq!(first.answer, "B");
    let second = e.submit_answer(&s("ABC123"), &s("a"), 7, "A", &s("A"), 1000, &rules, 6);
    assert!(matches!(second, Err(AppError::BadRequestError(_))));
    let p = &session(&e).players[0];
    assert_eq!(p.score, 0);
    assert_eq!(p.answers.len(), 1);
    assert_eq!(p.answers[0].answer, "B");
}

#[test]
fn answers_are_folded_to_upper_case() {
    let mut e = engine_with(&[("a", "**A", 11)]);
    let rules = ScoringRules::standard();
    let r = e
        .submit_answer(&s("ABC123"), &s("a"), 1, "c", &s("C"), 0, &rules, 5)
        .unwrap();
    assert!(r.is_correct);
    assert_eq!(r.answer, "C");
    assert_eq!(r.points_earned, 1000);
    assert_eq!(session(&e).players[0].score, 1000);
    assert_eq!(session(&e).players[0].last_answer_ms, Some(5));
}

#[test]
fn unknown_player_or_game_is_not_found() {
    let mut e = engine_with(&[("a", "**A", 11)]);
    let rules = ScoringRules::standard();
    let r = e.submit_answer(&s("ABC123"), &s("nobody"), 1, "A", &s("A"), 0, &rules, 5);
    assert!(matches!(r, Err(AppError::NotFoundError(_))));
    let r = e.submit_answer(&s("ZZZ999"), &s("a"), 1, "A", &s("A"), 0, &rules, 5);
    assert!(matches!(r, Err(AppError::NotFoundError(_))));
}

#[test]
fn session_ends_after_the_last_question() {
    let mut e = engine_with(&[("a", "**A", 11), ("b", "**B", 12), ("c", "**C", 13)]);
    let rules = ScoringRules::standard();
    let idx = e.host_session(&s("ABC123"), &s("host"), Some(HOST_USER)).unwrap();
    e.sessions[idx].start(0).unwrap();
    let qs = [question(100, 0, "A"), question(101, 1, "B"), question(102, 2, "C")];
    let mut last_index = -1;
    for (n, q) in qs.iter().enumerate() {
        let pos = e.sessions[idx].next_position().unwrap();
        assert_eq!(pos, n as i32);
        match e.sessions[idx].advance(Some(q), 3, 1000).unwrap() {
            Advance::Started { public, host } => {
                assert_eq!(public.question_number, n as i64 + 1);
                assert!(public.correct_option.is_none());
                assert_eq!(host.correct_option.as_deref(), Some(q.correct_option.as_str()));
            }
            Advance::Finished { .. } => panic!("the set still has questions"),
        }
        assert!(e.sessions[idx].current_question > last_index);
        last_index = e.sessions[idx].current_question;
        assert_eq!(e.sessions[idx].phase, Phase::Question);
        // b answers right quickly, c right slowly, a wrong
        e.submit_answer(&s("ABC123"), &s("b"), q.id, &q.correct_option, &q.correct_option, 0, &rules, 1)
            .unwrap();
        e.submit_answer(&s("ABC123"), &s("c"), q.id, &q.correct_option, &q.correct_option, 9000, &rules, 1)
            .unwrap();
        e.submit_answer(&s("ABC123"), &s("a"), q.id, "D", &q.correct_option, 0, &rules, 1).unwrap();
        assert!(e.close_question(&s("ABC123")).is_some());
        assert_eq!(e.sessions[idx].phase, Phase::Review);
    }
    // the fourth advance finds no question
    let (board, stats) = match e.sessions[idx].advance(None, 3, 2000).unwrap() {
        Advance::Finished { leaderboard, player_stats } => (leaderboard, player_stats),
        Advance::Started { .. } => panic!("no question was left"),
    };
    assert_eq!(stats.len(), 3);
    let order: Vec<i32> = stats.iter().map(|x| x.player_id).collect();
    assert_eq!(order, vec![12, 13, 11]);
    assert_eq!(stats[2].answers, 3);
    assert_eq!(stats[2].correct, 0);
    assert_eq!(stats[2].accuracy, 0);
    assert_eq!(stats[2].avg_response_time_ms, Some(0));
    assert_eq!(stats[0].correct, 3);
    assert_eq!(stats[0].accuracy, 100);
    assert_eq!(stats[1].avg_response_time_ms, Some(9000));
    assert_eq!(e.sessions[idx].phase, Phase::Ended);
    assert_eq!(e.sessions[idx].current_question, 2);
    assert_eq!(e.sessions[idx].ended_at_ms, Some(2000));
    let ids: Vec<i32> = board.iter().map(|x| x.player_id).collect();
    assert_eq!(ids, vec![12, 13, 11]);
    let scores: Vec<i64> = board.iter().map(|x| x.score).collect();
    assert_eq!(scores, vec![3000, 570, 0]);
    assert!(e.sessions[idx].next_position().is_none());
    assert!(matches!(
        e.sessions[idx].advance(Some(&qs[0]), 3, 3000),
        Err(AppError::BadRequestError(_))
    ));
    assert_eq!(e.sessions[idx].phase, Phase::Ended);
}

#[test]
fn host_loss_ends_the_session() {
    let mut e = engine_with(&[("a", "**A", 11), ("b", "**B", 12)]);
    let idx = e.host_session(&s("ABC123"), &s("host"), Some(HOST_USER)).unwrap();
    e.sessions[idx].start(0).unwrap();
    e.sessions[idx].advance(Some(&question(100, 0, "A")), 3, 10).unwrap();
    assert_eq!(e.sessions[idx].phase, Phase::Question);
    let ended = e.disconnect(&s("host"), 50);
    assert_eq!(ended, vec![s("ABC123")]);
    assert_eq!(e.sessions[idx].phase, Phase::Ended);
    assert_eq!(e.sessions[idx].ended_at_ms, Some(50));
    assert!(e.registry.get(&s("host")).is_none());
    assert_eq!(e.recipients(&s("ABC123")), vec![s("a"), s("b")]);
}

#[test]
fn player_loss_keeps_the_session() {
    let mut e = engine_with(&[("a", "**A", 11), ("b", "**B", 12)]);
    let ended = e.disconnect(&s("a"), 50);
    assert!(ended.is_empty());
    assert_eq!(session(&e).phase, Phase::Lobby);
    assert!(!session(&e).players[0].is_active);
    assert!(session(&e).players[1].is_active);
    assert_eq!(e.recipients(&s("ABC123")), vec![s("b"), s("host")]);
}

#[test]
fn reconnection_keeps_score_and_answers() {
    let mut e = engine_with(&[("a", "**A", 11), ("b", "**B", 12)]);
    let rules = ScoringRules::standard();
    e.submit_answer(&s("ABC123"), &s("a"), 5, "A", &s("A"), 5000, &rules, 3).unwrap();
    e.disconnect(&s("a"), 10);
    e.connect(s("a2"), 20);
    let row = DurablePlayer {
        player_id: 11,
        game_id: 1,
        game_code: s("ABC123"),
        user_id: None,
        is_active: false,
    };
    let (si, k) = e.reconnect(&s("a"), &s("a2"), Some(&row), 30).unwrap().unwrap();
    let p = &e.sessions[si].players[k];
    assert_eq!(p.session_id, "a2");
    assert!(p.is_active);
    assert_eq!(p.score, 550);
    assert_eq!(p.answers.len(), 1);
    assert_eq!(p.answers[0].question_id, 5);
    assert_eq!(p.answers[0].points_earned, 550);
    assert_eq!(p.last_seen_ms, 30);
    assert!(p.answer_for(5).is_some());
    let c = e.registry.get(&s("a2")).unwrap();
    assert_eq!(c.player_id, Some(11));
    assert_eq!(c.connection_type, ConnectionType::Player);
    assert!(e.registry.get(&s("a")).is_none());
    assert_eq!(e.recipients(&s("ABC123")), vec![s("a2"), s("b"), s("host")]);
}

#[test]
fn reconnection_refusals() {
    let mut e = engine_with(&[("a", "**A", 11)]);
    assert!(matches!(
        e.reconnect(&s("gone"), &s("x"), None, 1),
        Err(AppError::NotFoundError(_))
    ));
    let row = DurablePlayer {
        player_id: 11,
        game_id: 1,
        game_code: s("ABC123"),
        user_id: None,
        is_active: true,
    };
    assert!(matches!(
        e.reconnect(&s("a"), &s("x"), Some(&row), 1),
        Err(AppError::ForbiddenError(_))
    ));
    assert!(session(&e).players[0].is_active);
    assert_eq!(session(&e).players[0].session_id, "a");
}

#[test]
fn only_the_host_may_command() {
    let mut e = engine_with(&[("a", "**A", 11)]);
    let r = e.host_session(&s("ABC123"), &s("a"), Some(5));
    assert!(matches!(r, Err(AppError::ForbiddenError(_))));
    let r = e.host_session(&s("ABC123"), &s("a"), None);
    assert!(matches!(r, Err(AppError::ForbiddenError(_))));
    assert_eq!(session(&e).host_session_id, "host");
    let r = e.host_session(&s("NOPE00"), &s("host"), Some(HOST_USER));
    assert!(matches!(r, Err(AppError::NotFoundError(_))));
    // the host's user on a new connection takes the capability over
    let idx = e.host_session(&s("ABC123"), &s("host2"), Some(HOST_USER)).unwrap();
    assert_eq!(e.sessions[idx].host_session_id, "host2");
    e.sessions[idx].start(1).unwrap();
    e.sessions[idx].advance(Some(&question(1, 0, "A")), 1, 2).unwrap();
    assert!(matches!(e.sessions[idx].start(3), Err(AppError::BadRequestError(_))));
}

#[test]
fn joining_rules() {
    let mut e = engine_with(&[("a", "**A", 11)]);
    assert!(e.check_join(&s("ABC123"), GameStatus::Lobby, &s("**B")).is_ok());
    assert!(matches!(
        e.check_join(&s("ABC123"), GameStatus::Lobby, &s("**A")),
        Err(AppError::BadRequestError(_))
    ));
    assert!(matches!(
        e.check_join(&s("ABC123"), GameStatus::Active, &s("**B")),
        Err(AppError::BadRequestError(_))
    ));
    assert!(e.check_join(&s("NEW000"), GameStatus::Lobby, &s("**A")).is_ok());
    assert!(matches!(
        e.admit_player(&s("q"), &s("NEW000"), 2, 1, None, s("x"), 0),
        Err(AppError::NotFoundError(_))
    ));
    let lobby = session(&e).lobby_players();
    assert_eq!(lobby.len(), 1);
    assert_eq!(lobby[0].nickname, "**A");
    assert!(lobby[0].is_guest);
}

#[test]
fn sessions_are_opened_once_per_code() {
    let mut e = engine_with(&[("a", "**A", 11)]);
    let i = e.open_session(GameSession::new(9, s("ABC123"), s("other"), 1, 1, 1));
    assert_eq!(e.sessions.len(), 1);
    assert_eq!(e.sessions[i].id, 1);
    assert_eq!(e.sessions[i].players.len(), 1);
}

#[test]
fn timer_finds_expired_questions() {
    let mut e = engine_with(&[("a", "**A", 11)]);
    let idx = e.host_session(&s("ABC123"), &s("host"), Some(HOST_USER)).unwrap();
    e.sessions[idx].advance(Some(&question(1, 0, "A")), 1, 1000).unwrap();
    assert_eq!(e.sessions[idx].question_duration_ms, Some(20000));
    assert!(e.expired_sessions(20999).is_empty());
    assert_eq!(e.expired_sessions(21000), vec![s("ABC123")]);
    assert!(e.close_question(&s("ABC123")).is_some());
    assert!(e.expired_sessions(99999).is_empty());
    // a second close, or one for a vanished session, is a no-op
    assert!(e.close_question(&s("ABC123")).is_none());
    assert!(e.close_question(&s("GONE00")).is_none());
}

#[test]
fn statistics_round_like_the_store() {
    let mut e = engine_with(&[("a", "**A", 11), ("b", "**B", 12)]);
    let rules = ScoringRules::standard();
    e.submit_answer(&s("ABC123"), &s("a"), 1, "A", &s("A"), 1001, &rules, 1).unwrap();
    e.submit_answer(&s("ABC123"), &s("a"), 2, "B", &s("A"), 1002, &rules, 1).unwrap();
    e.submit_answer(&s("ABC123"), &s("a"), 3, "B", &s("A"), 1000, &rules, 1).unwrap();
    e.disconnect(&s("b"), 2);
    let stats = player_statistics(&session(&e).players);
    assert_eq!(stats.len(), 1);
    assert_eq!(stats[0].answers, 3);
    assert_eq!(stats[0].correct, 1);
    assert_eq!(stats[0].accuracy, 33);
    assert_eq!(stats[0].avg_response_time_ms, Some(1001));
    let mut e = engine_with(&[("a", "**A", 11)]);
    e.submit_answer(&s("ABC123"), &s("a"), 1, "A", &s("A"), 1, &rules, 1).unwrap();
    e.submit_answer(&s("ABC123"), &s("a"), 2, "B", &s("A"), 2, &rules, 1).unwrap();
    let stats = player_statistics(&session(&e).players);
    assert_eq!(stats[0].accuracy, 50);
    assert_eq!(stats[0].avg_response_time_ms, Some(2));
    let mut e = engine_with(&[("a", "**A", 11)]);
    e.submit_answer(&s("ABC123"), &s("a"), 1, "A", &s("A"), -3, &rules, 1).unwrap();
    e.submit_answer(&s("ABC123"), &s("a"), 2, "A", &s("A"), -2, &rules, 1).unwrap();
    e.submit_answer(&s("ABC123"), &s("a"), 3, "A", &s("A"), 0, &rules, 1).unwrap();
    let stats = player_statistics(&session(&e).players);
    assert_eq!(stats[0].avg_response_time_ms, Some(-2));
    let e = engine_with(&[("a", "**A", 11)]);
    let stats = player_statistics(&session(&e).players);
    assert_eq!(stats[0].accuracy, 0);
    assert_eq!(stats[0].avg_response_time_ms, None);
}

#[test]
fn question_durations() {
    assert_eq!(question_duration_ms(20), 20000);
    assert_eq!(question_duration_ms(0), 0);
    assert_eq!(question_duration_ms(-5), 30000);
}

#[test]
fn guest_names_carry_the_prefix() {
    assert_eq!(guest_display_name("bob", true), "**bob");
    assert_eq!(guest_display_name("**bob", true), "**bob");
    assert_eq!(guest_display_name("bob", false), "bob");
    assert_eq!(guest_display_name("", true), "**");
}

#[test]
fn inbound_messages_decode_by_tag() {
    let empty = || InboundFields {
        game_code: None,
        nickname: None,
        question_id: None,
        answer: None,
        response_time_ms: None,
        old_session_id: None,
    };
    assert!(matches!(decode_inbound("ping", empty()), Some(InboundMessage::Ping)));
    assert!(decode_inbound("join_lobby", empty()).is_none());
    assert!(decode_inbound("dance", empty()).is_none());
    let mut f = empty();
    f.game_code = Some(s("ABC123"));
    f.nickname = Some(s("zed"));
    match decode_inbound("join_lobby", f) {
        Some(InboundMessage::JoinLobby { game_code, nickname }) => {
            assert_eq!(game_code, "ABC123");
            assert_eq!(nickname, "zed");
        }
        _ => panic!("expected a join"),
    }
    let mut f = empty();
    f.question_id = Some(7);
    f.answer = Some(s("B"));
    f.response_time_ms = Some(1200);
    match decode_inbound("submit_answer", f) {
        Some(InboundMessage::SubmitAnswer(d)) => {
            assert_eq!(d.question_id, 7);
            assert_eq!(d.answer, "B");
            assert_eq!(d.response_time_ms, 1200);
        }
        _ => panic!("expected an answer"),
    }
    let mut f = empty();
    f.question_id = Some(1 << 40);
    f.answer = Some(s("B"));
    f.response_time_ms = Some(1);
    assert!(decode_inbound("submit_answer", f).is_none());
    let mut f = empty();
    f.old_session_id = Some(s("old"));
    assert!(matches!(decode_inbound("reconnect", f), Some(InboundMessage::Reconnect { .. })));
    assert!(text_eq("abc", "abc"));
    assert!(!text_eq("abc", "abd"));
    assert!(!text_eq("abc", "ab"));
}

#[test]
fn heartbeat_decisions() {
    assert_eq!(heartbeat_action(1000, 1000), HeartbeatAction::Idle);
    assert_eq!(heartbeat_action(1000, 11000), HeartbeatAction::Idle);
    assert_eq!(heartbeat_action(1000, 11001), HeartbeatAction::Ping);
    assert_eq!(heartbeat_action(1000, 31000), HeartbeatAction::Ping);
    assert_eq!(heartbeat_action(1000, 31001), HeartbeatAction::Close);
    assert_eq!(heartbeat_action(5000, 10), HeartbeatAction::Idle);
}

#[test]
fn labels_and_status_codes() {
    assert_eq!(UserRole::Teacher.label(), "teacher");
    assert_eq!(GameStatus::Completed.label(), "completed");
    assert_eq!(GameStatus::from_label("active"), Some(GameStatus::Active));
    assert_eq!(GameStatus::from_label("lobby"), Some(GameStatus::Lobby));
    assert_eq!(GameStatus::from_label("Lobby"), None);
    assert_eq!(ConnectionType::Viewer.label(), "viewer");
    assert_eq!(AppError::ForbiddenError(s("x")).status_code(), 403);
    assert_eq!(AppError::NotFoundError(s("gone")).message(), "gone");
}

#[test]
fn host_seated_as_player_is_reached_once() {
    let mut e = engine_with(&[("a", "**A", 11)]);
    e.admit_player(&s("host"), &s("ABC123"), 1, 99, Some(HOST_USER), s("teacher"), 0).unwrap();
    assert_eq!(e.recipients(&s("ABC123")), vec![s("a"), s("host")]);
}

#[test]
fn timer_does_not_close_early() {
    let mut e = engine_with(&[("a", "**A", 11)]);
    let idx = e.host_session(&s("ABC123"), &s("host"), Some(HOST_USER)).unwrap();
    e.sessions[idx].advance(Some(&question(1, 0, "A")), 1, 1000).unwrap();
    assert!(e.expired_sessions(1000).is_empty());
    assert!(e.expired_sessions(500).is_empty());
    assert_eq!(e.sessions[idx].phase, Phase::Question);
}

#[test]
fn fresh_connections_are_viewers() {
    let mut e = Engine::new();
    e.connect(s("x"), 42);
    let c = e.registry.get(&s("x")).unwrap();
    assert_eq!(c.connection_type, ConnectionType::Viewer);
    assert!(c.user_id.is_none() && c.player_id.is_none() && c.game_id.is_none() && c.game_code.is_none());
    assert_eq!(c.last_seen_ms, 42);
    e.connect(s("y"), 43);
    assert_eq!(e.registry.get(&s("x")).unwrap().last_seen_ms, 42);
    assert_eq!(e.registry.len(), 2);
}

#[test]
fn joining_seats_and_assigns() {
    let e = engine_with(&[("a", "**A", 11)]);
    let p = &session(&e).players[0];
    assert!(p.answers.is_empty());
    assert_eq!(p.score, 0);
    let c = e.registry.get(&s("a")).unwrap();
    assert_eq!(c.connection_type, ConnectionType::Player);
    assert_eq!(c.player_id, Some(11));
    assert_eq!(c.game_id, Some(1));
    assert_eq!(c.game_code.as_deref(), Some("ABC123"));
}

#[test]
fn reconnect_reply_and_own_answer() {
    let mut e = engine_with(&[("a", "**A", 11)]);
    let rules = ScoringRules::standard();
    let idx = e.host_session(&s("ABC123"), &s("host"), Some(HOST_USER)).unwrap();
    e.sessions[idx].advance(Some(&question(100, 0, "A")), 1, 10).unwrap();
    e.submit_answer(&s("ABC123"), &s("a"), 100, "a", &s("A"), 0, &rules, 11).unwrap();
    e.disconnect(&s("a"), 12);
    e.connect(s("a2"), 13);
    let row = DurablePlayer { player_id: 11, game_id: 1, game_code: s("ABC123"), user_id: None, is_active: false };
    let (si, k) = e.reconnect(&s("a"), &s("a2"), Some(&row), 14).unwrap().unwrap();
    let reply = e.sessions[si].reconnect_reply(k);
    assert_eq!(reply.player_id, 11);
    assert_eq!(reply.score, 1000);
    assert_eq!(reply.phase, Phase::Question);
    assert_eq!(reply.current_question, 0);
    assert!(reply.resend_question);
    assert_eq!(reply.leaderboard.len(), 1);
    let own = e.sessions[si].own_answer(k, 100).unwrap();
    assert_eq!(own.answer, "A");
    assert!(own.is_correct);
    assert!(e.sessions[si].own_answer(k, 101).is_none());
}

#[test]
fn reconnect_without_running_session() {
    let mut e = engine_with(&[]);
    e.connect(s("n"), 1);
    let row = DurablePlayer { player_id: 5, game_id: 9, game_code: s("OTHER1"), user_id: Some(3), is_active: false };
    assert!(e.reconnect(&s("gone"), &s("n"), Some(&row), 2).unwrap().is_none());
    let c = e.registry.get(&s("n")).unwrap();
    assert_eq!(c.player_id, Some(5));
    assert_eq!(c.user_id, Some(3));
}

#[test]
fn failed_start_changes_nothing() {
    let mut e = engine_with(&[("a", "**A", 11)]);
    let idx = e.host_session(&s("ABC123"), &s("host"), Some(HOST_USER)).unwrap();
    e.sessions[idx].advance(Some(&question(1, 0, "A")), 1, 5).unwrap();
    assert!(matches!(e.sessions[idx].start(9), Err(AppError::BadRequestError(_))));
    assert_eq!(e.sessions[idx].started_at_ms, None);
    assert_eq!(e.sessions[idx].question_started_at_ms, Some(5));
}
