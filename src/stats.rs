use crate::session::{AnswerRecord, PlayerState};
use vstd::arithmetic::div_mod::{lemma_div_pos_is_pos, lemma_fundamental_div_mod, lemma_mod_pos_bound};
use vstd::arithmetic::mul::lemma_mul_inequality;
use vstd::prelude::*;

verus! {

broadcast use {vstd::seq_lib::group_to_multiset_ensures, vstd::seq_lib::to_multiset_insert};

/// A player's record over a game, for the final results.
pub struct PlayerStatistics {
    pub player_id: i32,
    pub nickname: String,
    pub score: i64,
    pub answers: u64,
    pub correct: u64,
    /// Share of right answers, in percent, rounded; 0 with no answers.
    pub accuracy: u64,
    /// Mean response time, rounded; none with no answers.
    pub avg_response_time_ms: Option<i64>,
}

/// The number of right answers among `a`.
pub open spec fn correct_count(a: Seq<AnswerRecord>) -> nat
    decreases a.len(),
{
    if a.len() == 0 {
        0
    } else {
        correct_count(a.drop_last()) + if a.last().is_correct {
            1nat
        } else {
            0nat
        }
    }
}

/// The sum of the response times of `a`.
pub open spec fn latency_total(a: Seq<AnswerRecord>) -> int
    decreases a.len(),
{
    if a.len() == 0 {
        0
    } else {
        latency_total(a.drop_last()) + a.last().response_time_ms
    }
}

/// `num / den` rounded to the nearest integer, halves away from zero.
pub open spec fn round_div(num: int, den: int) -> int {
    if num >= 0 {
        (2 * num + den) / (2 * den)
    } else {
        -((2 * (-num) + den) / (2 * den))
    }
}

/// The statistics of `p`.
pub open spec fn stats_for(p: PlayerState) -> PlayerStatistics {
    let n = p.answers@.len();
    let c = correct_count(p.answers@);
    PlayerStatistics {
        player_id: p.player_id,
        nickname: p.nickname,
        score: p.score,
        answers: n as u64,
        correct: c as u64,
        accuracy: if n == 0 {
            0
        } else {
            round_div(100 * c as int, n as int) as u64
        },
        avg_response_time_ms: if n == 0 {
            None
        } else {
            Some(round_div(latency_total(p.answers@), n as int) as i64)
        },
    }
}

/// The statistics of the active players, in table order.
pub open spec fn active_stats(players: Seq<PlayerState>) -> Seq<PlayerStatistics>
    decreases players.len(),
{
    if players.len() == 0 {
        Seq::empty()
    } else {
        let rest = active_stats(players.drop_last());
        if players.last().is_active {
            rest.push(stats_for(players.last()))
        } else {
            rest
        }
    }
}

/// Scores never rise along the list.
pub open spec fn stats_by_score(s: Seq<PlayerStatistics>) -> bool {
    forall|a: int, b: int| 0 <= a < b < s.len() ==> #[trigger] s[a].score >= #[trigger] s[b].score
}

proof fn lemma_latency_bound(a: Seq<AnswerRecord>)
    ensures
        -0x8000_0000 * a.len() <= latency_total(a) <= 0x7fff_ffff * a.len(),
        correct_count(a) <= a.len(),
    decreases a.len(),
{
    if a.len() > 0 {
        lemma_latency_bound(a.drop_last());
    }
}

proof fn lemma_div_below(x: int, d: int, q: int)
    requires
        d > 0,
        0 <= x < d * (q + 1),
    ensures
        0 <= x / d <= q,
{
    lemma_div_pos_is_pos(x, d);
    lemma_fundamental_div_mod(x, d);
    lemma_mod_pos_bound(x, d);
    if x / d > q {
        lemma_mul_inequality(q + 1, x / d, d);
        assert(d * (q + 1) == (q + 1) * d && d * (x / d) == (x / d) * d) by (nonlinear_arith);
    }
}

proof fn lemma_round_div_bounds(num: int, den: int, lo: int, hi: int)
    requires
        den > 0,
        lo * den <= num <= hi * den,
        lo <= 0 <= hi,
    ensures
        lo <= round_div(num, den) <= hi,
{
    if num >= 0 {
        assert(2 * num + den < (2 * den) * (hi + 1)) by (nonlinear_arith)
            requires
                den > 0,
                num <= hi * den,
        ;
        lemma_div_below(2 * num + den, 2 * den, hi);
    } else {
        let m = -num;
        assert(2 * m + den < (2 * den) * (-lo + 1)) by (nonlinear_arith)
            requires
                den > 0,
                lo * den <= num,
                m == -num,
        ;
        lemma_div_below(2 * m + den, 2 * den, -lo);
    }
}

/// `num / den` rounded as `round_div` says.
fn rounded_div(num: i128, den: u64) -> (r: i128)
    requires
        den > 0,
        -0x1_0000_0000_0000_0000_0000_0000 <= num <= 0x1_0000_0000_0000_0000_0000_0000,
    ensures
        r == round_div(num as int, den as int),
{
    let d = den as i128;
    if num >= 0 {
        (2 * num + d) / (2 * d)
    } else {
        -((2 * (-num) + d) / (2 * d))
    }
}

/// The statistics of one player.
pub fn statistics_of(p: &PlayerState) -> (r: PlayerStatistics)
    ensures
        r == stats_for(*p),
{
    let n = p.answers.len();
    let mut correct: u64 = 0;
    let mut total: i128 = 0;
    let mut i: usize = 0;
    while i < n
        invariant
            n == p.answers@.len(),
            i <= n,
            correct == correct_count(p.answers@.subrange(0, i as int)),
            total == latency_total(p.answers@.subrange(0, i as int)),
        decreases n - i,
    {
        assert(p.answers@.subrange(0, i + 1).drop_last() =~= p.answers@.subrange(0, i as int));
        proof {
            lemma_latency_bound(p.answers@.subrange(0, i as int));
        }
        if p.answers[i].is_correct {
            correct = correct + 1;
        }
        total = total + p.answers[i].response_time_ms as i128;
        i = i + 1;
    }
    assert(p.answers@.subrange(0, n as int) =~= p.answers@);
    proof {
        lemma_latency_bound(p.answers@);
    }
    let (accuracy, avg) = if n == 0 {
        (0u64, None)
    } else {
        proof {
            lemma_round_div_bounds(100 * correct as int, n as int, 0, 100);
            lemma_round_div_bounds(total as int, n as int, -0x8000_0000, 0x7fff_ffff);
        }
        let acc = rounded_div(100 * correct as i128, n as u64);
        let avg = rounded_div(total, n as u64);
        (acc as u64, Some(avg as i64))
    };
    PlayerStatistics {
        player_id: p.player_id,
        nickname: p.nickname.clone(),
        score: p.score,
        answers: n as u64,
        correct,
        accuracy,
        avg_response_time_ms: avg,
    }
}

/// The statistics of the active players, highest score first.
pub fn player_statistics(players: &Vec<PlayerState>) -> (r: Vec<PlayerStatistics>)
    ensures
        stats_by_score(r@),
        r@.to_multiset() == active_stats(players@).to_multiset(),
{
    let mut out: Vec<PlayerStatistics> = Vec::new();
    let mut i: usize = 0;
    while i < players.len()
        invariant
            i <= players@.len(),
            stats_by_score(out@),
            out@.to_multiset() == active_stats(players@.subrange(0, i as int)).to_multiset(),
        decreases players@.len() - i,
    {
        assert(players@.subrange(0, i + 1).drop_last() =~= players@.subrange(0, i as int));
        if players[i].is_active {
            let st = statistics_of(&players[i]);
            let mut pos: usize = 0;
            while pos < out.len() && out[pos].score >= st.score
                invariant
                    pos <= out@.len(),
                    forall|k: int| 0 <= k < pos ==> #[trigger] out@[k].score >= st.score,
                decreases out@.len() - pos,
            {
                pos = pos + 1;
            }
            let ghost before = out@;
            let ghost e = st;
            out.insert(pos, st);
            assert(out@ == before.insert(pos as int, e));
            assert(stats_by_score(out@)) by {
                assert forall|a: int, b: int| 0 <= a < b < out@.len() implies #[trigger] out@[a].score
                    >= #[trigger] out@[b].score by {
                    if pos < before.len() {
                        assert(before[pos as int].score < e.score);
                    }
                    if b > pos as int && a < pos as int {
                        assert(out@[b] == before[b - 1]);
                        assert(out@[a] == before[a]);
                    } else if b > pos as int && a > pos as int {
                        assert(out@[b] == before[b - 1]);
                        assert(out@[a] == before[a - 1]);
                    } else if b > pos as int && a == pos as int {
                        assert(out@[b] == before[b - 1]);
                        assert(before[pos as int].score >= before[b - 1].score);
                    }
                }
            }
        }
        i = i + 1;
    }
    assert(players@.subrange(0, players@.len() as int) =~= players@);
    out
}

} // verus!
