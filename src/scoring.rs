use vstd::arithmetic::div_mod::{lemma_div_is_ordered, lemma_div_multiples_vanish};
use vstd::arithmetic::mul::lemma_mul_inequality;
use vstd::prelude::*;

verus! {

/// The configuration of the scoring function: the points a correct answer
/// earns at best and at worst, and the time budget over which the reward
/// decays linearly.
pub struct ScoringRules {
    pub min_points: i32,
    pub max_points: i32,
    pub time_budget_ms: i32,
}

impl ScoringRules {
    /// The rules are usable when `0 <= min <= max` and the budget is positive.
    pub open spec fn wf(&self) -> bool {
        &&& 0 <= self.min_points <= self.max_points
        &&& self.time_budget_ms > 0
    }

    /// The rules the engine plays by: 100 to 1000 points over ten seconds.
    pub fn standard() -> (r: ScoringRules)
        ensures
            r.wf(),
            r.min_points == 100,
            r.max_points == 1000,
            r.time_budget_ms == 10000,
    {
        ScoringRules { min_points: 100, max_points: 1000, time_budget_ms: 10000 }
    }
}

/// The part of the budget left when an answer came after `latency` ms,
/// clamped to `[0, budget]`.
pub open spec fn remaining_budget(latency: int, budget: int) -> int {
    if latency <= 0 {
        budget
    } else if latency >= budget {
        0
    } else {
        budget - latency
    }
}

/// Points for an answer: 0 when wrong; when right,
/// `min + (max - min) * clamp((budget - latency) / budget, 0, 1)`, truncated.
pub open spec fn points_for(
    is_correct: bool,
    latency: int,
    min_points: int,
    max_points: int,
    budget: int,
) -> int {
    if !is_correct {
        0
    } else {
        min_points + (max_points - min_points) * remaining_budget(latency, budget) / budget
    }
}

pub open spec fn rules_points(is_correct: bool, latency: int, rules: ScoringRules) -> int {
    points_for(
        is_correct,
        latency,
        rules.min_points as int,
        rules.max_points as int,
        rules.time_budget_ms as int,
    )
}

proof fn lemma_bonus_bounds(span: int, r1: int, r2: int, budget: int)
    requires
        span >= 0,
        budget > 0,
        0 <= r1 <= r2 <= budget,
    ensures
        0 <= span * r1 / budget <= span * r2 / budget <= span,
{
    lemma_mul_inequality(r1, r2, span);
    lemma_mul_inequality(r2, budget, span);
    assert(0 <= span * r1) by (nonlinear_arith)
        requires
            span >= 0,
            r1 >= 0,
    ;
    assert(r1 * span == span * r1 && r2 * span == span * r2 && budget * span == span * budget)
        by (nonlinear_arith);
    lemma_div_is_ordered(0, span * r1, budget);
    lemma_div_is_ordered(span * r1, span * r2, budget);
    lemma_div_is_ordered(span * r2, budget * span, budget);
    lemma_div_multiples_vanish(span, budget);
}

/// Scores one answer under `rules`.
pub fn calculate_points(is_correct: bool, response_time_ms: i64, rules: &ScoringRules) -> (r: i32)
    requires
        rules.wf(),
    ensures
        r == rules_points(is_correct, response_time_ms as int, *rules),
        is_correct ==> rules.min_points <= r <= rules.max_points,
        !is_correct ==> r == 0,
{
    if !is_correct {
        return 0;
    }
    let budget = rules.time_budget_ms as i64;
    let remaining: i64 = if response_time_ms <= 0 {
        budget
    } else if response_time_ms >= budget {
        0
    } else {
        budget - response_time_ms
    };
    let span: i64 = rules.max_points as i64 - rules.min_points as i64;
    proof {
        lemma_bonus_bounds(span as int, remaining as int, budget as int, budget as int);
        assert(span * remaining <= span * budget) by (nonlinear_arith)
            requires
                span >= 0,
                remaining <= budget,
        ;
        assert(span * budget <= 0x7fff_ffff * 0x7fff_ffff) by (nonlinear_arith)
            requires
                0 <= span <= 0x7fff_ffff,
                0 < budget <= 0x7fff_ffff,
        ;
    }
    let bonus: i64 = span * remaining / budget;
    (rules.min_points as i64 + bonus) as i32
}

/// A correct answer never earns more for being slower, and always earns
/// between the minimum and the maximum.
pub proof fn lemma_points_non_increasing(rules: ScoringRules, faster_ms: int, slower_ms: int)
    requires
        rules.wf(),
        faster_ms <= slower_ms,
    ensures
        rules_points(true, slower_ms, rules) <= rules_points(true, faster_ms, rules),
        rules.min_points <= rules_points(true, faster_ms, rules) <= rules.max_points,
        rules.min_points <= rules_points(true, slower_ms, rules) <= rules.max_points,
{
    let budget = rules.time_budget_ms as int;
    let span = rules.max_points - rules.min_points;
    lemma_bonus_bounds(
        span,
        remaining_budget(slower_ms, budget),
        remaining_budget(faster_ms, budget),
        budget,
    );
}

/// A wrong answer earns nothing, whatever its latency.
pub proof fn lemma_wrong_answer_scores_zero(rules: ScoringRules, latency_ms: int)
    ensures
        rules_points(false, latency_ms, rules) == 0,
{
}

} // verus!
