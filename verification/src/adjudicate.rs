//! The adjudication engine.
//!
//! One game's evaluation stream is replayed ply by ply against a
//! resignation rule and a draw rule.  The engine keeps two resignation
//! streak counters, one per mover, and one shared draw streak counter;
//! the first rule whose condition is sustained long enough latches and
//! fixes the adjudicated outcome.  The replay is modelled by the spec
//! state machine `engine_step` / `engine_run`, and `adjudicate_game` is
//! proved to compute exactly its result.

use vstd::prelude::*;
use crate::{GameData, MoveData};
use crate::rules::{DrawRule, ResignRule};

verus! {

/// Length (plies), cumulative time (milliseconds) and tenfold score of a
/// game, real or hypothetical.
#[derive(Debug, Clone, Copy, PartialEq, Eq, Structural)]
pub struct GameStats {
    pub length: u32,
    pub time: u32,
    pub score10: u32,
}

/// Which rule terminated a game.
#[derive(Debug, Clone, Copy, PartialEq, Eq, Structural)]
pub enum RuleType {
    Resign,
    Draw,
}

/// The actual and the hypothetical outcome of one game, with the rule
/// that produced the latter, if any did.
#[derive(Debug, Clone, Copy, PartialEq, Eq, Structural)]
pub struct AdjudicationOutcome {
    pub actual: GameStats,
    pub rule_applied: Option<RuleType>,
    pub adjudicated: GameStats,
}

/// The record a rule leaves when it fires: which rule, the length of the
/// truncated game, the time spent up to that ply, and the score the rule
/// assigns.
pub ghost struct Firing {
    pub rule: RuleType,
    pub length: int,
    pub time: int,
    pub score10: int,
}

/// The engine's state between plies: cumulative time, the shared draw
/// streak, one resignation streak per mover, and the latch.
pub ghost struct EngineState {
    pub time: int,
    pub draw_streak: int,
    pub resign_streak0: int,
    pub resign_streak1: int,
    pub fired: Option<Firing>,
}

pub open spec fn engine_init() -> EngineState {
    EngineState { time: 0, draw_streak: 0, resign_streak0: 0, resign_streak1: 0, fired: None }
}

/// One ply of the replay.  Time accumulates always, even after the latch
/// has fired, because the actual totals must reflect the full game.
/// While the latch is clear the draw rule is checked first; the
/// resignation check is skipped on a ply where the draw rule fires.
pub open spec fn engine_step(
    resign: ResignRule,
    draw: DrawRule,
    p: int,
    m: MoveData,
    st: EngineState,
) -> EngineState {
    let time = st.time + m.time;
    if st.fired is Some {
        EngineState {
            time: time,
            draw_streak: st.draw_streak,
            resign_streak0: st.resign_streak0,
            resign_streak1: st.resign_streak1,
            fired: st.fired,
        }
    } else {
        let ds: int = if -draw.spec_eval() <= m.eval <= draw.spec_eval() {
            st.draw_streak + 1
        } else {
            0
        };
        if (p + 1) / 2 >= draw.spec_from_move() && ds >= 2 * draw.spec_count() {
            EngineState {
                time: time,
                draw_streak: ds,
                resign_streak0: st.resign_streak0,
                resign_streak1: st.resign_streak1,
                fired: Some(Firing { rule: RuleType::Draw, length: p + 1, time: time, score10: 5 }),
            }
        } else {
            let side = p % 2;
            let prev: int = if side == 0 {
                st.resign_streak0
            } else {
                st.resign_streak1
            };
            let rs: int = if m.eval <= -resign.spec_eval() {
                prev + 1
            } else {
                0
            };
            EngineState {
                time: time,
                draw_streak: ds,
                resign_streak0: if side == 0 { rs } else { st.resign_streak0 },
                resign_streak1: if side == 1 { rs } else { st.resign_streak1 },
                fired: if rs == resign.spec_count() {
                    Some(Firing {
                        rule: RuleType::Resign,
                        length: p + 1,
                        time: time,
                        score10: if side == 0 { 0 } else { 10 },
                    })
                } else {
                    None
                },
            }
        }
    }
}

/// The engine's state after the first `n` plies of `moves`.
pub open spec fn engine_run(
    resign: ResignRule,
    draw: DrawRule,
    moves: Seq<MoveData>,
    n: int,
) -> EngineState
    decreases n
{
    if n <= 0 {
        engine_init()
    } else {
        engine_step(resign, draw, n - 1, moves[n - 1], engine_run(resign, draw, moves, n - 1))
    }
}

/// Total time of the first `n` plies, in milliseconds.
pub open spec fn sum_times(moves: Seq<MoveData>, n: int) -> int
    decreases n
{
    if n <= 0 {
        0
    } else {
        sum_times(moves, n - 1) + moves[n - 1].time
    }
}

pub proof fn lemma_sum_times_mono(moves: Seq<MoveData>, j: int, n: int)
    requires
        0 <= j <= n,
    ensures
        0 <= sum_times(moves, j) <= sum_times(moves, n),
    decreases n,
{
    if n > 0 {
        if j < n {
            lemma_sum_times_mono(moves, j, n - 1);
        } else {
            lemma_sum_times_mono(moves, 0, n - 1);
        }
    }
}

pub proof fn lemma_run_time(resign: ResignRule, draw: DrawRule, moves: Seq<MoveData>, n: int)
    ensures
        engine_run(resign, draw, moves, n).time == sum_times(moves, n),
    decreases n,
{
    if n > 0 {
        lemma_run_time(resign, draw, moves, n - 1);
    }
}

/// Once a rule has fired, the latch holds its record unchanged through
/// every later ply: a rule fires at most once per game, and no later
/// rule can replace its outcome.
pub proof fn lemma_rule_fires_once(
    resign: ResignRule,
    draw: DrawRule,
    moves: Seq<MoveData>,
    j: int,
    n: int,
)
    requires
        0 <= j <= n,
        engine_run(resign, draw, moves, j).fired is Some,
    ensures
        engine_run(resign, draw, moves, n).fired == engine_run(resign, draw, moves, j).fired,
    decreases n,
{
    if j < n {
        lemma_rule_fires_once(resign, draw, moves, j, n - 1);
    }
}

/// A single ply that fails a rule's qualifying condition resets the
/// relevant streak counter to 0, with no partial carry-over: the shared
/// draw counter on any ply whose evaluation leaves the window, and the
/// mover's resignation counter on any own ply above the resignation
/// threshold (when no rule fires on that ply).
pub proof fn lemma_streak_reset(
    resign: ResignRule,
    draw: DrawRule,
    p: int,
    m: MoveData,
    st: EngineState,
)
    requires
        st.fired is None,
    ensures
        !(-draw.spec_eval() <= m.eval <= draw.spec_eval())
            ==> engine_step(resign, draw, p, m, st).draw_streak == 0,
        engine_step(resign, draw, p, m, st).fired is None && m.eval > -resign.spec_eval()
            ==> (if p % 2 == 0 {
                engine_step(resign, draw, p, m, st).resign_streak0
            } else {
                engine_step(resign, draw, p, m, st).resign_streak1
            }) == 0,
{
}

/// The draw rule is specified per full move while its streak counter
/// advances per ply, so the ply-level streak must reach twice the rule's
/// `count` — not `count` itself — before the rule can fire, and only
/// from the rule's starting full move on.
pub proof fn lemma_draw_threshold_doubled(
    resign: ResignRule,
    draw: DrawRule,
    p: int,
    m: MoveData,
    st: EngineState,
)
    requires
        st.fired is None,
        draw.wf(),
    ensures
        (engine_step(resign, draw, p, m, st).fired matches Some(f) && f.rule == RuleType::Draw)
            <==> (-draw.spec_eval() <= m.eval <= draw.spec_eval()
                && st.draw_streak + 1 >= 2 * draw.spec_count()
                && (p + 1) / 2 >= draw.spec_from_move()),
{
}

/// What a firing record says is exact: the rule fired at the ply its
/// `length` names (and not at any earlier ply), its `time` is the time
/// of exactly that prefix of the game, and its score is a valid tenfold
/// score.
pub proof fn lemma_fired_facts(resign: ResignRule, draw: DrawRule, moves: Seq<MoveData>, n: int)
    requires
        0 <= n,
    ensures
        engine_run(resign, draw, moves, n).fired matches Some(f) ==> {
            &&& 1 <= f.length <= n
            &&& f.time == sum_times(moves, f.length)
            &&& f.score10 == 0 || f.score10 == 5 || f.score10 == 10
            &&& (f.rule == RuleType::Draw ==> f.score10 == 5)
            &&& (f.rule == RuleType::Resign ==> f.score10 == (if (f.length - 1) % 2 == 0 {
                0int
            } else {
                10int
            }))
            &&& engine_run(resign, draw, moves, f.length).fired == Some(f)
            &&& engine_run(resign, draw, moves, f.length - 1).fired is None
        },
    decreases n,
{
    if n > 0 {
        lemma_fired_facts(resign, draw, moves, n - 1);
        let prev = engine_run(resign, draw, moves, n - 1);
        if prev.fired is None && engine_run(resign, draw, moves, n).fired is Some {
            lemma_run_time(resign, draw, moves, n - 1);
        }
    }
}

impl AdjudicationOutcome {
    /// The outcome invariant: both scores are valid tenfold scores and
    /// adjudication never lengthens a game.
    pub open spec fn wf(&self) -> bool {
        &&& self.actual.score10 == 0 || self.actual.score10 == 5 || self.actual.score10 == 10
        &&& self.adjudicated.score10 == 0 || self.adjudicated.score10 == 5
            || self.adjudicated.score10 == 10
        &&& self.adjudicated.time <= self.actual.time
        &&& self.adjudicated.length <= self.actual.length
    }

    /// Whether the rule's hypothetical result agrees with the game's
    /// real one.
    pub fn correctly_adjudicated(&self) -> (r: bool)
        ensures
            r == (self.actual.score10 == self.adjudicated.score10),
    {
        self.actual.score10 == self.adjudicated.score10
    }

    /// Milliseconds the rule would have saved: the cut-off part of the
    /// game when the adjudication was correct, nothing otherwise.  Never
    /// negative, since adjudication only stops a game early.
    pub fn time_saved(&self) -> (r: u32)
        requires
            self.adjudicated.time <= self.actual.time,
        ensures
            r == if self.actual.score10 == self.adjudicated.score10 {
                self.actual.time - self.adjudicated.time
            } else {
                0int
            },
    {
        if self.correctly_adjudicated() {
            self.actual.time - self.adjudicated.time
        } else {
            0
        }
    }

    /// The squared difference of the two tenfold scores.
    pub fn squared_error10(&self) -> (r: u32)
        requires
            self.wf(),
        ensures
            r == (self.actual.score10 - self.adjudicated.score10)
                * (self.actual.score10 - self.adjudicated.score10),
    {
        let d = self.actual.score10 as i32 - self.adjudicated.score10 as i32;
        assert(d == -10 || d == -5 || d == 0 || d == 5 || d == 10);
        (d * d) as u32
    }
}

/// Replays one game against both rules and determines the earliest
/// triggering rule, if any; otherwise the adjudicated outcome equals the
/// actual one.  The result is exactly what the spec state machine
/// `engine_run` computes over the game's plies.
pub fn adjudicate_game(
    game: &GameData,
    resign_rule: &ResignRule,
    draw_rule: &DrawRule,
) -> (r: AdjudicationOutcome)
    requires
        game.wf(),
        resign_rule.wf(),
        draw_rule.wf(),
        game.move_data@.len() <= 0xffff_ffff,
        sum_times(game.move_data@, game.move_data@.len() as int) <= 0xffff_ffff,
    ensures
        r.actual.length == game.move_data@.len(),
        r.actual.time == sum_times(game.move_data@, game.move_data@.len() as int),
        r.actual.score10 == game.score10,
        ({
            let fin = engine_run(*resign_rule, *draw_rule, game.move_data@,
                game.move_data@.len() as int);
            match fin.fired {
                None => r.rule_applied is None && r.adjudicated == r.actual,
                Some(f) => r.rule_applied == Some(f.rule) && r.adjudicated.length == f.length
                    && r.adjudicated.time == f.time && r.adjudicated.score10 == f.score10,
            }
        }),
        r.adjudicated.time <= r.actual.time,
        r.adjudicated.length <= r.actual.length,
        r.wf(),
{
    let ghost m = game.move_data@;
    let ghost rg = *resign_rule;
    let ghost dg = *draw_rule;
    let len = game.move_data.len();

    let mut rc0: u32 = 0;
    let mut rc1: u32 = 0;
    let mut draw_count: u32 = 0;
    let mut total_time: u32 = 0;
    let mut rule_applied: Option<RuleType> = None;
    let mut adjudicated_outcome: Option<GameStats> = None;
    let mut p: usize = 0;

    while p < len
        invariant
            len == m.len(),
            m == game.move_data@,
            rg == *resign_rule,
            dg == *draw_rule,
            rg.wf(),
            dg.wf(),
            len <= 0xffff_ffff,
            sum_times(m, len as int) <= 0xffff_ffff,
            0 <= p <= len,
            total_time as int == sum_times(m, p as int),
            draw_count as int == engine_run(rg, dg, m, p as int).draw_streak,
            rc0 as int == engine_run(rg, dg, m, p as int).resign_streak0,
            rc1 as int == engine_run(rg, dg, m, p as int).resign_streak1,
            draw_count <= p,
            rc0 <= p,
            rc1 <= p,
            match engine_run(rg, dg, m, p as int).fired {
                None => rule_applied is None && adjudicated_outcome is None,
                Some(f) => rule_applied == Some(f.rule)
                    && (adjudicated_outcome matches Some(a) && a.length == f.length
                        && a.time == f.time && a.score10 == f.score10),
            },
        decreases len - p,
    {
        let ghost st = engine_run(rg, dg, m, p as int);
        let mv = game.move_data[p];
        proof {
            lemma_sum_times_mono(m, p + 1, len as int);
            lemma_run_time(rg, dg, m, p as int);
            assert(sum_times(m, p + 1) == sum_times(m, p as int) + mv.time);
        }
        total_time = total_time + mv.time;

        if adjudicated_outcome.is_none() {
            let e = mv.eval;
            let de = draw_rule.eval_value();
            if -de <= e && e <= de {
                draw_count = draw_count + 1;
            } else {
                draw_count = 0;
            }

            let full_move = (p as u32 + 1) / 2;
            if full_move >= draw_rule.from_move_value()
                && draw_count as u64 >= 2 * (draw_rule.count_value() as u64) {
                rule_applied = Some(RuleType::Draw);
                adjudicated_outcome = Some(GameStats {
                    length: p as u32 + 1,
                    time: total_time,
                    score10: 5,
                });
            } else {
                let side0 = p % 2 == 0;
                if e <= -resign_rule.eval_value() {
                    if side0 {
                        rc0 = rc0 + 1;
                    } else {
                        rc1 = rc1 + 1;
                    }
                } else {
                    if side0 {
                        rc0 = 0;
                    } else {
                        rc1 = 0;
                    }
                }
                let rc = if side0 {
                    rc0
                } else {
                    rc1
                };
                if rc == resign_rule.count_value() {
                    rule_applied = Some(RuleType::Resign);
                    adjudicated_outcome = Some(GameStats {
                        length: p as u32 + 1,
                        time: total_time,
                        score10: if side0 {
                            0
                        } else {
                            10
                        },
                    });
                }
            }
        }

        p = p + 1;
        proof {
            assert(engine_run(rg, dg, m, p as int) == engine_step(rg, dg, p - 1, m[p - 1], st));
        }
    }

    let actual = GameStats { length: len as u32, time: total_time, score10: game.score10 };
    let adjudicated = match adjudicated_outcome {
        Some(s) => s,
        None => actual,
    };
    proof {
        lemma_fired_facts(rg, dg, m, len as int);
        lemma_run_time(rg, dg, m, len as int);
        if engine_run(rg, dg, m, len as int).fired is Some {
            let f = engine_run(rg, dg, m, len as int).fired->0;
            lemma_sum_times_mono(m, f.length, len as int);
        }
    }
    AdjudicationOutcome { actual: actual, rule_applied: rule_applied, adjudicated: adjudicated }
}

/// The resignation rule is edge triggered: on a ply where the draw rule
/// does not fire, it fires exactly when the ply's evaluation is at or
/// below `-eval` and it completes the mover's streak of exactly `count`
/// consecutive qualifying own moves — the first such ply, since the
/// streak grows by one per own move.
pub proof fn lemma_resign_trigger(
    resign: ResignRule,
    draw: DrawRule,
    p: int,
    m: MoveData,
    st: EngineState,
)
    requires
        st.fired is None,
        resign.wf(),
        draw.wf(),
        !(engine_step(resign, draw, p, m, st).fired matches Some(f) && f.rule == RuleType::Draw),
    ensures
        (engine_step(resign, draw, p, m, st).fired matches Some(f) && f.rule == RuleType::Resign)
            <==> (m.eval <= -resign.spec_eval() && (if p % 2 == 0 {
                st.resign_streak0
            } else {
                st.resign_streak1
            }) + 1 == resign.spec_count()),
{
}

/// The sentinel ("none") rules never fire within realistic game lengths:
/// with both streak targets at 10000 and the draw rule deferred to full
/// move 10000, no rule can fire before ply 19999, so on any shorter game
/// the latch stays clear and the adjudicated outcome equals the actual
/// one.  (The two side streaks are bounded by the number of plies each
/// mover has had.)
pub proof fn lemma_sentinel_rules_inert(
    resign: ResignRule,
    draw: DrawRule,
    moves: Seq<MoveData>,
    n: int,
)
    requires
        resign.spec_count() == 10000,
        draw.spec_from_move() == 10000,
        draw.spec_count() == 10000,
        0 <= n < 19999,
    ensures
        engine_run(resign, draw, moves, n).fired is None,
        engine_run(resign, draw, moves, n).resign_streak0 <= (n + 1) / 2,
        engine_run(resign, draw, moves, n).resign_streak1 <= n / 2,
    decreases n,
{
    if n > 0 {
        lemma_sentinel_rules_inert(resign, draw, moves, n - 1);
    }
}

} // verus!
