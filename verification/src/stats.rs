//! Folding per-game outcomes into summary statistics.
//!
//! The aggregator is an explicit accumulator threaded over the ordered
//! outcomes: per category (resignation, draw) the trigger count, the
//! wrong-result count, the summed time saved and the summed squared
//! error, and across all games the grand totals of actual and
//! adjudicated time.  Every sum is pinned to a recursive spec fold, so
//! the reported figures can be recomputed independently from the list of
//! outcomes.

use vstd::prelude::*;
use vstd::string::StringExecFns;
use crate::adjudicate::{AdjudicationOutcome, RuleType};

verus! {

/// The character of one decimal digit.
pub open spec fn digit_char_of(d: int) -> char {
    if d == 0 {
        '0'
    } else if d == 1 {
        '1'
    } else if d == 2 {
        '2'
    } else if d == 3 {
        '3'
    } else if d == 4 {
        '4'
    } else if d == 5 {
        '5'
    } else if d == 6 {
        '6'
    } else if d == 7 {
        '7'
    } else if d == 8 {
        '8'
    } else {
        '9'
    }
}

/// The decimal digits of `n`, without padding.
pub open spec fn spec_decimal(n: int) -> Seq<char>
    decreases n
{
    if n < 10 {
        seq![digit_char_of(n)]
    } else {
        spec_decimal(n / 10).push(digit_char_of(n % 10))
    }
}

/// Two decimal digits, zero padded.
pub open spec fn spec_pad2(n: int) -> Seq<char> {
    seq![digit_char_of(n / 10), digit_char_of(n % 10)]
}

/// Three decimal digits, zero padded.
pub open spec fn spec_pad3(n: int) -> Seq<char> {
    seq![digit_char_of(n / 100), digit_char_of((n / 10) % 10), digit_char_of(n % 10)]
}

/// A millisecond total rendered as `H:MM:SS.mmm`.
pub open spec fn spec_format_time(ms: int) -> Seq<char> {
    spec_decimal(ms / 3600000) + seq![':'] + spec_pad2((ms / 60000) % 60) + seq![':']
        + spec_pad2((ms / 1000) % 60) + seq!['.'] + spec_pad3(ms % 1000)
}

/// Whether an outcome was decided by the given rule.
pub open spec fn is_cat(o: AdjudicationOutcome, cat: RuleType) -> bool {
    o.rule_applied == Some(cat)
}

/// Whether the rule's hypothetical result agrees with the real one.
pub open spec fn spec_correct(o: AdjudicationOutcome) -> bool {
    o.actual.score10 == o.adjudicated.score10
}

/// Milliseconds saved by a correct adjudication, 0 for a wrong one.
pub open spec fn spec_time_saved(o: AdjudicationOutcome) -> int {
    if spec_correct(o) {
        o.actual.time - o.adjudicated.time
    } else {
        0
    }
}

/// The squared difference of the two tenfold scores.
pub open spec fn spec_squared_error10(o: AdjudicationOutcome) -> int {
    (o.actual.score10 - o.adjudicated.score10) * (o.actual.score10 - o.adjudicated.score10)
}

/// How many of the first `n` outcomes the given rule decided.
pub open spec fn count_cat(s: Seq<AdjudicationOutcome>, n: int, cat: RuleType) -> int
    decreases n
{
    if n <= 0 {
        0
    } else {
        count_cat(s, n - 1, cat) + if is_cat(s[n - 1], cat) {
            1int
        } else {
            0int
        }
    }
}

/// How many of the first `n` outcomes the given rule decided wrongly.
pub open spec fn count_wrong_cat(s: Seq<AdjudicationOutcome>, n: int, cat: RuleType) -> int
    decreases n
{
    if n <= 0 {
        0
    } else {
        count_wrong_cat(s, n - 1, cat) + if is_cat(s[n - 1], cat) && !spec_correct(s[n - 1]) {
            1int
        } else {
            0int
        }
    }
}

/// Summed time saved over the first `n` outcomes the given rule decided.
pub open spec fn sum_time_saved_cat(s: Seq<AdjudicationOutcome>, n: int, cat: RuleType) -> int
    decreases n
{
    if n <= 0 {
        0
    } else {
        sum_time_saved_cat(s, n - 1, cat) + if is_cat(s[n - 1], cat) {
            spec_time_saved(s[n - 1])
        } else {
            0int
        }
    }
}

/// Summed squared error over the first `n` outcomes the given rule
/// decided.
pub open spec fn sum_squared_error_cat(s: Seq<AdjudicationOutcome>, n: int, cat: RuleType) -> int
    decreases n
{
    if n <= 0 {
        0
    } else {
        sum_squared_error_cat(s, n - 1, cat) + if is_cat(s[n - 1], cat) {
            spec_squared_error10(s[n - 1])
        } else {
            0int
        }
    }
}

/// Summed actual time of the first `n` outcomes, decided or not.
pub open spec fn sum_actual_time(s: Seq<AdjudicationOutcome>, n: int) -> int
    decreases n
{
    if n <= 0 {
        0
    } else {
        sum_actual_time(s, n - 1) + s[n - 1].actual.time
    }
}

/// Summed adjudicated time of the first `n` outcomes, decided or not.
pub open spec fn sum_adjudicated_time(s: Seq<AdjudicationOutcome>, n: int) -> int
    decreases n
{
    if n <= 0 {
        0
    } else {
        sum_adjudicated_time(s, n - 1) + s[n - 1].adjudicated.time
    }
}

proof fn lemma_sums_bounded(s: Seq<AdjudicationOutcome>, n: int, cat: RuleType)
    requires
        0 <= n <= s.len(),
        forall|i: int| 0 <= i < s.len() ==> (#[trigger] s[i]).wf(),
    ensures
        0 <= count_cat(s, n, cat) <= n,
        0 <= count_wrong_cat(s, n, cat) <= n,
        0 <= sum_time_saved_cat(s, n, cat) <= n * 0xffff_ffff,
        0 <= sum_squared_error_cat(s, n, cat) <= n * 100,
        0 <= sum_actual_time(s, n) <= n * 0xffff_ffff,
        0 <= sum_adjudicated_time(s, n) <= n * 0xffff_ffff,
    decreases n,
{
    if n > 0 {
        lemma_sums_bounded(s, n - 1, cat);
        let o = s[n - 1];
        assert(o.wf());
        assert(spec_squared_error10(o) <= 100) by {
            let d = o.actual.score10 - o.adjudicated.score10;
            assert(d == -10 || d == -5 || d == 0 || d == 5 || d == 10);
        }
    }
}

/// When no rule decided any of the first `n` outcomes, every
/// per-category figure is zero and the adjudicated time total equals the
/// actual one: disabled rules leave the report empty.
pub proof fn lemma_undecided_outcomes_zero(s: Seq<AdjudicationOutcome>, n: int, cat: RuleType)
    requires
        0 <= n <= s.len(),
        forall|i: int| 0 <= i < n ==> (#[trigger] s[i]).rule_applied is None && s[i].adjudicated
            == s[i].actual,
    ensures
        count_cat(s, n, cat) == 0,
        count_wrong_cat(s, n, cat) == 0,
        sum_time_saved_cat(s, n, cat) == 0,
        sum_squared_error_cat(s, n, cat) == 0,
        sum_adjudicated_time(s, n) == sum_actual_time(s, n),
    decreases n,
{
    if n > 0 {
        lemma_undecided_outcomes_zero(s, n - 1, cat);
    }
}

/// The aggregated report figures: counts, wrong counts, time saved and
/// summed squared error per category, and the grand time totals.
#[derive(Debug, Clone, Copy, PartialEq, Eq, Structural)]
pub struct Summary {
    pub games: u64,
    pub resign_num: u64,
    pub resign_num_wrong: u64,
    pub resign_time_saved: u64,
    pub resign_squared_error10: u64,
    pub draw_num: u64,
    pub draw_num_wrong: u64,
    pub draw_time_saved: u64,
    pub draw_squared_error10: u64,
    pub actual_time: u64,
    pub adjudicated_time: u64,
}

/// Folds the ordered outcomes into the summary figures, each pinned to
/// its spec fold over the same list.
pub fn aggregate_outcomes(outcomes: &Vec<AdjudicationOutcome>) -> (s: Summary)
    requires
        outcomes@.len() <= 0xffff_ffff,
        forall|i: int| 0 <= i < outcomes@.len() ==> (#[trigger] outcomes@[i]).wf(),
    ensures
        s.games == outcomes@.len(),
        s.resign_num == count_cat(outcomes@, outcomes@.len() as int, RuleType::Resign),
        s.resign_num_wrong == count_wrong_cat(outcomes@, outcomes@.len() as int, RuleType::Resign),
        s.resign_time_saved == sum_time_saved_cat(outcomes@, outcomes@.len() as int,
            RuleType::Resign),
        s.resign_squared_error10 == sum_squared_error_cat(outcomes@, outcomes@.len() as int,
            RuleType::Resign),
        s.draw_num == count_cat(outcomes@, outcomes@.len() as int, RuleType::Draw),
        s.draw_num_wrong == count_wrong_cat(outcomes@, outcomes@.len() as int, RuleType::Draw),
        s.draw_time_saved == sum_time_saved_cat(outcomes@, outcomes@.len() as int, RuleType::Draw),
        s.draw_squared_error10 == sum_squared_error_cat(outcomes@, outcomes@.len() as int,
            RuleType::Draw),
        s.actual_time == sum_actual_time(outcomes@, outcomes@.len() as int),
        s.adjudicated_time == sum_adjudicated_time(outcomes@, outcomes@.len() as int),
{
    let len = outcomes.len();
    let mut resign_num: u64 = 0;
    let mut resign_num_wrong: u64 = 0;
    let mut resign_time_saved: u64 = 0;
    let mut resign_squared_error10: u64 = 0;
    let mut draw_num: u64 = 0;
    let mut draw_num_wrong: u64 = 0;
    let mut draw_time_saved: u64 = 0;
    let mut draw_squared_error10: u64 = 0;
    let mut actual_time: u64 = 0;
    let mut adjudicated_time: u64 = 0;

    let mut i: usize = 0;
    while i < len
        invariant
            len == outcomes@.len() <= 0xffff_ffff,
            0 <= i <= len,
            forall|k: int| 0 <= k < outcomes@.len() ==> (#[trigger] outcomes@[k]).wf(),
            resign_num == count_cat(outcomes@, i as int, RuleType::Resign),
            resign_num_wrong == count_wrong_cat(outcomes@, i as int, RuleType::Resign),
            resign_time_saved == sum_time_saved_cat(outcomes@, i as int, RuleType::Resign),
            resign_squared_error10 == sum_squared_error_cat(outcomes@, i as int, RuleType::Resign),
            draw_num == count_cat(outcomes@, i as int, RuleType::Draw),
            draw_num_wrong == count_wrong_cat(outcomes@, i as int, RuleType::Draw),
            draw_time_saved == sum_time_saved_cat(outcomes@, i as int, RuleType::Draw),
            draw_squared_error10 == sum_squared_error_cat(outcomes@, i as int, RuleType::Draw),
            actual_time == sum_actual_time(outcomes@, i as int),
            adjudicated_time == sum_adjudicated_time(outcomes@, i as int),
        decreases len - i,
    {
        proof {
            lemma_sums_bounded(outcomes@, i + 1, RuleType::Resign);
            lemma_sums_bounded(outcomes@, i + 1, RuleType::Draw);
        }
        let o = outcomes[i];
        match o.rule_applied {
            Some(RuleType::Resign) => {
                resign_num = resign_num + 1;
                if !o.correctly_adjudicated() {
                    resign_num_wrong = resign_num_wrong + 1;
                }
                resign_time_saved = resign_time_saved + o.time_saved() as u64;
                resign_squared_error10 = resign_squared_error10 + o.squared_error10() as u64;
            },
            Some(RuleType::Draw) => {
                draw_num = draw_num + 1;
                if !o.correctly_adjudicated() {
                    draw_num_wrong = draw_num_wrong + 1;
                }
                draw_time_saved = draw_time_saved + o.time_saved() as u64;
                draw_squared_error10 = draw_squared_error10 + o.squared_error10() as u64;
            },
            None => {},
        }
        actual_time = actual_time + o.actual.time as u64;
        adjudicated_time = adjudicated_time + o.adjudicated.time as u64;
        i = i + 1;
    }

    Summary {
        games: len as u64,
        resign_num: resign_num,
        resign_num_wrong: resign_num_wrong,
        resign_time_saved: resign_time_saved,
        resign_squared_error10: resign_squared_error10,
        draw_num: draw_num,
        draw_num_wrong: draw_num_wrong,
        draw_time_saved: draw_time_saved,
        draw_squared_error10: draw_squared_error10,
        actual_time: actual_time,
        adjudicated_time: adjudicated_time,
    }
}

fn digit_str(d: u32) -> (r: &'static str)
    requires
        d < 10,
    ensures
        r@ == seq![digit_char_of(d as int)],
{
    if d == 0 {
        proof {
            reveal_strlit("0");
            assert("0"@ =~= seq!['0']);
        }
        "0"
    } else if d == 1 {
        proof {
            reveal_strlit("1");
            assert("1"@ =~= seq!['1']);
        }
        "1"
    } else if d == 2 {
        proof {
            reveal_strlit("2");
            assert("2"@ =~= seq!['2']);
        }
        "2"
    } else if d == 3 {
        proof {
            reveal_strlit("3");
            assert("3"@ =~= seq!['3']);
        }
        "3"
    } else if d == 4 {
        proof {
            reveal_strlit("4");
            assert("4"@ =~= seq!['4']);
        }
        "4"
    } else if d == 5 {
        proof {
            reveal_strlit("5");
            assert("5"@ =~= seq!['5']);
        }
        "5"
    } else if d == 6 {
        proof {
            reveal_strlit("6");
            assert("6"@ =~= seq!['6']);
        }
        "6"
    } else if d == 7 {
        proof {
            reveal_strlit("7");
            assert("7"@ =~= seq!['7']);
        }
        "7"
    } else if d == 8 {
        proof {
            reveal_strlit("8");
            assert("8"@ =~= seq!['8']);
        }
        "8"
    } else {
        proof {
            reveal_strlit("9");
            assert("9"@ =~= seq!['9']);
        }
        "9"
    }
}

/// Appends the decimal digits of `n`, without padding.
fn push_decimal(out: &mut String, n: u32)
    ensures
        final(out)@ == old(out)@ + spec_decimal(n as int),
    decreases n,
{
    if n < 10 {
        out.append(digit_str(n));
        assert(out@ =~= old(out)@ + spec_decimal(n as int));
    } else {
        push_decimal(out, n / 10);
        out.append(digit_str(n % 10));
        assert(out@ =~= old(out)@ + spec_decimal(n as int));
    }
}

/// Appends two decimal digits, zero padded.
fn push_pad2(out: &mut String, n: u32)
    requires
        n < 100,
    ensures
        final(out)@ == old(out)@ + spec_pad2(n as int),
{
    out.append(digit_str(n / 10));
    out.append(digit_str(n % 10));
    assert(out@ =~= old(out)@ + spec_pad2(n as int));
}

/// Appends three decimal digits, zero padded.
fn push_pad3(out: &mut String, n: u32)
    requires
        n < 1000,
    ensures
        final(out)@ == old(out)@ + spec_pad3(n as int),
{
    out.append(digit_str(n / 100));
    out.append(digit_str((n / 10) % 10));
    out.append(digit_str(n % 10));
    assert(out@ =~= old(out)@ + spec_pad3(n as int));
}

/// Renders a millisecond total as `H:MM:SS.mmm` (hours unpadded, minutes
/// and seconds two digits, milliseconds three).
pub fn format_time(milliseconds: u32) -> (r: String)
    ensures
        r@ == spec_format_time(milliseconds as int),
{
    let h = milliseconds / 3600000;
    let m = (milliseconds / 60000) % 60;
    let s = (milliseconds / 1000) % 60;
    let ms = milliseconds % 1000;
    let mut out = String::new();
    push_decimal(&mut out, h);
    proof {
        reveal_strlit(":");
        assert(":"@ =~= seq![':']);
        reveal_strlit(".");
        assert("."@ =~= seq!['.']);
    }
    out.append(":");
    push_pad2(&mut out, m);
    out.append(":");
    push_pad2(&mut out, s);
    out.append(".");
    push_pad3(&mut out, ms);
    assert(out@ =~= spec_format_time(milliseconds as int));
    out
}

} // verus!
