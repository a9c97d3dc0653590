//! Adjudication rule parameters and their textual form.
//!
//! A resignation rule `<eval>/<count>` and a draw rule
//! `<from_move>:<eval>/<count>` are validated at construction; `"none"`
//! stands for a rule that never applies within realistic game lengths,
//! represented by sentinel thresholds of 10000.

use vstd::prelude::*;
use crate::annotation::{
    digit_run, digits_value, digits_to_u64, lemma_digit_run_facts, scan_digits,
};

verus! {

/// An engine resigns if its evaluation is at or below `-eval` centipawns
/// for `count` consecutive of its own moves.
#[derive(Debug)]
pub struct ResignRule {
    pub(crate) eval: i32,
    pub(crate) count: u32,
}

/// The game is drawn if the evaluation stays within `[-eval, eval]` for
/// `count` consecutive full moves, on or after full move `from_move`.
#[derive(Debug)]
pub struct DrawRule {
    pub(crate) from_move: u32,
    pub(crate) eval: i32,
    pub(crate) count: u32,
}

impl ResignRule {
    /// The evaluation threshold, in centipawns.
    pub closed spec fn spec_eval(&self) -> int {
        self.eval as int
    }

    /// The required streak length, in own moves.
    pub closed spec fn spec_count(&self) -> int {
        self.count as int
    }

    /// The parameter invariant: both threshold and streak are positive.
    pub open spec fn wf(&self) -> bool {
        self.spec_eval() > 0 && self.spec_count() > 0
    }

    pub(crate) fn eval_value(&self) -> (r: i32)
        ensures
            r as int == self.spec_eval(),
    {
        self.eval
    }

    pub(crate) fn count_value(&self) -> (r: u32)
        ensures
            r as int == self.spec_count(),
    {
        self.count
    }

    pub fn new(eval: i32, count: u32) -> (r: Result<ResignRule, &'static str>)
        ensures
            eval <= 0 ==> (r matches Err(m) && m@ == "eval is out of range."@),
            eval > 0 && count == 0 ==> (r matches Err(m) && m@ == "count is out of range."@),
            eval > 0 && count > 0 ==> (r matches Ok(rule) && rule.spec_eval() == eval
                && rule.spec_count() == count && rule.wf()),
    {
        if eval <= 0 {
            return Err("eval is out of range.");
        }
        if count == 0 {
            return Err("count is out of range.");
        }
        Ok(ResignRule { eval: eval, count: count })
    }
}

impl DrawRule {
    /// The first full move from which the rule may apply.
    pub closed spec fn spec_from_move(&self) -> int {
        self.from_move as int
    }

    /// The evaluation window, in centipawns.
    pub closed spec fn spec_eval(&self) -> int {
        self.eval as int
    }

    /// The required streak length, in full moves.
    pub closed spec fn spec_count(&self) -> int {
        self.count as int
    }

    /// The parameter invariant: the starting move and the streak are
    /// positive and the window is not negative.
    pub open spec fn wf(&self) -> bool {
        self.spec_from_move() > 0 && self.spec_eval() >= 0 && self.spec_count() > 0
    }

    pub(crate) fn from_move_value(&self) -> (r: u32)
        ensures
            r as int == self.spec_from_move(),
    {
        self.from_move
    }

    pub(crate) fn eval_value(&self) -> (r: i32)
        ensures
            r as int == self.spec_eval(),
    {
        self.eval
    }

    pub(crate) fn count_value(&self) -> (r: u32)
        ensures
            r as int == self.spec_count(),
    {
        self.count
    }

    pub fn new(from_move: u32, eval: i32, count: u32) -> (r: Result<DrawRule, &'static str>)
        ensures
            from_move == 0 ==> (r matches Err(m) && m@ == "from_move is out of range."@),
            from_move > 0 && eval < 0 ==> (r matches Err(m) && m@ == "eval is out of range."@),
            from_move > 0 && eval >= 0 && count == 0 ==> (r matches Err(m)
                && m@ == "count is out of range."@),
            from_move > 0 && eval >= 0 && count > 0 ==> (r matches Ok(rule)
                && rule.spec_from_move() == from_move && rule.spec_eval() == eval
                && rule.spec_count() == count && rule.wf()),
    {
        if from_move == 0 {
            return Err("from_move is out of range.");
        }
        if eval < 0 {
            return Err("eval is out of range.");
        }
        if count == 0 {
            return Err("count is out of range.");
        }
        Ok(DrawRule { from_move: from_move, eval: eval, count: count })
    }
}

#[derive(Debug, PartialEq, Eq, Structural)]
pub enum ResignRuleParsingError {
    BadFormat,
    NonPositiveEval,
    NonPositiveCount,
}

#[derive(Debug, PartialEq, Eq, Structural)]
pub enum DrawRuleParsingError {
    BadFormat,
    NonPositiveFromMove,
    NegativeEval,
    NonPositiveCount,
}

/// The first position at or after `i` holding `c`, or the length of `s`.
pub open spec fn find_char(s: Seq<char>, i: int, c: char) -> int
    decreases s.len() - i when i <= s.len()
{
    if i < 0 || i >= s.len() {
        s.len() as int
    } else if s[i] == c {
        i
    } else {
        find_char(s, i + 1, c)
    }
}

/// The rule text that disables a rule.
pub open spec fn none_str() -> Seq<char> {
    seq!['n', 'o', 'n', 'e']
}

/// Whether the characters `[a, b)` of `s` form a decimal integer with an
/// optional leading sign (`+`, and `-` only when `minus` is allowed).
pub open spec fn int_field_ok(s: Seq<char>, a: int, b: int, minus: bool) -> bool {
    let sl: int = if a < b && (s[a] == '-' || s[a] == '+') { 1 } else { 0 };
    &&& (a < b && s[a] == '-' ==> minus)
    &&& b - a - sl >= 1
    &&& digit_run(s, a + sl) >= b - a - sl
}

/// The signed value of the integer field `[a, b)` of `s`.
pub open spec fn int_field_val(s: Seq<char>, a: int, b: int) -> int {
    let sl: int = if a < b && (s[a] == '-' || s[a] == '+') { 1 } else { 0 };
    let v = digits_value(s, a + sl, b - a - sl);
    if a < b && s[a] == '-' {
        -v
    } else {
        v
    }
}

/// The outcome of reading a resignation rule text, as threshold and
/// streak values: `"none"` yields the sentinel pair, otherwise the two
/// fields around the first `/` are read in order, each failure with its
/// distinct cause.
pub open spec fn spec_resign_rule_parse(s: Seq<char>) -> Result<(int, int), ResignRuleParsingError> {
    if s == none_str() {
        Ok((10000int, 10000int))
    } else {
        let c1 = find_char(s, 0, '/');
        if !(int_field_ok(s, 0, c1, true) && -0x8000_0000 <= int_field_val(s, 0, c1) <= 0x7fff_ffff) {
            Err(ResignRuleParsingError::BadFormat)
        } else if int_field_val(s, 0, c1) <= 0 {
            Err(ResignRuleParsingError::NonPositiveEval)
        } else if c1 == s.len() {
            Err(ResignRuleParsingError::BadFormat)
        } else {
            let c2 = find_char(s, c1 + 1, '/');
            if !(int_field_ok(s, c1 + 1, c2, false) && int_field_val(s, c1 + 1, c2) <= 0xffff_ffff) {
                Err(ResignRuleParsingError::BadFormat)
            } else if int_field_val(s, c1 + 1, c2) == 0 {
                Err(ResignRuleParsingError::NonPositiveCount)
            } else {
                Ok((int_field_val(s, 0, c1), int_field_val(s, c1 + 1, c2)))
            }
        }
    }
}

/// The outcome of reading a draw rule text `<from_move>:<eval>/<count>`:
/// `"none"` yields the sentinel triple.  The fields are cut at the first
/// `:` and, within the following segment, at the first `/`; text beyond
/// a second separator is ignored.
pub open spec fn spec_draw_rule_parse(s: Seq<char>) -> Result<(int, int, int), DrawRuleParsingError> {
    if s == none_str() {
        Ok((10000int, 0int, 10000int))
    } else {
        let c1 = find_char(s, 0, ':');
        if !(int_field_ok(s, 0, c1, false) && int_field_val(s, 0, c1) <= 0xffff_ffff) {
            Err(DrawRuleParsingError::BadFormat)
        } else if int_field_val(s, 0, c1) == 0 {
            Err(DrawRuleParsingError::NonPositiveFromMove)
        } else if c1 == s.len() {
            Err(DrawRuleParsingError::BadFormat)
        } else {
            let c2 = find_char(s, c1 + 1, ':');
            let d1 = find_char(s, c1 + 1, '/');
            let e_end: int = if d1 < c2 { d1 } else { c2 };
            if !(int_field_ok(s, c1 + 1, e_end, true)
                && -0x8000_0000 <= int_field_val(s, c1 + 1, e_end) <= 0x7fff_ffff) {
                Err(DrawRuleParsingError::BadFormat)
            } else if int_field_val(s, c1 + 1, e_end) <= 0 {
                Err(DrawRuleParsingError::NegativeEval)
            } else if d1 >= c2 {
                Err(DrawRuleParsingError::BadFormat)
            } else {
                let d2 = find_char(s, d1 + 1, '/');
                let k_end: int = if d2 < c2 { d2 } else { c2 };
                if !(int_field_ok(s, d1 + 1, k_end, false)
                    && int_field_val(s, d1 + 1, k_end) <= 0xffff_ffff) {
                    Err(DrawRuleParsingError::BadFormat)
                } else if int_field_val(s, d1 + 1, k_end) == 0 {
                    Err(DrawRuleParsingError::NonPositiveCount)
                } else {
                    Ok((int_field_val(s, 0, c1), int_field_val(s, c1 + 1, e_end),
                        int_field_val(s, d1 + 1, k_end)))
                }
            }
        }
    }
}

/// First position of `c` at or after `from`, or `n` when absent.
fn find_char_exec(s: &str, from: usize, c: char, n: usize) -> (r: usize)
    requires
        n == s@.len(),
        from <= n,
    ensures
        r as int == find_char(s@, from as int, c),
        from <= r <= n,
{
    let mut j = from;
    while j < n && s.get_char(j) != c
        invariant
            n == s@.len(),
            from <= j <= n,
            find_char(s@, from as int, c) == find_char(s@, j as int, c),
        decreases n - j,
    {
        j = j + 1;
    }
    j
}

fn is_none_str(s: &str, n: usize) -> (r: bool)
    requires
        n == s@.len(),
    ensures
        r == (s@ == none_str()),
{
    if n != 4 {
        assert(none_str().len() == 4);
        return false;
    }
    let r = s.get_char(0) == 'n' && s.get_char(1) == 'o' && s.get_char(2) == 'n'
        && s.get_char(3) == 'e';
    proof {
        if r {
            assert(s@ =~= none_str());
        }
    }
    r
}

/// Reads the characters `[a, b)` as a signed decimal integer the way
/// `str::parse::<i32>` would: `None` on a malformed field or a value
/// outside the `i32` range.
fn parse_i32_field(s: &str, a: usize, b: usize, n: usize) -> (r: Option<i32>)
    requires
        n == s@.len(),
        a <= b <= n,
    ensures
        ({
            let ok = int_field_ok(s@, a as int, b as int, true)
                && -0x8000_0000 <= int_field_val(s@, a as int, b as int) <= 0x7fff_ffff;
            match r {
                Some(v) => ok && v as int == int_field_val(s@, a as int, b as int),
                None => !ok,
            }
        }),
{
    if a >= b {
        return None;
    }
    let c0 = s.get_char(a);
    let neg = c0 == '-';
    let sl: usize = if c0 == '-' || c0 == '+' {
        1
    } else {
        0
    };
    if b - a == sl {
        return None;
    }
    let run = scan_digits(s, a + sl, n);
    if run < b - a - sl {
        return None;
    }
    let cap: u64 = if neg {
        0x8000_0000
    } else {
        0x7fff_ffff
    };
    match digits_to_u64(s, a + sl, b - a - sl, n, cap) {
        None => {
            proof {
                lemma_digit_run_facts(s@, a + sl);
            }
            None
        },
        Some(mag) => {
            let v: i32 = if neg {
                if mag == 0x8000_0000 {
                    i32::MIN
                } else {
                    -(mag as i32)
                }
            } else {
                mag as i32
            };
            Some(v)
        },
    }
}

/// Reads the characters `[a, b)` as an unsigned decimal integer the way
/// `str::parse::<u32>` would: `None` on a malformed field (a minus sign
/// included) or a value above `u32::MAX`.
fn parse_u32_field(s: &str, a: usize, b: usize, n: usize) -> (r: Option<u32>)
    requires
        n == s@.len(),
        a <= b <= n,
    ensures
        ({
            let ok = int_field_ok(s@, a as int, b as int, false)
                && int_field_val(s@, a as int, b as int) <= 0xffff_ffff;
            match r {
                Some(v) => ok && v as int == int_field_val(s@, a as int, b as int),
                None => !ok,
            }
        }),
{
    if a >= b {
        return None;
    }
    let c0 = s.get_char(a);
    if c0 == '-' {
        return None;
    }
    let sl: usize = if c0 == '+' {
        1
    } else {
        0
    };
    if b - a == sl {
        return None;
    }
    let run = scan_digits(s, a + sl, n);
    if run < b - a - sl {
        return None;
    }
    match digits_to_u64(s, a + sl, b - a - sl, n, 0xffff_ffff) {
        None => {
            proof {
                lemma_digit_run_facts(s@, a + sl);
            }
            None
        },
        Some(mag) => Some(mag as u32),
    }
}

/// Reads a resignation rule text: `"none"` (the sentinel rule that never
/// applies within realistic games) or `<eval>/<count>`, each failure with
/// its distinct cause.
pub fn parse_resign_rule(input: &str) -> (r: Result<ResignRule, ResignRuleParsingError>)
    ensures
        match spec_resign_rule_parse(input@) {
            Ok(ec) => (r matches Ok(rule) && rule.wf() && rule.spec_eval() == ec.0
                && rule.spec_count() == ec.1),
            Err(e) => r == Err::<ResignRule, ResignRuleParsingError>(e),
        },
{
    let n = input.unicode_len();
    if is_none_str(input, n) {
        return Ok(ResignRule { eval: 10000, count: 10000 });
    }
    let c1 = find_char_exec(input, 0, '/', n);
    let ev = match parse_i32_field(input, 0, c1, n) {
        None => {
            return Err(ResignRuleParsingError::BadFormat);
        },
        Some(v) => v,
    };
    if ev <= 0 {
        return Err(ResignRuleParsingError::NonPositiveEval);
    }
    if c1 == n {
        return Err(ResignRuleParsingError::BadFormat);
    }
    let c2 = find_char_exec(input, c1 + 1, '/', n);
    let co = match parse_u32_field(input, c1 + 1, c2, n) {
        None => {
            return Err(ResignRuleParsingError::BadFormat);
        },
        Some(v) => v,
    };
    if co == 0 {
        return Err(ResignRuleParsingError::NonPositiveCount);
    }
    Ok(ResignRule { eval: ev, count: co })
}

/// Reads a draw rule text: `"none"` (the sentinel rule that never applies
/// within realistic games) or `<from_move>:<eval>/<count>`, each failure
/// with its distinct cause.
pub fn parse_draw_rule(input: &str) -> (r: Result<DrawRule, DrawRuleParsingError>)
    ensures
        match spec_draw_rule_parse(input@) {
            Ok(fec) => (r matches Ok(rule) && rule.wf() && rule.spec_from_move() == fec.0
                && rule.spec_eval() == fec.1 && rule.spec_count() == fec.2),
            Err(e) => r == Err::<DrawRule, DrawRuleParsingError>(e),
        },
{
    let n = input.unicode_len();
    if is_none_str(input, n) {
        return Ok(DrawRule { from_move: 10000, eval: 0, count: 10000 });
    }
    let c1 = find_char_exec(input, 0, ':', n);
    let fm = match parse_u32_field(input, 0, c1, n) {
        None => {
            return Err(DrawRuleParsingError::BadFormat);
        },
        Some(v) => v,
    };
    if fm == 0 {
        return Err(DrawRuleParsingError::NonPositiveFromMove);
    }
    if c1 == n {
        return Err(DrawRuleParsingError::BadFormat);
    }
    let c2 = find_char_exec(input, c1 + 1, ':', n);
    let d1 = find_char_exec(input, c1 + 1, '/', n);
    let e_end: usize = if d1 < c2 {
        d1
    } else {
        c2
    };
    let ev = match parse_i32_field(input, c1 + 1, e_end, n) {
        None => {
            return Err(DrawRuleParsingError::BadFormat);
        },
        Some(v) => v,
    };
    if ev <= 0 {
        return Err(DrawRuleParsingError::NegativeEval);
    }
    if d1 >= c2 {
        return Err(DrawRuleParsingError::BadFormat);
    }
    let d2 = find_char_exec(input, d1 + 1, '/', n);
    let k_end: usize = if d2 < c2 {
        d2
    } else {
        c2
    };
    let co = match parse_u32_field(input, d1 + 1, k_end, n) {
        None => {
            return Err(DrawRuleParsingError::BadFormat);
        },
        Some(v) => v,
    };
    if co == 0 {
        return Err(DrawRuleParsingError::NonPositiveCount);
    }
    Ok(DrawRule { from_move: fm, eval: ev, count: co })
}

} // verus!
