//! The per-move annotation grammar.
//!
//! A comment such as `"-1.91/13 0.031s"` carries the engine's evaluation
//! (two fixed decimal digits, or a mate marker `M<depth>`), a search depth
//! that is consumed but unused, and the time spent on the move.  The
//! grammar is anchored at the start of the text; trailing characters are
//! ignored.  The scanner below is hand written and verified against the
//! spec functions in this module.

use vstd::prelude::*;
use crate::MoveData;

verus! {

/// An ASCII decimal digit.
pub open spec fn is_digit_char(c: char) -> bool {
    48 <= c as u32 && c as u32 <= 57
}

/// The numeric value of an ASCII decimal digit.
pub open spec fn digit_val(c: char) -> int {
    c as u32 - 48
}

/// A Unicode whitespace character (the `White_Space` property).
pub open spec fn is_space_char(c: char) -> bool {
    let u = c as u32;
    (9 <= u && u <= 13) || u == 32 || u == 0x85 || u == 0xa0 || u == 0x1680
        || (0x2000 <= u && u <= 0x200a) || u == 0x2028 || u == 0x2029
        || u == 0x202f || u == 0x205f || u == 0x3000
}

/// Length of the run of ASCII digits starting at position `i`.
pub open spec fn digit_run(s: Seq<char>, i: int) -> int
    decreases s.len() - i when i <= s.len()
{
    if 0 <= i && i < s.len() && is_digit_char(s[i]) {
        1 + digit_run(s, i + 1)
    } else {
        0
    }
}

/// The value of the `n` digits starting at position `i`, read in base ten.
pub open spec fn digits_value(s: Seq<char>, i: int, n: int) -> int
    decreases n
{
    if n <= 0 {
        0
    } else {
        10 * digits_value(s, i, n - 1) + digit_val(s[i + n - 1])
    }
}

/// Powers of ten (used for the positional scaling of the time field).
pub open spec fn pow10(n: int) -> int
    decreases n
{
    if n <= 0 {
        1
    } else {
        10 * pow10(n - 1)
    }
}

pub proof fn lemma_digit_run_facts(s: Seq<char>, i: int)
    requires
        0 <= i <= s.len(),
    ensures
        0 <= digit_run(s, i),
        i + digit_run(s, i) <= s.len(),
        forall|k: int| i <= k < i + digit_run(s, i) ==> is_digit_char(s[k]),
    decreases s.len() - i,
{
    if i < s.len() && is_digit_char(s[i]) {
        lemma_digit_run_facts(s, i + 1);
    }
}

pub proof fn lemma_digits_value_nonneg(s: Seq<char>, i: int, n: int)
    requires
        forall|k: int| i <= k < i + n ==> is_digit_char(s[k]),
    ensures
        0 <= digits_value(s, i, n),
    decreases n,
{
    if n > 0 {
        lemma_digits_value_nonneg(s, i, n - 1);
    }
}

/// Number of characters taken by the optional leading sign.
pub open spec fn sign_len(s: Seq<char>) -> int {
    if s.len() > 0 && (s[0] == '-' || s[0] == '+') {
        1
    } else {
        0
    }
}

/// Whether the annotation carries a negative sign.
pub open spec fn sign_neg(s: Seq<char>) -> bool {
    s.len() > 0 && s[0] == '-'
}

/// The evaluation field starting at position `i`: either a mate marker
/// `M<digits>` (magnitude 10000) or `<digits>.<two digits>` (integer part
/// times 100 plus the fraction).  Yields the magnitude and the position
/// just past the field.
pub open spec fn spec_eval_part(s: Seq<char>, i: int) -> Option<(int, int)> {
    if i < s.len() && s[i] == 'M' {
        let d = digit_run(s, i + 1);
        if d >= 1 {
            Some((10000int, i + 1 + d))
        } else {
            None
        }
    } else {
        let d = digit_run(s, i);
        if d >= 1 && i + d < s.len() && s[i + d] == '.' && digit_run(s, i + d + 1) == 2 {
            Some((100 * digits_value(s, i, d) + digits_value(s, i + d + 1, 2), i + d + 3))
        } else {
            None
        }
    }
}

/// The search-depth field starting at position `i`: a slash, one or more
/// digits, then exactly one whitespace character.  Yields the position
/// just past the whitespace.  The depth's value is consumed but unused.
pub open spec fn spec_depth_part(s: Seq<char>, i: int) -> Option<int> {
    if i < s.len() && s[i] == '/' {
        let d = digit_run(s, i + 1);
        if d >= 1 && i + 1 + d < s.len() && is_space_char(s[i + 1 + d]) {
            Some(i + 2 + d)
        } else {
            None
        }
    } else {
        None
    }
}

/// The time field starting at position `i`: integer seconds, an optional
/// point with one to three fractional digits, then a literal `s`.  Yields
/// the move time in milliseconds; a fraction of length `L` is scaled by
/// `10^(3-L)`.
pub open spec fn spec_time_part(s: Seq<char>, i: int) -> Option<int> {
    let d = digit_run(s, i);
    if d >= 1 {
        let j = i + d;
        if j < s.len() && s[j] == 's' {
            Some(1000 * digits_value(s, i, d))
        } else if j < s.len() && s[j] == '.' {
            let f = digit_run(s, j + 1);
            if 1 <= f && f <= 3 && j + 1 + f < s.len() && s[j + 1 + f] == 's' {
                Some(1000 * digits_value(s, i, d) + digits_value(s, j + 1, f) * pow10(3 - f))
            } else {
                None
            }
        } else {
            None
        }
    } else {
        None
    }
}

/// The whole anchored annotation grammar: optional sign, evaluation,
/// depth, time.  Yields the signed evaluation in centipawns and the move
/// time in milliseconds, both as unbounded integers; `None` on any
/// deviation from the grammar.
pub open spec fn spec_parse_comment(s: Seq<char>) -> Option<(int, int)> {
    match spec_eval_part(s, sign_len(s)) {
        None => None,
        Some(me) => match spec_depth_part(s, me.1) {
            None => None,
            Some(k) => match spec_time_part(s, k) {
                None => None,
                Some(t) => Some((if sign_neg(s) { -me.0 } else { me.0 }, t)),
            },
        },
    }
}

/// Whether the annotation matches the grammar and both values fit the
/// machine representation (`i32` for the evaluation, `u32` milliseconds).
pub open spec fn parse_fits(s: Seq<char>) -> bool {
    match spec_parse_comment(s) {
        Some(et) => -0x7fff_ffff <= et.0 && et.0 <= 0x7fff_ffff && et.1 <= 0xffff_ffff,
        None => false,
    }
}

/// The move record an annotation denotes, when `parse_fits` holds.
pub open spec fn parsed_move(s: Seq<char>) -> MoveData {
    MoveData {
        eval: (spec_parse_comment(s)->0).0 as i32,
        time: (spec_parse_comment(s)->0).1 as u32,
    }
}

pub proof fn lemma_digits_value_mono(s: Seq<char>, i: int, j: int, n: int)
    requires
        0 <= j <= n,
        forall|k: int| i <= k < i + n ==> is_digit_char(s[k]),
    ensures
        digits_value(s, i, j) <= digits_value(s, i, n),
    decreases n,
{
    if j < n {
        lemma_digits_value_mono(s, i, j, n - 1);
        lemma_digits_value_nonneg(s, i, n - 1);
    }
}

fn is_digit_exec(c: char) -> (r: bool)
    ensures
        r == is_digit_char(c),
{
    let u = c as u32;
    48 <= u && u <= 57
}

fn is_space_exec(c: char) -> (r: bool)
    ensures
        r == is_space_char(c),
{
    let u = c as u32;
    (9 <= u && u <= 13) || u == 32 || u == 0x85 || u == 0xa0 || u == 0x1680
        || (0x2000 <= u && u <= 0x200a) || u == 0x2028 || u == 0x2029
        || u == 0x202f || u == 0x205f || u == 0x3000
}

/// Length of the digit run of `s` starting at `from`; `n` is the length
/// of `s` in characters.
pub(crate) fn scan_digits(s: &str, from: usize, n: usize) -> (r: usize)
    requires
        n == s@.len(),
        from <= n,
    ensures
        r == digit_run(s@, from as int),
        from + r <= n,
{
    let mut j = from;
    while j < n && is_digit_exec(s.get_char(j))
        invariant
            n == s@.len(),
            from <= j <= n,
            digit_run(s@, from as int) == j - from + digit_run(s@, j as int),
        decreases n - j,
    {
        j = j + 1;
    }
    j - from
}

/// The value of the `count` digits starting at `from`, or `None` when it
/// exceeds `cap`.
pub(crate) fn digits_to_u64(s: &str, from: usize, count: usize, n: usize, cap: u64) -> (r: Option<u64>)
    requires
        n == s@.len(),
        from + count <= n,
        digit_run(s@, from as int) >= count,
        cap <= 0xffff_ffff,
    ensures
        match r {
            Some(v) => v == digits_value(s@, from as int, count as int) && v <= cap,
            None => digits_value(s@, from as int, count as int) > cap,
        },
{
    proof {
        lemma_digit_run_facts(s@, from as int);
    }
    let mut acc: u64 = 0;
    let mut k: usize = 0;
    while k < count
        invariant
            n == s@.len(),
            from + count <= n,
            0 <= k <= count,
            acc <= cap,
            cap <= 0xffff_ffff,
            acc == digits_value(s@, from as int, k as int),
            forall|j: int| from <= j < from + count ==> is_digit_char(s@[j]),
        decreases count - k,
    {
        let c = s.get_char(from + k);
        let d = (c as u32) - 48;
        assert(is_digit_char(s@[from + k as int]));
        acc = acc * 10 + (d as u64);
        k = k + 1;
        assert(acc == digits_value(s@, from as int, k as int));
        if acc > cap {
            proof {
                lemma_digits_value_mono(s@, from as int, k as int, count as int);
            }
            return None;
        }
    }
    Some(acc)
}

/// Scan the evaluation field at `i`.  On a grammar match, yields the
/// magnitude (`None` when it exceeds `i32::MAX`) and the position just
/// past the field.
fn scan_eval_part(s: &str, i: usize, n: usize) -> (r: Option<(Option<u32>, usize)>)
    requires
        n == s@.len(),
        i <= n,
    ensures
        match spec_eval_part(s@, i as int) {
            Some(me) => (r matches Some(p) && p.1 as int == me.1 && p.1 <= n && (match p.0 {
                Some(v) => v as int == me.0 && me.0 <= 0x7fff_ffff,
                None => me.0 > 0x7fff_ffff,
            })),
            None => r is None,
        },
{
    if i < n && s.get_char(i) == 'M' {
        let d = scan_digits(s, i + 1, n);
        if d == 0 {
            return None;
        }
        Some((Some(10000), i + 1 + d))
    } else {
        let d = scan_digits(s, i, n);
        if d == 0 {
            return None;
        }
        if !(i + d < n) {
            return None;
        }
        if !(s.get_char(i + d) == '.') {
            return None;
        }
        let f = scan_digits(s, i + d + 1, n);
        if f != 2 {
            return None;
        }
        proof {
            lemma_digit_run_facts(s@, i as int);
            lemma_digit_run_facts(s@, i + d + 1);
            lemma_digits_value_nonneg(s@, i + d + 1, 2);
        }
        let fracv = match digits_to_u64(s, i + d + 1, 2, n, 0xffff_ffff) {
            Some(v) => v,
            None => {
                proof {
                    lemma_digits_value_nonneg(s@, i as int, d as int);
                }
                return Some((None, i + d + 3));
            },
        };
        match digits_to_u64(s, i, d, n, 0x7fff_ffff) {
            None => Some((None, i + d + 3)),
            Some(ipv) => {
                let mag = ipv * 100 + fracv;
                if mag <= 0x7fff_ffff {
                    Some((Some(mag as u32), i + d + 3))
                } else {
                    Some((None, i + d + 3))
                }
            },
        }
    }
}

/// Scan the depth field at `i`; yields the position just past its
/// trailing whitespace character.
fn scan_depth_part(s: &str, i: usize, n: usize) -> (r: Option<usize>)
    requires
        n == s@.len(),
        i <= n,
    ensures
        match spec_depth_part(s@, i as int) {
            Some(k) => (r matches Some(v) && v as int == k && v <= n),
            None => r is None,
        },
{
    if i < n && s.get_char(i) == '/' {
        let d = scan_digits(s, i + 1, n);
        if d == 0 {
            return None;
        }
        if i + 1 + d < n && is_space_exec(s.get_char(i + 1 + d)) {
            Some(i + 2 + d)
        } else {
            None
        }
    } else {
        None
    }
}

/// Scan the time field at `i`.  On a grammar match, yields the move time
/// in milliseconds, or `None` when it exceeds `u32::MAX`.
fn scan_time_part(s: &str, i: usize, n: usize) -> (r: Option<Option<u32>>)
    requires
        n == s@.len(),
        i <= n,
    ensures
        match spec_time_part(s@, i as int) {
            Some(t) => (r matches Some(v) && (match v {
                Some(ms) => ms as int == t && t <= 0xffff_ffff,
                None => t > 0xffff_ffff,
            })),
            None => r is None,
        },
{
    let d = scan_digits(s, i, n);
    if d == 0 {
        return None;
    }
    let j = i + d;
    proof {
        lemma_digit_run_facts(s@, i as int);
    }
    if j < n && s.get_char(j) == 's' {
        match digits_to_u64(s, i, d, n, 0xffff_ffff) {
            None => Some(None),
            Some(secs) => {
                let t = secs * 1000;
                if t <= 0xffff_ffff {
                    Some(Some(t as u32))
                } else {
                    Some(None)
                }
            },
        }
    } else if j < n && s.get_char(j) == '.' {
        let f = scan_digits(s, j + 1, n);
        if f == 0 || f > 3 {
            return None;
        }
        if !(j + 1 + f < n) {
            return None;
        }
        if !(s.get_char(j + 1 + f) == 's') {
            return None;
        }
        proof {
            lemma_digit_run_facts(s@, j + 1);
            lemma_digits_value_nonneg(s@, j + 1, f as int);
            assert(pow10(0) == 1);
            assert(pow10(1) == 10);
            assert(pow10(2) == 100);
        }
        let fracv = match digits_to_u64(s, j + 1, f, n, 0xffff_ffff) {
            Some(v) => v,
            None => {
                proof {
                    lemma_digits_value_nonneg(s@, i as int, d as int);
                    // Whatever the fraction length, its scaling factor is
                    // at least 1, so an oversized fraction means an
                    // oversized time.
                    if f == 1 {
                    } else if f == 2 {
                    } else {
                    }
                }
                return Some(None);
            },
        };
        let scaled: u64 = if f == 1 {
            fracv * 100
        } else if f == 2 {
            fracv * 10
        } else {
            fracv
        };
        match digits_to_u64(s, i, d, n, 0xffff_ffff) {
            None => Some(None),
            Some(secs) => {
                let t = secs * 1000 + scaled;
                if t <= 0xffff_ffff {
                    Some(Some(t as u32))
                } else {
                    Some(None)
                }
            },
        }
    } else {
        None
    }
}

/// Parses one per-move annotation into a `MoveData`.
pub struct CommentParser {}

impl CommentParser {
    pub fn new() -> (r: CommentParser) {
        CommentParser {}
    }

    /// Parses `comment` against the anchored annotation grammar.  Returns
    /// the evaluation/time pair exactly when the grammar matches and both
    /// values fit their machine representation; any deviation from the
    /// grammar at the anchor yields an error, with no partial-match
    /// recovery.
    pub fn parse(&self, comment: &str) -> (r: Result<MoveData, ()>)
        ensures
            parse_fits(comment@) ==> r == Ok::<MoveData, ()>(parsed_move(comment@)),
            !parse_fits(comment@) ==> r == Err::<MoveData, ()>(()),
    {
        let n = comment.unicode_len();
        let mut i: usize = 0;
        let mut neg = false;
        if n > 0 {
            let c0 = comment.get_char(0);
            if c0 == '-' {
                neg = true;
                i = 1;
            } else if c0 == '+' {
                i = 1;
            }
        }
        assert(i as int == sign_len(comment@));
        assert(neg == sign_neg(comment@));
        let me = match scan_eval_part(comment, i, n) {
            None => {
                return Err(());
            },
            Some(p) => p,
        };
        let k = match scan_depth_part(comment, me.1, n) {
            None => {
                return Err(());
            },
            Some(v) => v,
        };
        let t = match scan_time_part(comment, k, n) {
            None => {
                return Err(());
            },
            Some(v) => v,
        };
        let mag = match me.0 {
            None => {
                return Err(());
            },
            Some(m) => m,
        };
        let ms = match t {
            None => {
                return Err(());
            },
            Some(v) => v,
        };
        let eval: i32 = if neg {
            -(mag as i32)
        } else {
            mag as i32
        };
        Ok(MoveData { eval: eval, time: ms })
    }
}

} // verus!
