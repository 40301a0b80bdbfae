//! The textual control surface: parsing of inbound command lines and
//! their application to the shared crane and server settings.
//!
//! A command line is ASCII bytes, whitespace-tokenized, with a
//! case-sensitive keyword in front. Numeric fields are fixed-point
//! decimals (optional sign, digits, optional fraction; fraction digits
//! beyond the micro-unit grain are dropped). A malformed line yields a
//! local error and no state change.
use vstd::prelude::*;
use vstd::slice::slice_subrange;

use crate::crane::Crane;
use crate::fixed::div_trunc;
use crate::fixed::div_trunc_i128;
use crate::ik::ik_reachable;
use crate::ik::IkError;

verus! {

/// Snapshot cadence settings shared by every connection: the refresh
/// interval in milliseconds, 16 ms until a client changes it.
pub struct ServerSettings {
    pub refresh_ms: u64,
}

impl ServerSettings {
    pub fn new() -> (r: ServerSettings)
        ensures
            r.refresh_ms == 16,
    {
        ServerSettings { refresh_ms: 16 }
    }

    /// Replaces the snapshot interval; the next emission cycle reads it.
    pub fn set_refresh(&mut self, ms: u32)
        ensures
            final(self).refresh_ms == ms as u64,
    {
        self.refresh_ms = ms as u64;
    }
}

/// A decoded command line.
#[derive(Clone, Copy, Debug, PartialEq, Eq, Structural)]
pub enum Command {
    SetCraneActuatorSetpoints {
        swing_deg: i64,
        lift_m: i64,
        elbow_deg: i64,
        wrist_deg: i64,
        gripper_m: i64,
    },
    SetCraneSetpoint { x: i64, y: i64, z: i64 },
    SetRefresh { ms: u32 },
}

/// Rejection of a command line, field by field.
#[derive(Clone, Copy, Debug, PartialEq, Eq, Structural)]
pub enum ParseError {
    InvalidCommand,
    InvalidSwing,
    InvalidLift,
    InvalidElbow,
    InvalidWrist,
    InvalidGripper,
    InvalidX,
    InvalidY,
    InvalidZ,
    InvalidRefresh,
}

impl ParseError {
    /// The report a caller logs for this rejection.
    pub fn message(&self) -> (m: &'static str)
        ensures
            m@ == match *self {
                ParseError::InvalidCommand => "Invalid command"@,
                ParseError::InvalidSwing => "Invalid swing degrees (pos. 1)"@,
                ParseError::InvalidLift => "Invalid lift mm (pos. 2)"@,
                ParseError::InvalidElbow => "Invalid elbow degrees (pos. 3)"@,
                ParseError::InvalidWrist => "Invalid wrist degrees (pos. 4)"@,
                ParseError::InvalidGripper => "Invalid gripper mm (pos. 5)"@,
                ParseError::InvalidX => "Invalid x coordinate"@,
                ParseError::InvalidY => "Invalid y coordinate"@,
                ParseError::InvalidZ => "Invalid z coordinate"@,
                ParseError::InvalidRefresh => "Invalid ms refresh value"@,
            },
    {
        match *self {
            ParseError::InvalidCommand => "Invalid command",
            ParseError::InvalidSwing => "Invalid swing degrees (pos. 1)",
            ParseError::InvalidLift => "Invalid lift mm (pos. 2)",
            ParseError::InvalidElbow => "Invalid elbow degrees (pos. 3)",
            ParseError::InvalidWrist => "Invalid wrist degrees (pos. 4)",
            ParseError::InvalidGripper => "Invalid gripper mm (pos. 5)",
            ParseError::InvalidX => "Invalid x coordinate",
            ParseError::InvalidY => "Invalid y coordinate",
            ParseError::InvalidZ => "Invalid z coordinate",
            ParseError::InvalidRefresh => "Invalid ms refresh value",
        }
    }
}

/// ASCII whitespace, as the tokenizer sees it.
pub open spec fn is_ws(c: u8) -> bool {
    c == 32 || c == 9 || c == 10 || c == 13
}

/// An ASCII decimal digit.
pub open spec fn is_digit(c: u8) -> bool {
    48 <= c <= 57
}

/// End of the token starting at `i`: the first whitespace position at
/// or after `i`, or the end of the line.
pub open spec fn token_end(s: Seq<u8>, i: int) -> int
    decreases s.len() - i,
{
    if i < 0 || i >= s.len() || is_ws(s[i]) {
        i
    } else {
        token_end(s, i + 1)
    }
}

/// `token_end` stays within the line, covers no whitespace, and stops
/// at whitespace or the end.
pub proof fn lemma_token_end_bounds(s: Seq<u8>, i: int)
    requires
        0 <= i <= s.len(),
    ensures
        i <= token_end(s, i) <= s.len(),
        forall|k: int| i <= k < token_end(s, i) ==> !is_ws(s[k]),
        token_end(s, i) < s.len() ==> is_ws(s[token_end(s, i)]),
    decreases s.len() - i,
{
    if i < s.len() && !is_ws(s[i]) {
        lemma_token_end_bounds(s, i + 1);
    }
}

/// A scan that saw no whitespace from `i` up to `j`, and whitespace or
/// the end at `j`, found exactly `token_end`.
pub proof fn lemma_token_end_char(s: Seq<u8>, i: int, j: int)
    requires
        0 <= i <= j <= s.len(),
        forall|k: int| i <= k < j ==> !is_ws(s[k]),
        j < s.len() ==> is_ws(s[j]),
    ensures
        token_end(s, i) == j,
    decreases j - i,
{
    if i < j {
        lemma_token_end_char(s, i + 1, j);
    }
}

/// The whitespace-separated tokens of the line, from position `i` on.
pub open spec fn tokens_from(s: Seq<u8>, i: int) -> Seq<Seq<u8>>
    decreases s.len() - i,
    via tokens_from_dec
{
    if i < 0 || i >= s.len() {
        Seq::empty()
    } else if is_ws(s[i]) {
        tokens_from(s, i + 1)
    } else {
        seq![s.subrange(i, token_end(s, i))] + tokens_from(s, token_end(s, i))
    }
}

#[via_fn]
proof fn tokens_from_dec(s: Seq<u8>, i: int) {
    if 0 <= i < s.len() && !is_ws(s[i]) {
        lemma_token_end_bounds(s, i);
    }
}

/// The whitespace-separated tokens of the whole line.
pub open spec fn spec_tokens(s: Seq<u8>) -> Seq<Seq<u8>> {
    tokens_from(s, 0)
}

/// The tokens a list of index ranges carves out of the line.
pub open spec fn ranges_tokens(s: Seq<u8>, r: Seq<(usize, usize)>) -> Seq<Seq<u8>> {
    r.map_values(|p: (usize, usize)| s.subrange(p.0 as int, p.1 as int))
}

fn is_ws_byte(c: u8) -> (r: bool)
    ensures
        r == is_ws(c),
{
    c == 32 || c == 9 || c == 10 || c == 13
}

fn is_digit_byte(c: u8) -> (r: bool)
    ensures
        r == is_digit(c),
{
    48 <= c && c <= 57
}

/// Carves the line into its whitespace-separated tokens, as index
/// ranges into the line.
fn token_ranges(s: &[u8]) -> (r: Vec<(usize, usize)>)
    ensures
        ranges_tokens(s@, r@) == spec_tokens(s@),
        forall|k: int| 0 <= k < r@.len() ==> ((#[trigger] r@[k]).0 <= r@[k].1 <= s@.len()),
{
    let n = s.len();
    let mut out: Vec<(usize, usize)> = Vec::new();
    let mut i: usize = 0;
    while i < n
        invariant
            0 <= i <= n,
            n == s@.len(),
            spec_tokens(s@) == ranges_tokens(s@, out@) + tokens_from(s@, i as int),
            forall|k: int|
                0 <= k < out@.len() ==> ((#[trigger] out@[k]).0 <= out@[k].1 <= s@.len()),
        decreases n - i,
    {
        if is_ws_byte(s[i]) {
            i = i + 1;
        } else {
            let start = i;
            let mut j = i + 1;
            while j < n && !is_ws_byte(s[j])
                invariant
                    start < j <= n,
                    n == s@.len(),
                    forall|k: int| start <= k < j ==> !is_ws(s@[k]),
                decreases n - j,
            {
                j = j + 1;
            }
            proof {
                lemma_token_end_char(s@, start as int, j as int);
                assert(ranges_tokens(s@, out@.push((start, j))) =~= ranges_tokens(s@, out@)
                    + seq![s@.subrange(start as int, j as int)]);
            }
            out.push((start, j));
            i = j;
        }
    }
    proof {
        assert(tokens_from(s@, i as int) =~= Seq::<Seq<u8>>::empty());
        assert(spec_tokens(s@) =~= ranges_tokens(s@, out@));
    }
    out
}

/// The value of a digit string, most significant first.
pub open spec fn digits_val(s: Seq<u8>) -> int
    decreases s.len(),
{
    if s.len() == 0 {
        0
    } else {
        digits_val(s.subrange(0, s.len() - 1)) * 10 + (s[s.len() - 1] - 48)
    }
}

/// Whether every byte is a decimal digit.
pub open spec fn all_digits(s: Seq<u8>) -> bool {
    forall|k: int| 0 <= k < s.len() ==> is_digit(s[k])
}

/// Powers of ten.
pub open spec fn pow10(n: nat) -> int
    decreases n,
{
    if n == 0 {
        1
    } else {
        10 * pow10((n - 1) as nat)
    }
}

proof fn lemma_digits_step(s: Seq<u8>, m: int)
    requires
        0 <= m < s.len(),
    ensures
        digits_val(s.subrange(0, m + 1)) == digits_val(s.subrange(0, m)) * 10 + (s[m] - 48),
{
    let t = s.subrange(0, m + 1);
    assert(t.subrange(0, t.len() - 1) =~= s.subrange(0, m));
}

proof fn lemma_digits_val_nonneg(s: Seq<u8>)
    requires
        all_digits(s),
    ensures
        digits_val(s) >= 0,
    decreases s.len(),
{
    if s.len() > 0 {
        assert(all_digits(s.subrange(0, s.len() - 1)));
        lemma_digits_val_nonneg(s.subrange(0, s.len() - 1));
    }
}

proof fn lemma_digits_val_bound(s: Seq<u8>)
    requires
        all_digits(s),
    ensures
        0 <= digits_val(s) < pow10(s.len()),
    decreases s.len(),
{
    if s.len() > 0 {
        assert(all_digits(s.subrange(0, s.len() - 1)));
        lemma_digits_val_bound(s.subrange(0, s.len() - 1));
    }
}

/// Saturation of a digit value at one past `i64::MAX`, where the
/// accumulating parser stops caring about the exact value.
pub open spec fn capped(v: int) -> int {
    if v > 9_223_372_036_854_775_808int {
        9_223_372_036_854_775_808int
    } else {
        v
    }
}

/// The sign a literal carries: `-1` for a leading minus.
pub open spec fn lit_sign(s: Seq<u8>) -> int {
    if s.len() > 0 && s[0] == 45 {
        -1
    } else {
        1
    }
}

/// The literal with any sign byte removed.
pub open spec fn lit_body(s: Seq<u8>) -> Seq<u8> {
    if s.len() > 0 && (s[0] == 45 || s[0] == 43) {
        s.subrange(1, s.len() as int)
    } else {
        s
    }
}

/// Index of the first decimal point, or the length if there is none.
pub open spec fn dot_pos(s: Seq<u8>) -> int
    decreases s.len(),
{
    if s.len() == 0 {
        0
    } else if s[0] == 46 {
        0
    } else {
        1 + dot_pos(s.subrange(1, s.len() as int))
    }
}

pub proof fn lemma_dot_pos_char(s: Seq<u8>, j: int)
    requires
        0 <= j <= s.len(),
        forall|k: int| 0 <= k < j ==> s[k] != 46,
        j < s.len() ==> s[j] == 46,
    ensures
        dot_pos(s) == j,
    decreases s.len(),
{
    if s.len() > 0 && s[0] != 46 {
        let t = s.subrange(1, s.len() as int);
        assert(forall|k: int| 0 <= k < j - 1 ==> t[k] != 46);
        lemma_dot_pos_char(t, j - 1);
    }
}

/// The digits before the first decimal point.
pub open spec fn lit_int_part(s: Seq<u8>) -> Seq<u8> {
    lit_body(s).subrange(0, dot_pos(lit_body(s)))
}

/// The digits after the first decimal point, if any.
pub open spec fn lit_frac_part(s: Seq<u8>) -> Seq<u8> {
    let b = lit_body(s);
    if dot_pos(b) < b.len() {
        b.subrange(dot_pos(b) + 1, b.len() as int)
    } else {
        Seq::empty()
    }
}

/// The fraction in micro-units: the first six fraction digits, padded
/// with zeros on the right; further digits are dropped.
pub open spec fn frac_micro(frac: Seq<u8>) -> int {
    if frac.len() >= 6 {
        digits_val(frac.subrange(0, 6))
    } else {
        digits_val(frac) * pow10((6 - frac.len()) as nat)
    }
}

/// Shape of a fixed-point decimal literal: an optional sign, then
/// digits with at most one decimal point among them, at least one
/// digit in all.
pub open spec fn fixed_lit_wf(s: Seq<u8>) -> bool {
    &&& all_digits(lit_int_part(s))
    &&& all_digits(lit_frac_part(s))
    &&& lit_int_part(s).len() + lit_frac_part(s).len() > 0
}

/// The literal's magnitude in micro-units.
pub open spec fn fixed_lit_mag(s: Seq<u8>) -> int {
    digits_val(lit_int_part(s)) * 1_000_000 + frac_micro(lit_frac_part(s))
}

/// A literal this crate accepts: well-shaped, with a magnitude the
/// fixed-point range can hold.
pub open spec fn fixed_lit_ok(s: Seq<u8>) -> bool {
    fixed_lit_wf(s) && fixed_lit_mag(s) <= i64::MAX as int
}

/// The literal's fixed-point value.
pub open spec fn fixed_lit_val(s: Seq<u8>) -> int {
    lit_sign(s) * fixed_lit_mag(s)
}

/// Parses one fixed-point decimal field. Yields the value exactly when
/// the field is well-shaped and within range.
#[verifier::rlimit(50)]
pub fn parse_fixed(tok: &[u8]) -> (r: Option<i64>)
    ensures
        match r {
            Some(v) => fixed_lit_ok(tok@) && v as int == fixed_lit_val(tok@),
            None => !fixed_lit_ok(tok@),
        },
{
    let n = tok.len();
    let mut i: usize = 0;
    let mut neg = false;
    if n > 0 && (tok[0] == 43 || tok[0] == 45) {
        neg = tok[0] == 45;
        i = 1;
    }
    let ghost body = lit_body(tok@);
    proof {
        assert(body =~= tok@.subrange(i as int, n as int));
    }
    // find the first decimal point
    let mut j = i;
    while j < n && tok[j] != 46
        invariant
            i <= j <= n,
            n == tok@.len(),
            forall|k: int| i <= k < j ==> tok@[k] != 46,
        decreases n - j,
    {
        j = j + 1;
    }
    proof {
        assert(forall|k: int| 0 <= k < j - i ==> body[k] != 46);
        lemma_dot_pos_char(body, j - i);
        assert(lit_int_part(tok@) =~= tok@.subrange(i as int, j as int));
    }
    // validate the digits of both parts
    let mut k = i;
    while k < j
        invariant
            i <= k <= j <= n,
            n == tok@.len(),
            lit_int_part(tok@) == tok@.subrange(i as int, j as int),
            forall|m: int| i <= m < k ==> is_digit(tok@[m]),
        decreases j - k,
    {
        if !is_digit_byte(tok[k]) {
            proof {
                assert(lit_int_part(tok@)[k - i] == tok@[k as int]);
            }
            return None;
        }
        k = k + 1;
    }
    let frac_start = if j < n {
        j + 1
    } else {
        n
    };
    proof {
        assert(lit_frac_part(tok@) =~= tok@.subrange(frac_start as int, n as int));
    }
    let mut k2 = frac_start;
    while k2 < n
        invariant
            frac_start <= k2 <= n,
            n == tok@.len(),
            lit_frac_part(tok@) == tok@.subrange(frac_start as int, n as int),
            forall|m: int| frac_start <= m < k2 ==> is_digit(tok@[m]),
        decreases n - k2,
    {
        if !is_digit_byte(tok[k2]) {
            proof {
                assert(lit_frac_part(tok@)[k2 - frac_start] == tok@[k2 as int]);
            }
            return None;
        }
        k2 = k2 + 1;
    }
    if j == i && frac_start == n {
        proof {
            assert(lit_int_part(tok@).len() == 0);
            assert(lit_frac_part(tok@).len() == 0);
        }
        return None;
    }
    // accumulate the integer part, saturating one past the range
    let ghost ipart = lit_int_part(tok@);
    let mut acc: u128 = 0;
    let mut m: usize = i;
    while m < j
        invariant
            i <= m <= j <= n,
            n == tok@.len(),
            ipart =~= tok@.subrange(i as int, j as int),
            all_digits(ipart),
            acc as int == capped(digits_val(ipart.subrange(0, m - i))),
            acc <= 9_223_372_036_854_775_808u128,
        decreases j - m,
    {
        proof {
            assert(ipart[m - i] == tok@[m as int]);
            lemma_digits_step(ipart, m - i);
            lemma_digits_val_nonneg(ipart.subrange(0, m - i));
        }
        let d = tok[m] - 48;
        let next = acc * 10 + (d as u128);
        if next > 9_223_372_036_854_775_808u128 {
            acc = 9_223_372_036_854_775_808u128;
        } else {
            acc = next;
        }
        m = m + 1;
    }
    proof {
        assert(ipart.subrange(0, j - i) =~= ipart);
        lemma_digits_val_nonneg(ipart);
    }
    // accumulate up to six fraction digits exactly
    let ghost fpart = lit_frac_part(tok@);
    let flen = n - frac_start;
    let take = if flen > 6 {
        6
    } else {
        flen
    };
    let mut facc: u64 = 0;
    let mut q: usize = 0;
    while q < take
        invariant
            0 <= q <= take <= 6,
            take <= flen,
            flen == n - frac_start,
            frac_start + flen == n,
            n == tok@.len(),
            fpart =~= tok@.subrange(frac_start as int, n as int),
            all_digits(fpart),
            facc as int == digits_val(fpart.subrange(0, q as int)),
            (facc as int) < pow10(q as nat),
        decreases take - q,
    {
        proof {
            assert(fpart[q as int] == tok@[(frac_start + q) as int]);
            lemma_digits_step(fpart, q as int);
            lemma_digits_val_nonneg(fpart.subrange(0, q as int));
            assert(pow10((q + 1) as nat) == 10 * pow10(q as nat));
            assert(facc as int * 10 + (tok@[(frac_start + q) as int] - 48) < 10 * pow10(
                q as nat,
            ));
            assert(pow10(q as nat) <= 1_000_000) by {
                reveal_with_fuel(pow10, 8);
            }
        }
        let d = tok[frac_start + q] - 48;
        facc = facc * 10 + (d as u64);
        q = q + 1;
    }
    proof {
        assert(pow10(take as nat) <= 1_000_000) by {
            reveal_with_fuel(pow10, 8);
        }
    }
    proof {
        reveal_with_fuel(pow10, 8);
        if flen >= 6 {
            assert(fpart.subrange(0, 6) =~= fpart.subrange(0, take as int));
        } else {
            assert(fpart.subrange(0, take as int) =~= fpart);
        }
        lemma_digits_val_bound(fpart.subrange(0, take as int));
    }
    let fm: u64 = if take == 0 {
        0
    } else if take == 1 {
        facc * 100_000
    } else if take == 2 {
        facc * 10_000
    } else if take == 3 {
        facc * 1_000
    } else if take == 4 {
        facc * 100
    } else if take == 5 {
        facc * 10
    } else {
        facc
    };
    proof {
        reveal_with_fuel(pow10, 8);
        assert(fm as int == frac_micro(fpart));
        assert(fm <= 999_999);
    }
    let total: u128 = acc * 1_000_000 + (fm as u128);
    if total > 9_223_372_036_854_775_807u128 {
        return None;
    }
    let v = total as i64;
    proof {
        assert(acc < 9_223_372_036_854_775_808u128);
        assert(digits_val(ipart) == acc as int);
        assert(fixed_lit_mag(tok@) == (acc as int) * 1_000_000 + fm as int);
        assert(total as int == fixed_lit_mag(tok@));
        assert(fixed_lit_ok(tok@));
        assert(lit_sign(tok@) == if neg {
            -1int
        } else {
            1int
        });
    }
    if neg {
        Some(-v)
    } else {
        Some(v)
    }
}

/// Shape and range of an unsigned interval field: an optional plus,
/// then digits, with a value no wider than `u32`.
pub open spec fn u32_lit_body(s: Seq<u8>) -> Seq<u8> {
    if s.len() > 0 && s[0] == 43 {
        s.subrange(1, s.len() as int)
    } else {
        s
    }
}

/// A refresh field this crate accepts.
pub open spec fn u32_lit_ok(s: Seq<u8>) -> bool {
    &&& all_digits(u32_lit_body(s))
    &&& u32_lit_body(s).len() > 0
    &&& digits_val(u32_lit_body(s)) <= u32::MAX as int
}

/// The refresh field's value.
pub open spec fn u32_lit_val(s: Seq<u8>) -> int {
    digits_val(u32_lit_body(s))
}

/// Parses one unsigned decimal field into a `u32`.
pub fn parse_u32(tok: &[u8]) -> (r: Option<u32>)
    ensures
        match r {
            Some(v) => u32_lit_ok(tok@) && v as int == u32_lit_val(tok@),
            None => !u32_lit_ok(tok@),
        },
{
    let n = tok.len();
    let mut i: usize = 0;
    if n > 0 && tok[0] == 43 {
        i = 1;
    }
    let ghost body = u32_lit_body(tok@);
    proof {
        assert(body =~= tok@.subrange(i as int, n as int));
    }
    if i == n {
        return None;
    }
    let mut k = i;
    while k < n
        invariant
            i <= k <= n,
            n == tok@.len(),
            u32_lit_body(tok@) == tok@.subrange(i as int, n as int),
            forall|m: int| i <= m < k ==> is_digit(tok@[m]),
        decreases n - k,
    {
        if !is_digit_byte(tok[k]) {
            proof {
                assert(u32_lit_body(tok@)[k - i] == tok@[k as int]);
            }
            return None;
        }
        k = k + 1;
    }
    let mut acc: u128 = 0;
    let mut m: usize = i;
    while m < n
        invariant
            i <= m <= n,
            n == tok@.len(),
            body =~= tok@.subrange(i as int, n as int),
            all_digits(body),
            acc as int == capped(digits_val(body.subrange(0, m - i))),
            acc <= 9_223_372_036_854_775_808u128,
        decreases n - m,
    {
        proof {
            assert(body[m - i] == tok@[m as int]);
            lemma_digits_step(body, m - i);
            lemma_digits_val_nonneg(body.subrange(0, m - i));
        }
        let d = tok[m] - 48;
        let next = acc * 10 + (d as u128);
        if next > 9_223_372_036_854_775_808u128 {
            acc = 9_223_372_036_854_775_808u128;
        } else {
            acc = next;
        }
        m = m + 1;
    }
    proof {
        assert(body.subrange(0, n - i) =~= body);
        lemma_digits_val_nonneg(body);
    }
    if acc > 4_294_967_295u128 {
        return None;
    }
    Some(acc as u32)
}


/// The command keyword `setactuatorsetpoints`, as bytes.
pub open spec fn kw_setactuatorsetpoints() -> Seq<u8> {
    seq![
        115u8, 101u8, 116u8, 97u8, 99u8, 116u8, 117u8, 97u8, 116u8, 111u8, 114u8, 115u8, 101u8,
        116u8, 112u8, 111u8, 105u8, 110u8, 116u8, 115u8,
    ]
}

/// The command keyword `setpoint`, as bytes.
pub open spec fn kw_setpoint() -> Seq<u8> {
    seq![115u8, 101u8, 116u8, 112u8, 111u8, 105u8, 110u8, 116u8]
}

/// The command keyword `refresh`, as bytes.
pub open spec fn kw_refresh() -> Seq<u8> {
    seq![114u8, 101u8, 102u8, 114u8, 101u8, 115u8, 104u8]
}

fn bytes_eq(a: &[u8], b: &[u8]) -> (r: bool)
    ensures
        r == (a@ == b@),
{
    let n = a.len();
    if n != b.len() {
        return false;
    }
    let mut k: usize = 0;
    while k < n
        invariant
            0 <= k <= n,
            n == a@.len(),
            n == b@.len(),
            forall|m: int| 0 <= m < k ==> a@[m] == b@[m],
        decreases n - k,
    {
        if a[k] != b[k] {
            return false;
        }
        k = k + 1;
    }
    proof {
        assert(a@ =~= b@);
    }
    true
}

/// Carries a millimeter field to meters: division by a thousand,
/// rounding toward zero.
fn mm_to_m(v: i64) -> (r: i64)
    ensures
        r as int == div_trunc(v as int, 1000),
{
    let q = div_trunc_i128(v as i128, 1000);
    proof {
        crate::fixed::lemma_trunc_magnitude_ordered(v as int, 9_223_372_036_854_775_808int, 1000);
    }
    q as i64
}

/// What a command line means: the unique decoding of the token list,
/// or the rejection the first bad field earns. The two millimeter
/// fields of `setactuatorsetpoints` are carried to meters here.
pub open spec fn parse_spec(s: Seq<u8>) -> Result<Command, ParseError> {
    let toks = spec_tokens(s);
    if toks.len() == 6 && toks[0] == kw_setactuatorsetpoints() {
        if !fixed_lit_ok(toks[1]) {
            Err(ParseError::InvalidSwing)
        } else if !fixed_lit_ok(toks[2]) {
            Err(ParseError::InvalidLift)
        } else if !fixed_lit_ok(toks[3]) {
            Err(ParseError::InvalidElbow)
        } else if !fixed_lit_ok(toks[4]) {
            Err(ParseError::InvalidWrist)
        } else if !fixed_lit_ok(toks[5]) {
            Err(ParseError::InvalidGripper)
        } else {
            Ok(
                Command::SetCraneActuatorSetpoints {
                    swing_deg: fixed_lit_val(toks[1]) as i64,
                    lift_m: div_trunc(fixed_lit_val(toks[2]), 1000) as i64,
                    elbow_deg: fixed_lit_val(toks[3]) as i64,
                    wrist_deg: fixed_lit_val(toks[4]) as i64,
                    gripper_m: div_trunc(fixed_lit_val(toks[5]), 1000) as i64,
                },
            )
        }
    } else if toks.len() == 4 && toks[0] == kw_setpoint() {
        if !fixed_lit_ok(toks[1]) {
            Err(ParseError::InvalidX)
        } else if !fixed_lit_ok(toks[2]) {
            Err(ParseError::InvalidY)
        } else if !fixed_lit_ok(toks[3]) {
            Err(ParseError::InvalidZ)
        } else {
            Ok(
                Command::SetCraneSetpoint {
                    x: fixed_lit_val(toks[1]) as i64,
                    y: fixed_lit_val(toks[2]) as i64,
                    z: fixed_lit_val(toks[3]) as i64,
                },
            )
        }
    } else if toks.len() == 2 && toks[0] == kw_refresh() {
        if !u32_lit_ok(toks[1]) {
            Err(ParseError::InvalidRefresh)
        } else {
            Ok(Command::SetRefresh { ms: u32_lit_val(toks[1]) as u32 })
        }
    } else {
        Err(ParseError::InvalidCommand)
    }
}

/// Decodes one command line; a malformed line yields the rejection and
/// nothing else.
pub fn parse_command(line: &[u8]) -> (r: Result<Command, ParseError>)
    ensures
        r == parse_spec(line@),
{
    let ranges = token_ranges(line);
    let ghost toks = spec_tokens(line@);
    let n = ranges.len();
    if n == 6 {
        let kw = [
            115u8, 101u8, 116u8, 97u8, 99u8, 116u8, 117u8, 97u8, 116u8, 111u8, 114u8, 115u8,
            101u8, 116u8, 112u8, 111u8, 105u8, 110u8, 116u8, 115u8,
        ];
        proof {
            assert(kw@ =~= kw_setactuatorsetpoints());
        }
        let p0 = ranges[0];
        let t0 = slice_subrange(line, p0.0, p0.1);
        proof {
            assert(toks[0] == line@.subrange(p0.0 as int, p0.1 as int));
        }
        if !bytes_eq(t0, kw.as_slice()) {
            return Err(ParseError::InvalidCommand);
        }
        let p1 = ranges[1];
        let swing_deg = match parse_fixed(slice_subrange(line, p1.0, p1.1)) {
            Some(v) => v,
            None => {
                proof {
                    assert(toks[1] == line@.subrange(p1.0 as int, p1.1 as int));
                }
                return Err(ParseError::InvalidSwing);
            },
        };
        let p2 = ranges[2];
        let lift_mm = match parse_fixed(slice_subrange(line, p2.0, p2.1)) {
            Some(v) => v,
            None => {
                proof {
                    assert(toks[2] == line@.subrange(p2.0 as int, p2.1 as int));
                }
                return Err(ParseError::InvalidLift);
            },
        };
        let p3 = ranges[3];
        let elbow_deg = match parse_fixed(slice_subrange(line, p3.0, p3.1)) {
            Some(v) => v,
            None => {
                proof {
                    assert(toks[3] == line@.subrange(p3.0 as int, p3.1 as int));
                }
                return Err(ParseError::InvalidElbow);
            },
        };
        let p4 = ranges[4];
        let wrist_deg = match parse_fixed(slice_subrange(line, p4.0, p4.1)) {
            Some(v) => v,
            None => {
                proof {
                    assert(toks[4] == line@.subrange(p4.0 as int, p4.1 as int));
                }
                return Err(ParseError::InvalidWrist);
            },
        };
        let p5 = ranges[5];
        let gripper_mm = match parse_fixed(slice_subrange(line, p5.0, p5.1)) {
            Some(v) => v,
            None => {
                proof {
                    assert(toks[5] == line@.subrange(p5.0 as int, p5.1 as int));
                }
                return Err(ParseError::InvalidGripper);
            },
        };
        proof {
            assert(toks[1] == line@.subrange(p1.0 as int, p1.1 as int));
            assert(toks[2] == line@.subrange(p2.0 as int, p2.1 as int));
            assert(toks[3] == line@.subrange(p3.0 as int, p3.1 as int));
            assert(toks[4] == line@.subrange(p4.0 as int, p4.1 as int));
            assert(toks[5] == line@.subrange(p5.0 as int, p5.1 as int));
        }
        Ok(
            Command::SetCraneActuatorSetpoints {
                swing_deg,
                lift_m: mm_to_m(lift_mm),
                elbow_deg,
                wrist_deg,
                gripper_m: mm_to_m(gripper_mm),
            },
        )
    } else if n == 4 {
        let kw = [115u8, 101u8, 116u8, 112u8, 111u8, 105u8, 110u8, 116u8];
        proof {
            assert(kw@ =~= kw_setpoint());
        }
        let p0 = ranges[0];
        let t0 = slice_subrange(line, p0.0, p0.1);
        proof {
            assert(toks[0] == line@.subrange(p0.0 as int, p0.1 as int));
        }
        if !bytes_eq(t0, kw.as_slice()) {
            return Err(ParseError::InvalidCommand);
        }
        let p1 = ranges[1];
        let x = match parse_fixed(slice_subrange(line, p1.0, p1.1)) {
            Some(v) => v,
            None => {
                proof {
                    assert(toks[1] == line@.subrange(p1.0 as int, p1.1 as int));
                }
                return Err(ParseError::InvalidX);
            },
        };
        let p2 = ranges[2];
        let y = match parse_fixed(slice_subrange(line, p2.0, p2.1)) {
            Some(v) => v,
            None => {
                proof {
                    assert(toks[2] == line@.subrange(p2.0 as int, p2.1 as int));
                }
                return Err(ParseError::InvalidY);
            },
        };
        let p3 = ranges[3];
        let z = match parse_fixed(slice_subrange(line, p3.0, p3.1)) {
            Some(v) => v,
            None => {
                proof {
                    assert(toks[3] == line@.subrange(p3.0 as int, p3.1 as int));
                }
                return Err(ParseError::InvalidZ);
            },
        };
        proof {
            assert(toks[1] == line@.subrange(p1.0 as int, p1.1 as int));
            assert(toks[2] == line@.subrange(p2.0 as int, p2.1 as int));
            assert(toks[3] == line@.subrange(p3.0 as int, p3.1 as int));
        }
        Ok(Command::SetCraneSetpoint { x, y, z })
    } else if n == 2 {
        let kw = [114u8, 101u8, 102u8, 114u8, 101u8, 115u8, 104u8];
        proof {
            assert(kw@ =~= kw_refresh());
        }
        let p0 = ranges[0];
        let t0 = slice_subrange(line, p0.0, p0.1);
        proof {
            assert(toks[0] == line@.subrange(p0.0 as int, p0.1 as int));
        }
        if !bytes_eq(t0, kw.as_slice()) {
            return Err(ParseError::InvalidCommand);
        }
        let p1 = ranges[1];
        let ms = match parse_u32(slice_subrange(line, p1.0, p1.1)) {
            Some(v) => v,
            None => {
                proof {
                    assert(toks[1] == line@.subrange(p1.0 as int, p1.1 as int));
                }
                return Err(ParseError::InvalidRefresh);
            },
        };
        proof {
            assert(toks[1] == line@.subrange(p1.0 as int, p1.1 as int));
        }
        Ok(Command::SetRefresh { ms })
    } else {
        Err(ParseError::InvalidCommand)
    }
}

/// Applies one decoded command to the shared state: joint setpoints or
/// a Cartesian target go to the crane, a refresh change to the
/// settings, and nothing else moves. An unreachable Cartesian target
/// is reported and changes nothing.
pub fn apply_command(cmd: Command, crane: &mut Crane, settings: &mut ServerSettings) -> (r: Result<
    (),
    IkError,
>)
    requires
        old(crane).wf(),
    ensures
        final(crane).wf(),
        match cmd {
            Command::SetCraneActuatorSetpoints {
                swing_deg,
                lift_m,
                elbow_deg,
                wrist_deg,
                gripper_m,
            } => {
                &&& *final(crane) == old(crane).with_setpoints(
                    swing_deg,
                    lift_m,
                    elbow_deg,
                    wrist_deg,
                    gripper_m,
                )
                &&& *final(settings) == *old(settings)
                &&& r == Ok::<(), IkError>(())
            },
            Command::SetCraneSetpoint { x, y, z } => {
                &&& *final(settings) == *old(settings)
                &&& (ik_reachable(z as int, x as int, old(crane).r3 as int, old(crane).r4 as int)
                    ==> *final(crane) == old(crane).with_ik_setpoints(x as int, y as int, z as int)
                    && r == Ok::<(), IkError>(()))
                &&& (!ik_reachable(z as int, x as int, old(crane).r3 as int, old(crane).r4 as int)
                    ==> *final(crane) == *old(crane) && r == Err::<(), IkError>(
                    IkError::Unreachable,
                ))
            },
            Command::SetRefresh { ms } => {
                &&& *final(crane) == *old(crane)
                &&& final(settings).refresh_ms == ms as u64
                &&& r == Ok::<(), IkError>(())
            },
        },
{
    match cmd {
        Command::SetCraneActuatorSetpoints { swing_deg, lift_m, elbow_deg, wrist_deg, gripper_m } => {
            crane.set_actuator_setpoints(swing_deg, lift_m, elbow_deg, wrist_deg, gripper_m);
            Ok(())
        },
        Command::SetCraneSetpoint { x, y, z } => crane.set_crane_setpoint(x, y, z),
        Command::SetRefresh { ms } => {
            settings.set_refresh(ms);
            Ok(())
        },
    }
}

} // verus!
