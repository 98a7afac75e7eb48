//! The modification-tag decoder for long-read platforms.
//!
//! The skip-encoded modified-base tag is an ASCII value of the shape
//! `C+m,2,0,1;`: after the base-context prefix, a comma-separated list of
//! gap counts, each naming how many unmodified occurrences of the base lie
//! between this modified occurrence and the previous one.  Decoding first
//! enumerates every C of the read sequence, then walks the gap list,
//! turning gaps into 1-based occurrence ranks by cumulative summation, and
//! finally selects the ranked occurrences' read offsets.  A final rank that
//! overshoots the number of occurrences is a known trailing artifact of the
//! encoding and is dropped; a missing closing byte, any other overshoot,
//! and any other departure from the format is a malformed tag.

use vstd::prelude::*;
use crate::prob::{FracProb, spec_prob_from_byte, prob_from_byte};
use crate::record::ReadRecord;

verus! {

/// Why a modification tag yields no data.
#[derive(Clone, Copy, Debug, PartialEq, Eq, Structural)]
pub enum DecodeError {
    /// The read carries no such tag.
    TagAbsent,
    /// The tag is present but empty or not in the expected format.
    TagMalformed,
}

/// ASCII comma.
pub const SEP: u8 = 44;
/// ASCII semicolon, the tag's closing byte.
pub const TERMINATOR: u8 = 59;
/// ASCII '0'.
pub const DIGIT_ZERO: u8 = 48;
/// ASCII '9'.
pub const DIGIT_NINE: u8 = 57;

pub open spec fn spec_is_digit(b: u8) -> bool {
    DIGIT_ZERO <= b <= DIGIT_NINE
}

pub open spec fn spec_is_digits(s: Seq<u8>) -> bool {
    forall|i: int| 0 <= i < s.len() ==> spec_is_digit(#[trigger] s[i])
}

/// The numeric value of a digit string, most significant digit first.
pub open spec fn spec_digits_val(s: Seq<u8>) -> int
    decreases s.len(),
{
    if s.len() == 0 {
        0
    } else {
        spec_digits_val(s.drop_last()) * 10 + (s.last() - DIGIT_ZERO)
    }
}

/// A number field parses when it is nonempty, all digits, and in range.
pub open spec fn spec_parse_u64(s: Seq<u8>) -> Option<u64> {
    if s.len() > 0 && spec_is_digits(s) && spec_digits_val(s) <= u64::MAX {
        Some(spec_digits_val(s) as u64)
    } else {
        None
    }
}

pub proof fn lemma_digits_val_nonneg(s: Seq<u8>)
    requires
        spec_is_digits(s),
    ensures
        spec_digits_val(s) >= 0,
    decreases s.len(),
{
    if s.len() > 0 {
        assert(spec_is_digits(s.drop_last()));
        lemma_digits_val_nonneg(s.drop_last());
    }
}

/// The value of a digit string is at least the value of any of its
/// prefixes.
pub proof fn lemma_digits_val_prefix_le(s: Seq<u8>, i: int)
    requires
        spec_is_digits(s),
        0 <= i <= s.len(),
    ensures
        spec_digits_val(s.take(i)) <= spec_digits_val(s),
    decreases s.len() - i,
{
    if i == s.len() {
        assert(s.take(i) =~= s);
    } else {
        assert(spec_is_digits(s.take(i)));
        lemma_digits_val_nonneg(s.take(i));
        assert(s.take(i + 1).drop_last() =~= s.take(i));
        assert(s.take(i + 1).last() == s[i]);
        lemma_digits_val_prefix_le(s, i + 1);
    }
}

/// Parse the decimal number held in `s[from..to]`.
pub fn parse_u64_range(s: &Vec<u8>, from: usize, to: usize) -> (r: Option<u64>)
    requires
        from <= to <= s@.len(),
    ensures
        r == spec_parse_u64(s@.subrange(from as int, to as int)),
{
    let ghost t = s@.subrange(from as int, to as int);
    if from == to {
        return None;
    }
    let mut acc: u64 = 0;
    let mut k = from;
    while k < to
        invariant
            from <= k <= to <= s@.len(),
            t == s@.subrange(from as int, to as int),
            spec_is_digits(t.take(k - from)),
            acc == spec_digits_val(t.take(k - from)),
        decreases to - k,
    {
        let b = s[k];
        proof {
            assert(t[k - from] == s@[k as int]);
            assert(t.take(k - from + 1).drop_last() =~= t.take(k - from));
            assert(t.take(k - from + 1).last() == t[k - from]);
        }
        if b < DIGIT_ZERO || b > DIGIT_NINE {
            assert(!spec_is_digits(t));
            return None;
        }
        let d = (b - DIGIT_ZERO) as u64;
        let wide: u128 = acc as u128 * 10 + d as u128;
        if wide > u64::MAX as u128 {
            proof {
                if spec_is_digits(t) {
                    lemma_digits_val_prefix_le(t, k - from + 1);
                }
            }
            return None;
        }
        acc = wide as u64;
        k = k + 1;
    }
    proof {
        assert(t.take(k - from) =~= t);
    }
    Some(acc)
}

/// Index of the first separating comma, or the length if there is none.
pub open spec fn spec_first_sep(s: Seq<u8>) -> int
    decreases s.len(),
{
    if s.len() == 0 {
        0
    } else if s[0] == SEP {
        0
    } else {
        1 + spec_first_sep(s.skip(1))
    }
}

pub proof fn lemma_first_sep_at(s: Seq<u8>, k: int)
    requires
        0 <= k <= s.len(),
        forall|j: int| 0 <= j < k ==> s[j] != SEP,
        k < s.len() ==> s[k] == SEP,
    ensures
        spec_first_sep(s) == k,
    decreases s.len(),
{
    if k == 0 {
    } else {
        assert(s[0] != SEP);
        assert forall|j: int| 0 <= j < k - 1 implies s.skip(1)[j] != SEP by {
            assert(s.skip(1)[j] == s[j + 1]);
        }
        assert(k - 1 < s.skip(1).len() ==> s.skip(1)[k - 1] == SEP);
        lemma_first_sep_at(s.skip(1), k - 1);
    }
}

pub proof fn lemma_first_sep_bounds(s: Seq<u8>)
    ensures
        0 <= spec_first_sep(s) <= s.len(),
    decreases s.len(),
{
    if s.len() > 0 && s[0] != SEP {
        lemma_first_sep_bounds(s.skip(1));
    }
}

/// The comma-separated list of gap counts: every field must be a decimal
/// number, and at least one field must be present.
pub open spec fn spec_parse_gaps(s: Seq<u8>) -> Option<Seq<u64>>
    decreases s.len(),
    via spec_parse_gaps_decreases
{
    let k = spec_first_sep(s);
    if k == s.len() {
        match spec_parse_u64(s) {
            Some(v) => Some(seq![v]),
            None => None,
        }
    } else {
        match spec_parse_u64(s.take(k)) {
            Some(v) => match spec_parse_gaps(s.skip(k + 1)) {
                Some(rest) => Some(seq![v] + rest),
                None => None,
            },
            None => None,
        }
    }
}

#[via_fn]
proof fn spec_parse_gaps_decreases(s: Seq<u8>) {
    lemma_first_sep_bounds(s);
}

/// True when parsing the remaining input and appending it to what is
/// already parsed yields the same outcome as parsing the whole input.
pub open spec fn spec_gaps_link(
    whole: Option<Seq<u64>>,
    done: Seq<u64>,
    rest: Option<Seq<u64>>,
) -> bool {
    match rest {
        Some(r) => whole == Some(done + r),
        None => whole is None,
    }
}

/// Parse the comma-separated gap list held in `s[from..to]`.
pub fn parse_gaps_range(s: &Vec<u8>, from: usize, to: usize) -> (r: Option<Vec<u64>>)
    requires
        from <= to <= s@.len(),
    ensures
        r is Some <==> spec_parse_gaps(s@.subrange(from as int, to as int)) is Some,
        r matches Some(v) ==> spec_parse_gaps(s@.subrange(from as int, to as int)) == Some(v@),
{
    let ghost whole = s@.subrange(from as int, to as int);
    proof {
        match spec_parse_gaps(whole) {
            Some(r) => {
                assert(Seq::<u64>::empty() + r =~= r);
            },
            None => {},
        }
    }
    let mut out: Vec<u64> = Vec::new();
    let mut pos = from;
    loop
        invariant
            from <= pos <= to <= s@.len(),
            whole == s@.subrange(from as int, to as int),
            spec_gaps_link(
                spec_parse_gaps(whole),
                out@,
                spec_parse_gaps(s@.subrange(pos as int, to as int)),
            ),
        decreases to - pos,
    {
        let ghost cur = s@.subrange(pos as int, to as int);
        let mut k = pos;
        while k < to && s[k] != SEP
            invariant
                pos <= k <= to <= s@.len(),
                forall|j: int| pos <= j < k ==> s@[j] != SEP,
            decreases to - k,
        {
            k = k + 1;
        }
        proof {
            assert forall|j: int| 0 <= j < k - pos implies cur[j] != SEP by {
                assert(cur[j] == s@[pos + j]);
            }
            assert(k < to ==> cur[k - pos] == s@[k as int]);
            lemma_first_sep_at(cur, k - pos);
            assert(cur.take(k - pos) =~= s@.subrange(pos as int, k as int));
        }
        let v = match parse_u64_range(s, pos, k) {
            Some(v) => v,
            None => {
                return None;
            }
        };
        let ghost out_old = out@;
        out.push(v);
        proof {
            assert(out@ =~= out_old + seq![v]);
        }
        if k == to {
            proof {
                assert(cur.take(k - pos) =~= cur);
                assert(spec_parse_gaps(cur) == Some(seq![v]));
                assert(out_old + seq![v] =~= out@);
            }
            return Some(out);
        }
        proof {
            assert(cur.skip(k - pos + 1) =~= s@.subrange(k as int + 1, to as int));
            match spec_parse_gaps(s@.subrange(k as int + 1, to as int)) {
                Some(r) => {
                    assert(spec_parse_gaps(cur) == Some(seq![v] + r));
                    assert(out_old + (seq![v] + r) =~= out@ + r);
                },
                None => {
                    assert(spec_parse_gaps(cur) is None);
                },
            }
        }
        pos = k + 1;
    }
}

/// The 1-based occurrence ranks named by a gap list: each gap, plus one,
/// added onto the previous rank.
pub open spec fn spec_skip_indices(gaps: Seq<u64>) -> Seq<int>
    decreases gaps.len(),
{
    if gaps.len() == 0 {
        seq![]
    } else {
        let prev = spec_skip_indices(gaps.drop_last());
        let base: int = if prev.len() == 0 {
            0
        } else {
            prev.last()
        };
        prev + seq![base + gaps.last() + 1]
    }
}

pub proof fn lemma_skip_indices_len(gaps: Seq<u64>)
    ensures
        spec_skip_indices(gaps).len() == gaps.len(),
    decreases gaps.len(),
{
    if gaps.len() > 0 {
        lemma_skip_indices_len(gaps.drop_last());
    }
}

/// The ranks of a prefix of the gap list are a prefix of the ranks.
pub proof fn lemma_skip_indices_prefix(gaps: Seq<u64>, k: int)
    requires
        0 <= k <= gaps.len(),
    ensures
        spec_skip_indices(gaps.take(k)) == spec_skip_indices(gaps).take(k),
    decreases gaps.len(),
{
    lemma_skip_indices_len(gaps);
    if k == gaps.len() {
        assert(gaps.take(k) =~= gaps);
        assert(spec_skip_indices(gaps).take(k) =~= spec_skip_indices(gaps));
    } else {
        lemma_skip_indices_len(gaps.drop_last());
        lemma_skip_indices_prefix(gaps.drop_last(), k);
        assert(gaps.drop_last().take(k) =~= gaps.take(k));
        assert(spec_skip_indices(gaps).take(k) =~= spec_skip_indices(gaps.drop_last()).take(k));
    }
}

/// Every rank names one of the `n_occ` occurrences.
pub open spec fn spec_ranks_within(ranks: Seq<int>, n_occ: int) -> bool {
    forall|i: int| 0 <= i < ranks.len() ==> #[trigger] ranks[i] <= n_occ
}

/// The decoded ranks, after the trailing-artifact rule: a final rank
/// beyond the number of occurrences is dropped; every surviving rank must
/// name an occurrence.
pub open spec fn spec_select_ranks(gaps: Seq<u64>, n_occ: int) -> Option<Seq<int>> {
    let idx = spec_skip_indices(gaps);
    let kept = if idx.len() > 0 && idx.last() > n_occ {
        idx.drop_last()
    } else {
        idx
    };
    if spec_ranks_within(kept, n_occ) {
        Some(kept)
    } else {
        None
    }
}

/// The read offsets of every C in the sequence, in ascending order.
pub open spec fn spec_c_positions(s: Seq<u8>) -> Seq<int>
    decreases s.len(),
{
    if s.len() == 0 {
        seq![]
    } else {
        let prev = spec_c_positions(s.drop_last());
        if s.last() == 67 {
            prev + seq![s.len() - 1]
        } else {
            prev
        }
    }
}

/// Selection of ranked occurrences: rank `v` picks the `v`-th C (1-based).
pub open spec fn spec_pick(cs: Seq<int>, ranks: Seq<int>) -> Seq<int> {
    ranks.map_values(|v: int| cs[v - 1])
}

/// The decoded modified-base offsets of a read: which read offsets the
/// skip-encoded tag names as chemically modified.  The tag must carry
/// the base-context prefix and end in the closing byte; anything else is
/// malformed.
pub open spec fn spec_meth_pos(read: ReadRecord) -> Result<Seq<int>, DecodeError> {
    match read.mm {
        None => Err(DecodeError::TagAbsent),
        Some(t) => {
            if t@.len() == 0 || t@.last() != TERMINATOR {
                Err(DecodeError::TagMalformed)
            } else {
                let body0 = t@.drop_last();
                if body0.len() >= 4 && body0[0] == 67 && body0[1] == 43 && body0[2] == 109
                    && body0[3] == SEP {
                    match spec_parse_gaps(body0.skip(4)) {
                        None => Err(DecodeError::TagMalformed),
                        Some(gaps) => {
                            let cs = spec_c_positions(read.seq@);
                            match spec_select_ranks(gaps, cs.len() as int) {
                                None => Err(DecodeError::TagMalformed),
                                Some(ranks) => Ok(spec_pick(cs, ranks)),
                            }
                        },
                    }
                } else {
                    Err(DecodeError::TagMalformed)
                }
            }
        },
    }
}

/// Decode the skip-encoded modified-base tag of a read into the read
/// offsets of the modified Cs.
pub fn meth_pos(read: &ReadRecord) -> (r: Result<Vec<usize>, DecodeError>)
    ensures
        spec_meth_pos(*read) matches Ok(offs) ==> (r matches Ok(v) && v@.map_values(
            |x: usize| x as int,
        ) == offs),
        spec_meth_pos(*read) matches Err(e) ==> r == Err::<Vec<usize>, DecodeError>(e),
{
    let mm: &Vec<u8> = match &read.mm {
        Some(t) => t,
        None => {
            return Err(DecodeError::TagAbsent);
        },
    };
    let m = mm.len();
    if m == 0 || mm[m - 1] != TERMINATOR {
        return Err(DecodeError::TagMalformed);
    }
    let ghost body0 = mm@.drop_last();
    if m < 5 || mm[0] != 67 || mm[1] != 43 || mm[2] != 109 || mm[3] != SEP {
        return Err(DecodeError::TagMalformed);
    }
    proof {
        assert(body0.skip(4) =~= mm@.subrange(4, m - 1));
    }
    let gaps: Vec<u64> = match parse_gaps_range(mm, 4, m - 1) {
        Some(g) => g,
        None => {
            return Err(DecodeError::TagMalformed);
        },
    };
    // enumerate the Cs of the read
    let ghost cs = spec_c_positions(read.seq@);
    let n = read.seq.len();
    let mut pos_cs: Vec<usize> = Vec::new();
    let mut j: usize = 0;
    proof {
        assert(read.seq@.take(0) =~= Seq::<u8>::empty());
    }
    while j < n
        invariant
            j <= n,
            n == read.seq@.len(),
            pos_cs@.map_values(|x: usize| x as int) == spec_c_positions(read.seq@.take(j as int)),
        decreases n - j,
    {
        proof {
            assert(read.seq@.take(j + 1).drop_last() =~= read.seq@.take(j as int));
            assert(read.seq@.take(j + 1).last() == read.seq@[j as int]);
        }
        if read.seq[j] == 67 {
            pos_cs.push(j);
            proof {
                assert(pos_cs@.map_values(|x: usize| x as int) =~= pos_cs@.drop_last().map_values(
                    |x: usize| x as int,
                ) + seq![j as int]);
            }
        }
        j = j + 1;
    }
    proof {
        assert(read.seq@.take(n as int) =~= read.seq@);
    }
    let n_cs = pos_cs.len();
    proof {
        assert(cs.len() == n_cs) by {
            assert(pos_cs@.map_values(|x: usize| x as int).len() == pos_cs@.len());
        }
        assert(gaps@.take(0) =~= Seq::<u64>::empty());
    }
    // walk the gap list, selecting ranked occurrences
    let g_len = gaps.len();
    let mut out: Vec<usize> = Vec::new();
    let mut cum: u128 = 0;
    let mut k: usize = 0;
    while k < g_len
        invariant
            k <= g_len,
            g_len == gaps@.len(),
            n_cs == pos_cs@.len(),
            cs == spec_c_positions(read.seq@),
            pos_cs@.map_values(|x: usize| x as int) == cs,
            cs.len() == n_cs,
            spec_meth_pos(*read) == spec_meth_pos_after_gaps(*read, gaps@),
            cum <= n_cs,
            ({
                let idx = spec_skip_indices(gaps@.take(k as int));
                &&& cum == (if idx.len() == 0 { 0int } else { idx.last() })
                &&& spec_ranks_within(idx, n_cs as int)
                &&& out@.map_values(|x: usize| x as int) == spec_pick(cs, idx)
            }),
        decreases g_len - k,
    {
        let ghost idx_k = spec_skip_indices(gaps@.take(k as int));
        let ghost idx_k1 = spec_skip_indices(gaps@.take(k + 1));
        proof {
            assert(gaps@.take(k + 1).drop_last() =~= gaps@.take(k as int));
            assert(gaps@.take(k + 1).last() == gaps@[k as int]);
            lemma_skip_indices_len(gaps@.take(k as int));
            lemma_skip_indices_len(gaps@);
            lemma_skip_indices_prefix(gaps@, k + 1);
        }
        let g = gaps[k];
        let new_cum: u128 = cum + g as u128 + 1;
        if new_cum > n_cs as u128 {
            proof {
                let full = spec_skip_indices(gaps@);
                assert(full.take(k + 1).last() == full[k as int]);
                assert(full[k as int] == new_cum);
            }
            if k + 1 == g_len {
                proof {
                    let full = spec_skip_indices(gaps@);
                    assert(full.last() == new_cum);
                    assert(full.drop_last() =~= full.take(k as int));
                    lemma_skip_indices_prefix(gaps@, k as int);
                    assert(spec_select_ranks(gaps@, n_cs as int) == Some(idx_k));
                }
                return Ok(out);
            }
            proof {
                let full = spec_skip_indices(gaps@);
                let kept = if full.len() > 0 && full.last() > n_cs {
                    full.drop_last()
                } else {
                    full
                };
                assert(kept.len() >= g_len - 1);
                assert(0 <= k < kept.len());
                assert(kept[k as int] == full[k as int]);
                assert(kept[k as int] > n_cs as int);
                assert(!spec_ranks_within(kept, n_cs as int));
                assert(spec_select_ranks(gaps@, n_cs as int) is None);
            }
            return Err(DecodeError::TagMalformed);
        }
        let sel = pos_cs[(new_cum - 1) as usize];
        out.push(sel);
        proof {
            assert(idx_k1 =~= idx_k + seq![new_cum as int]);
            assert(out@.map_values(|x: usize| x as int) =~= spec_pick(cs, idx_k) + seq![
                cs[new_cum - 1],
            ]);
            assert(spec_pick(cs, idx_k1) =~= spec_pick(cs, idx_k) + seq![cs[new_cum - 1]]);
        }
        cum = new_cum;
        k = k + 1;
    }
    proof {
        assert(gaps@.take(g_len as int) =~= gaps@);
        let full = spec_skip_indices(gaps@);
        assert(spec_select_ranks(gaps@, n_cs as int) == Some(full));
    }
    Ok(out)
}

/// What decoding yields once the gap list is known: used to carry the
/// already-established parse across the selection loop.
pub open spec fn spec_meth_pos_after_gaps(read: ReadRecord, gaps: Seq<u64>) -> Result<
    Seq<int>,
    DecodeError,
> {
    let cs = spec_c_positions(read.seq@);
    match spec_select_ranks(gaps, cs.len() as int) {
        None => Err(DecodeError::TagMalformed),
        Some(ranks) => Ok(spec_pick(cs, ranks)),
    }
}

/// The per-call modification probabilities of a read: each byte of the
/// probability array rescaled to a fraction in [0, 1].
pub open spec fn spec_meth_probs(read: ReadRecord) -> Result<Seq<FracProb>, DecodeError> {
    match read.ml {
        None => Err(DecodeError::TagAbsent),
        Some(ml) => Ok(ml@.map_values(|b: u8| spec_prob_from_byte(b))),
    }
}

/// Decode the per-call probability array of a read.
pub fn meth_probs(read: &ReadRecord) -> (r: Result<Vec<FracProb>, DecodeError>)
    ensures
        spec_meth_probs(*read) matches Ok(ps) ==> (r matches Ok(v) && v@ == ps),
        spec_meth_probs(*read) matches Err(e) ==> r == Err::<Vec<FracProb>, DecodeError>(e),
        r matches Ok(v) ==> forall|i: int| 0 <= i < v@.len() ==> (#[trigger] v@[i]).small(),
{
    let ml: &Vec<u8> = match &read.ml {
        Some(t) => t,
        None => {
            return Err(DecodeError::TagAbsent);
        },
    };
    let n = ml.len();
    let mut out: Vec<FracProb> = Vec::new();
    let mut j: usize = 0;
    while j < n
        invariant
            j <= n,
            n == ml@.len(),
            out@ == ml@.take(j as int).map_values(|b: u8| spec_prob_from_byte(b)),
        decreases n - j,
    {
        out.push(prob_from_byte(ml[j]));
        proof {
            assert(out@ =~= ml@.take(j + 1).map_values(|b: u8| spec_prob_from_byte(b)));
        }
        j = j + 1;
    }
    proof {
        assert(ml@.take(n as int) =~= ml@);
    }
    Ok(out)
}

/// The probability recorded for read offset `q`: the entry of the
/// offset-to-probability mapping built by zipping the decoded offsets with
/// the probability array positionally (the shorter list truncates the zip).
pub open spec fn spec_lookup(pos: Seq<int>, probs: Seq<FracProb>, q: int) -> Option<FracProb>
    decreases pos.len(),
{
    if pos.len() == 0 || probs.len() == 0 {
        None
    } else if pos[0] == q {
        Some(probs[0])
    } else {
        spec_lookup(pos.skip(1), probs.skip(1), q)
    }
}

/// The decimal digits of `n`, most significant first.
pub open spec fn spec_format_u64(n: u64) -> Seq<u8>
    decreases n,
{
    if n < 10 {
        seq![(DIGIT_ZERO + n) as u8]
    } else {
        spec_format_u64(n / 10) + seq![(DIGIT_ZERO + n % 10) as u8]
    }
}

/// Formatting a number yields a nonempty digit string whose value is the
/// number again.
pub proof fn lemma_format_digits(n: u64)
    ensures
        spec_is_digits(spec_format_u64(n)),
        spec_format_u64(n).len() >= 1,
        spec_digits_val(spec_format_u64(n)) == n,
    decreases n,
{
    let s = spec_format_u64(n);
    if n < 10 {
        assert(s.drop_last() =~= Seq::<u8>::empty());
        assert(spec_digits_val(Seq::<u8>::empty()) == 0);
        assert(spec_digits_val(s) == spec_digits_val(s.drop_last()) * 10 + (s.last()
            - DIGIT_ZERO));
    } else {
        lemma_format_digits(n / 10);
        vstd::arithmetic::div_mod::lemma_fundamental_div_mod(n as int, 10);
        vstd::arithmetic::div_mod::lemma_mod_division_less_than_divisor(n as int, 10);
        assert(s.drop_last() =~= spec_format_u64(n / 10));
        assert(s.last() == (DIGIT_ZERO + n % 10) as u8);
        assert(spec_digits_val(s) == spec_digits_val(s.drop_last()) * 10 + (s.last()
            - DIGIT_ZERO));
        assert(spec_digits_val(s.drop_last()) == n / 10);
        assert(s.last() - DIGIT_ZERO == n % 10);
        assert forall|i: int| 0 <= i < s.len() implies spec_is_digit(#[trigger] s[i]) by {
            if i < s.len() - 1 {
                assert(s[i] == spec_format_u64(n / 10)[i]);
            }
        }
    }
}

/// The comma-separated rendering of a gap list.
pub open spec fn spec_format_gaps(gaps: Seq<u64>) -> Seq<u8>
    decreases gaps.len(),
{
    if gaps.len() == 0 {
        seq![]
    } else if gaps.len() == 1 {
        spec_format_u64(gaps[0])
    } else {
        spec_format_u64(gaps[0]) + seq![SEP] + spec_format_gaps(gaps.skip(1))
    }
}

/// Parsing the rendering of a nonempty gap list yields the gap list.
pub proof fn lemma_parse_format_gaps(gaps: Seq<u64>)
    requires
        gaps.len() >= 1,
    ensures
        spec_parse_gaps(spec_format_gaps(gaps)) == Some(gaps),
    decreases gaps.len(),
{
    let s = spec_format_gaps(gaps);
    let head = spec_format_u64(gaps[0]);
    lemma_format_digits(gaps[0]);
    if gaps.len() == 1 {
        assert forall|j: int| 0 <= j < s.len() implies s[j] != SEP by {
            assert(spec_is_digit(s[j]));
        }
        lemma_first_sep_at(s, s.len() as int);
        assert(spec_parse_u64(s) == Some(gaps[0]));
        assert(seq![gaps[0]] =~= gaps);
    } else {
        assert forall|j: int| 0 <= j < head.len() implies s[j] != SEP by {
            assert(s[j] == head[j]);
            assert(spec_is_digit(head[j]));
        }
        assert(s[head.len() as int] == SEP);
        lemma_first_sep_at(s, head.len() as int);
        assert(s.take(head.len() as int) =~= head);
        assert(spec_parse_u64(head) == Some(gaps[0]));
        assert(s.skip(head.len() as int + 1) =~= spec_format_gaps(gaps.skip(1)));
        lemma_parse_format_gaps(gaps.skip(1));
        assert(seq![gaps[0]] + gaps.skip(1) =~= gaps);
    }
}

/// The gap encoding of a rank list: each rank minus its predecessor,
/// minus one.
pub open spec fn spec_gaps_of_ranks(ranks: Seq<int>) -> Seq<u64>
    decreases ranks.len(),
{
    if ranks.len() == 0 {
        seq![]
    } else {
        let base: int = if ranks.len() == 1 {
            0
        } else {
            ranks[ranks.len() - 2]
        };
        spec_gaps_of_ranks(ranks.drop_last()) + seq![(ranks.last() - base - 1) as u64]
    }
}

/// Decoding the gap encoding of a strictly increasing rank list yields the
/// rank list again.
pub proof fn lemma_skip_indices_of_gaps(ranks: Seq<int>)
    requires
        forall|i: int| 0 <= i < ranks.len() ==> 1 <= #[trigger] ranks[i] <= u64::MAX,
        forall|i: int| 0 <= i < ranks.len() - 1 ==> #[trigger] ranks[i] < ranks[i + 1],
    ensures
        spec_skip_indices(spec_gaps_of_ranks(ranks)) == ranks,
    decreases ranks.len(),
{
    let gaps = spec_gaps_of_ranks(ranks);
    if ranks.len() == 0 {
        assert(spec_skip_indices(gaps) =~= ranks);
    } else {
        let prev_ranks = ranks.drop_last();
        assert forall|i: int| 0 <= i < prev_ranks.len() - 1 implies #[trigger] prev_ranks[i]
            < prev_ranks[i + 1] by {
            assert(prev_ranks[i] == ranks[i] && prev_ranks[i + 1] == ranks[i + 1]);
        }
        lemma_skip_indices_of_gaps(prev_ranks);
        lemma_skip_indices_len(spec_gaps_of_ranks(prev_ranks));
        assert(gaps.drop_last() =~= spec_gaps_of_ranks(prev_ranks));
        let base: int = if ranks.len() == 1 {
            0
        } else {
            ranks[ranks.len() - 2]
        };
        assert(ranks.len() >= 2 ==> base < ranks.last());
        assert(gaps.last() == (ranks.last() - base - 1) as u64);
        assert(ranks.last() - base - 1 >= 0);
        assert(spec_skip_indices(gaps) =~= ranks);
    }
}

/// A sequence holds no more Cs than bytes.
pub proof fn lemma_c_positions_count(s: Seq<u8>)
    ensures
        spec_c_positions(s).len() <= s.len(),
    decreases s.len(),
{
    if s.len() > 0 {
        lemma_c_positions_count(s.drop_last());
    }
}

/// The 1-based C-rank of a read offset: one more than the number of Cs
/// strictly before it.
pub open spec fn spec_rank_at(s: Seq<u8>, o: int) -> int {
    spec_c_positions(s.take(o)).len() as int + 1
}

/// At a C offset, the rank indexes that very offset in the C-position
/// list.
pub proof fn lemma_c_positions_index(s: Seq<u8>, o: int)
    requires
        0 <= o < s.len(),
        s[o] == 67,
    ensures
        spec_rank_at(s, o) - 1 < spec_c_positions(s).len(),
        spec_c_positions(s)[spec_rank_at(s, o) - 1] == o,
    decreases s.len(),
{
    if o == s.len() - 1 {
        assert(s.take(o) =~= s.drop_last());
        assert(s.last() == 67);
    } else {
        assert(s.drop_last()[o] == s[o]);
        lemma_c_positions_index(s.drop_last(), o);
        assert(s.drop_last().take(o) =~= s.take(o));
        let k = spec_rank_at(s, o) - 1;
        assert(spec_c_positions(s.drop_last())[k] == o);
        if s.last() == 67 {
            assert(spec_c_positions(s)[k] == spec_c_positions(s.drop_last())[k]);
        }
    }
}

/// Between two C offsets in order, the earlier one has the smaller rank.
pub proof fn lemma_rank_monotone(s: Seq<u8>, o1: int, o2: int)
    requires
        0 <= o1 < o2 <= s.len(),
        s[o1] == 67,
    ensures
        spec_rank_at(s, o1) < spec_rank_at(s, o2),
{
    assert(s.take(o2)[o1] == s[o1]);
    lemma_c_positions_index(s.take(o2), o1);
    assert(s.take(o2).take(o1) =~= s.take(o1));
}

/// The C-ranks of a list of read offsets.
pub open spec fn spec_ranks_of(offsets: Seq<int>, s: Seq<u8>) -> Seq<int> {
    offsets.map_values(|o: int| spec_rank_at(s, o))
}

/// The skip-encoded tag value naming exactly the given modified offsets
/// of the read: the base-context prefix, the comma-separated gaps between
/// the offsets' C-ranks, and the closing byte.
pub open spec fn spec_encode_mm(offsets: Seq<int>, s: Seq<u8>) -> Seq<u8> {
    seq![67u8, 43u8, 109u8, SEP] + spec_format_gaps(spec_gaps_of_ranks(spec_ranks_of(offsets, s)))
        + seq![TERMINATOR]
}

/// Round trip of the modification-tag encoding: decoding a tag that
/// encodes any nonempty, strictly increasing set of C offsets of the read
/// reproduces exactly those offsets.
pub proof fn lemma_mm_round_trip(offsets: Seq<int>, read: ReadRecord)
    requires
        offsets.len() >= 1,
        forall|i: int| 0 <= i < offsets.len() ==> 0 <= #[trigger] offsets[i] < read.seq@.len()
            && read.seq@[offsets[i]] == 67,
        forall|i: int| 0 <= i < offsets.len() - 1 ==> #[trigger] offsets[i] < offsets[i + 1],
        read.mm matches Some(t) && t@ == spec_encode_mm(offsets, read.seq@),
        read.seq@.len() <= u64::MAX,
    ensures
        spec_meth_pos(read) == Ok::<Seq<int>, DecodeError>(offsets),
{
    let s = read.seq@;
    let cs = spec_c_positions(s);
    let ranks = spec_ranks_of(offsets, s);
    let gaps = spec_gaps_of_ranks(ranks);
    let body = spec_format_gaps(gaps);
    let t = read.mm->0@;

    // the ranks index the C-position list and increase strictly
    lemma_c_positions_count(s);
    assert forall|i: int| 0 <= i < ranks.len() implies 1 <= #[trigger] ranks[i] <= cs.len()
        && cs[ranks[i] - 1] == offsets[i] by {
        lemma_c_positions_index(s, offsets[i]);
    }
    assert forall|i: int| 0 <= i < ranks.len() - 1 implies #[trigger] ranks[i] < ranks[i + 1] by {
        lemma_rank_monotone(s, offsets[i], offsets[i + 1]);
    }

    // decoding the gap list gives the ranks back
    lemma_skip_indices_of_gaps(ranks);
    lemma_skip_indices_len(gaps);
    lemma_parse_format_gaps(gaps);

    // the tag takes apart into prefix, body and closing byte
    assert(t.len() == 4 + body.len() + 1);
    assert(t.last() == TERMINATOR);
    let body0 = t.drop_last();
    assert(body0.len() >= 4);
    assert(body0[0] == 67 && body0[1] == 43 && body0[2] == 109 && body0[3] == SEP);
    assert(body0.skip(4) =~= body);

    // no rank overshoots, so nothing is dropped
    assert(ranks.len() > 0 && ranks.last() <= cs.len());
    assert(spec_ranks_within(ranks, cs.len() as int));
    assert(spec_select_ranks(gaps, cs.len() as int) == Some(ranks));

    // the selected occurrences are exactly the encoded offsets
    assert(spec_pick(cs, ranks) =~= offsets);
}

/// A found lookup result is one of the array's entries.
pub proof fn lemma_lookup_found(pos: Seq<int>, probs: Seq<FracProb>, q: int, p: FracProb)
    requires
        spec_lookup(pos, probs, q) == Some(p),
    ensures
        exists|i: int| 0 <= i < probs.len() && probs[i] == p,
    decreases pos.len(),
{
    if pos.len() == 0 || probs.len() == 0 {
    } else if pos[0] == q {
        assert(0 <= 0 < probs.len() && probs[0] == p);
    } else {
        lemma_lookup_found(pos.skip(1), probs.skip(1), q, p);
        let i = choose|i: int| 0 <= i < probs.skip(1).len() && probs.skip(1)[i] == p;
        assert(probs[i + 1] == p);
    }
}

/// Look up the modification probability recorded for read offset `q`.
pub fn lookup_prob(pos: &Vec<usize>, probs: &Vec<FracProb>, q: usize) -> (r: Option<FracProb>)
    ensures
        r == spec_lookup(pos@.map_values(|x: usize| x as int), probs@, q as int),
{
    let ghost full_pos = pos@.map_values(|x: usize| x as int);
    let n = if pos.len() < probs.len() {
        pos.len()
    } else {
        probs.len()
    };
    let mut i: usize = 0;
    proof {
        assert(full_pos.skip(0) =~= full_pos);
        assert(probs@.skip(0) =~= probs@);
    }
    while i < n
        invariant
            i <= n,
            n == (if pos@.len() < probs@.len() { pos@.len() } else { probs@.len() }),
            full_pos == pos@.map_values(|x: usize| x as int),
            spec_lookup(full_pos, probs@, q as int) == spec_lookup(
                full_pos.skip(i as int),
                probs@.skip(i as int),
                q as int,
            ),
        decreases n - i,
    {
        proof {
            assert(full_pos.skip(i as int)[0] == full_pos[i as int]);
            assert(probs@.skip(i as int)[0] == probs@[i as int]);
            assert(full_pos.skip(i as int).skip(1) =~= full_pos.skip(i + 1));
            assert(probs@.skip(i as int).skip(1) =~= probs@.skip(i + 1));
        }
        if pos[i] == q {
            return Some(probs[i]);
        }
        i = i + 1;
    }
    proof {
        assert(full_pos.skip(i as int).len() == 0 || probs@.skip(i as int).len() == 0);
    }
    None
}

} // verus!
