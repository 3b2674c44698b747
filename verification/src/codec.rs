//! The bencode codec for torrent metainfo.
//!
//! A bencoded document is an integer `i<decimal>e`, a byte string
//! `<length>:<bytes>`, a list `l...e`, or a dictionary `d...e` whose keys
//! are byte strings in strictly increasing byte order. The decoder accepts
//! exactly the canonical form a compliant encoder emits — decimal numbers
//! without leading zeros or a negative zero, sorted unique keys — so that
//! decoding and re-encoding reproduces the input byte for byte.

use vstd::arithmetic::div_mod::{
    lemma_fundamental_div_mod_converse_div,
    lemma_fundamental_div_mod_converse_mod,
};
use vstd::prelude::*;

verus! {

broadcast use vstd::std_specs::vec::group_vec_axioms;

/// A bencoded value.
pub enum Bencode {
    Int(i64),
    Bytes(Vec<u8>),
    List(Vec<Bencode>),
    Dict(Vec<(Vec<u8>, Bencode)>),
}

/// The mathematical shape of a bencoded value.
pub enum BValue {
    Int(int),
    Bytes(Seq<u8>),
    List(Seq<BValue>),
    Dict(Seq<(Seq<u8>, BValue)>),
}

impl Bencode {
    /// The mathematical value a concrete node stands for.
    pub open spec fn bval(&self) -> BValue
        decreases self,
    {
        match self {
            Bencode::Int(i) => BValue::Int(*i as int),
            Bencode::Bytes(b) => BValue::Bytes(b@),
            Bencode::List(items) => BValue::List(bvals(items@)),
            Bencode::Dict(pairs) => BValue::Dict(bval_pairs(pairs@)),
        }
    }
}

/// The mathematical values of a sequence of nodes.
pub open spec fn bvals(items: Seq<Bencode>) -> Seq<BValue>
    decreases items,
{
    if items.len() == 0 {
        Seq::empty()
    } else {
        seq![items[0].bval()] + bvals(items.drop_first())
    }
}

/// The mathematical values of a sequence of key/value pairs.
pub open spec fn bval_pairs(pairs: Seq<(Vec<u8>, Bencode)>) -> Seq<(Seq<u8>, BValue)>
    decreases pairs,
{
    if pairs.len() == 0 {
        Seq::empty()
    } else {
        seq![(pairs[0].0@, pairs[0].1.bval())] + bval_pairs(pairs.drop_first())
    }
}

/// An ASCII decimal digit.
pub open spec fn is_digit(b: u8) -> bool {
    48 <= b <= 57
}

/// The decimal digits of a non-negative number, most significant first.
pub open spec fn spec_digits(n: int) -> Seq<u8>
    decreases n,
{
    if n < 10 {
        seq![(n + 48) as u8]
    } else {
        spec_digits(n / 10).push((n % 10 + 48) as u8)
    }
}

/// The byte encoding of an integer: a minus sign for negative values,
/// then the decimal digits of the magnitude.
pub open spec fn spec_int_bytes(i: int) -> Seq<u8> {
    if i < 0 {
        seq![45u8] + spec_digits(-i)
    } else {
        spec_digits(i)
    }
}

/// The byte encoding of a value.
pub open spec fn spec_encode(v: BValue) -> Seq<u8>
    decreases v,
{
    match v {
        BValue::Int(i) => seq![105u8] + spec_int_bytes(i) + seq![101u8],
        BValue::Bytes(b) => spec_digits(b.len() as int) + seq![58u8] + b,
        BValue::List(items) => seq![108u8] + spec_encode_items(items) + seq![101u8],
        BValue::Dict(pairs) => seq![100u8] + spec_encode_pairs(pairs) + seq![101u8],
    }
}

/// The concatenated encodings of a list's items.
pub open spec fn spec_encode_items(items: Seq<BValue>) -> Seq<u8>
    decreases items,
{
    if items.len() == 0 {
        Seq::empty()
    } else {
        spec_encode(items[0]) + spec_encode_items(items.drop_first())
    }
}

/// The concatenated encodings of a dictionary's pairs, each key written
/// as a byte string before its value.
pub open spec fn spec_encode_pairs(pairs: Seq<(Seq<u8>, BValue)>) -> Seq<u8>
    decreases pairs,
{
    if pairs.len() == 0 {
        Seq::empty()
    } else {
        spec_digits(pairs[0].0.len() as int) + seq![58u8] + pairs[0].0 + spec_encode(pairs[0].1)
            + spec_encode_pairs(pairs.drop_first())
    }
}

/// Byte strings in lexicographic order, shorter prefixes first.
pub open spec fn lex_lt(a: Seq<u8>, b: Seq<u8>) -> bool
    decreases a.len(),
{
    if b.len() == 0 {
        false
    } else if a.len() == 0 {
        true
    } else if a[0] < b[0] {
        true
    } else if a[0] > b[0] {
        false
    } else {
        lex_lt(a.drop_first(), b.drop_first())
    }
}

/// The end of the run of digits starting at `pos`.
pub open spec fn run_end(s: Seq<u8>, pos: int) -> int
    decreases s.len() - pos,
{
    if pos < 0 || pos >= s.len() || !is_digit(s[pos]) {
        pos
    } else {
        run_end(s, pos + 1)
    }
}

/// The value of the digits `s[pos..end]`.
pub open spec fn run_value(s: Seq<u8>, pos: int, end: int) -> int
    decreases end - pos,
{
    if end <= pos {
        0
    } else {
        run_value(s, pos, end - 1) * 10 + (s[end - 1] - 48)
    }
}

/// A canonical digit run starts at `pos`: at least one digit, and no
/// leading zero (a zero digit can only stand alone).
pub open spec fn canonical_run(s: Seq<u8>, pos: int) -> bool {
    &&& run_end(s, pos) > pos
    &&& (0 <= pos < s.len() && s[pos] == 48 ==> run_end(s, pos) == pos + 1)
}

/// Parse a byte string `<length>:<bytes>` at `pos`. `None` when the text
/// is not a canonical byte string.
pub open spec fn spec_parse_bytestr(s: Seq<u8>, pos: int) -> Option<(Seq<u8>, int)>
    decreases s.len() - pos, 0int,
{
    if !canonical_run(s, pos) {
        None
    } else {
        let e = run_end(s, pos);
        let n = run_value(s, pos, e);
        if e >= s.len() || s[e] != 58 {
            None
        } else if e + 1 + n > s.len() {
            None
        } else {
            Some((s.subrange(e + 1, e + 1 + n), e + 1 + n))
        }
    }
}

/// Parse one canonical bencoded value at `pos`: the value and the
/// position just past it, or `None` where the text is not canonical
/// bencode (including integers outside the signed 64-bit range).
pub open spec fn spec_parse(s: Seq<u8>, pos: int) -> Option<(BValue, int)>
    decreases s.len() - pos, 1int,
{
    if pos < 0 || pos >= s.len() {
        None
    } else if s[pos] == 105 {  // 'i'
        spec_parse_int(s, pos)
    } else if s[pos] == 108 {  // 'l'
        match spec_parse_items(s, pos + 1) {
            None => None,
            Some((items, q)) => Some((BValue::List(items), q)),
        }
    } else if s[pos] == 100 {  // 'd'
        match spec_parse_pairs(s, pos + 1) {
            None => None,
            Some((pairs, q)) => Some((BValue::Dict(pairs), q)),
        }
    } else {
        match spec_parse_bytestr(s, pos) {
            None => None,
            Some((b, q)) => Some((BValue::Bytes(b), q)),
        }
    }
}

/// Parse `i<decimal>e` at `pos`: a canonical decimal with optional minus
/// sign, no negative zero, within the signed 64-bit range.
pub open spec fn spec_parse_int(s: Seq<u8>, pos: int) -> Option<(BValue, int)> {
    if pos + 1 >= s.len() {
        None
    } else if s[pos + 1] == 45 {  // '-'
        if !canonical_run(s, pos + 2) {
            None
        } else {
            let e = run_end(s, pos + 2);
            let n = run_value(s, pos + 2, e);
            if n == 0 || -n < i64::MIN as int {
                None
            } else if e >= s.len() || s[e] != 101 {
                None
            } else {
                Some((BValue::Int(-n), e + 1))
            }
        }
    } else {
        if !canonical_run(s, pos + 1) {
            None
        } else {
            let e = run_end(s, pos + 1);
            let n = run_value(s, pos + 1, e);
            if n > i64::MAX as int {
                None
            } else if e >= s.len() || s[e] != 101 {
                None
            } else {
                Some((BValue::Int(n), e + 1))
            }
        }
    }
}

/// Parse list items at `pos` up to and including the closing `e`.
pub open spec fn spec_parse_items(s: Seq<u8>, pos: int) -> Option<(Seq<BValue>, int)>
    decreases s.len() - pos, 2int,
{
    if pos < 0 || pos >= s.len() {
        None
    } else if s[pos] == 101 {  // 'e'
        Some((Seq::empty(), pos + 1))
    } else {
        match spec_parse(s, pos) {
            None => None,
            Some((v, q)) => if q <= pos || q > s.len() {
                None
            } else {
                match spec_parse_items(s, q) {
                    None => None,
                    Some((rest, r)) => Some((seq![v] + rest, r)),
                }
            },
        }
    }
}

/// Parse dictionary pairs at `pos` up to and including the closing `e`,
/// requiring the keys to be strictly increasing.
pub open spec fn spec_parse_pairs(s: Seq<u8>, pos: int) -> Option<(Seq<(Seq<u8>, BValue)>, int)>
    decreases s.len() - pos, 2int,
{
    if pos < 0 || pos >= s.len() {
        None
    } else if s[pos] == 101 {  // 'e'
        Some((Seq::empty(), pos + 1))
    } else {
        match spec_parse_bytestr(s, pos) {
            None => None,
            Some((key, qk)) => if qk <= pos || qk > s.len() {
                None
            } else {
                match spec_parse(s, qk) {
                    None => None,
                    Some((v, qv)) => if qv <= qk || qv > s.len() {
                        None
                    } else {
                        match spec_parse_pairs(s, qv) {
                            None => None,
                            Some((rest, r)) => if rest.len() > 0 && !lex_lt(key, rest[0].0) {
                                None
                            } else {
                                Some((seq![(key, v)] + rest, r))
                            },
                        }
                    },
                }
            },
        }
    }
}

/// The whole byte sequence is one canonical bencoded value.
pub open spec fn spec_decodes(s: Seq<u8>) -> bool {
    spec_parse(s, 0) matches Some((v, q)) && q == s.len()
}

/// The value the whole byte sequence decodes to.
pub open spec fn spec_decoded(s: Seq<u8>) -> BValue
    recommends
        spec_decodes(s),
{
    spec_parse(s, 0)->Some_0.0
}


/// Every position of a digit run holds a digit.
pub proof fn lemma_run_digits_range(s: Seq<u8>, pos: int)
    ensures
        forall|j: int| pos <= j < run_end(s, pos) ==> is_digit(#[trigger] s[j]),
    decreases s.len() - pos,
{
    if 0 <= pos < s.len() && is_digit(s[pos]) {
        lemma_run_digits_range(s, pos + 1);
    }
}

/// The value of a digit run is non-negative.
pub proof fn lemma_run_value_nonneg(s: Seq<u8>, pos: int, end: int)
    requires
        forall|j: int| pos <= j < end ==> is_digit(#[trigger] s[j]),
    ensures
        run_value(s, pos, end) >= 0,
    decreases end - pos,
{
    if end > pos {
        lemma_run_value_nonneg(s, pos, end - 1);
    }
}

/// Taking more digits never shrinks the value.
pub proof fn lemma_run_value_mono(s: Seq<u8>, pos: int, e1: int, e2: int)
    requires
        pos <= e1 <= e2,
        forall|j: int| pos <= j < e2 ==> is_digit(#[trigger] s[j]),
    ensures
        run_value(s, pos, e1) <= run_value(s, pos, e2),
    decreases e2 - e1,
{
    if e1 < e2 {
        lemma_run_value_mono(s, pos, e1, e2 - 1);
        lemma_run_value_nonneg(s, pos, e2 - 1);
    }
}

/// A canonical run with a non-zero leading digit has a positive value.
pub proof fn lemma_run_value_positive(s: Seq<u8>, pos: int, end: int)
    requires
        pos < end,
        forall|j: int| pos <= j < end ==> is_digit(#[trigger] s[j]),
        s[pos] != 48,
    ensures
        run_value(s, pos, end) >= 1,
    decreases end - pos,
{
    if end == pos + 1 {
        assert(run_value(s, pos, pos) == 0);
        assert(run_value(s, pos, end) == s[pos] - 48);
    } else {
        lemma_run_value_positive(s, pos, end - 1);
    }
}

/// A digit run never ends before it starts.
pub proof fn lemma_run_end_ge(s: Seq<u8>, pos: int)
    ensures
        run_end(s, pos) >= pos,
    decreases s.len() - pos,
{
    if 0 <= pos < s.len() && is_digit(s[pos]) {
        lemma_run_end_ge(s, pos + 1);
    }
}

/// The decimal digits of a canonical run's value are the run itself.
pub proof fn lemma_run_digits(s: Seq<u8>, pos: int, end: int)
    requires
        0 <= pos < end <= s.len(),
        forall|j: int| pos <= j < end ==> is_digit(#[trigger] s[j]),
        s[pos] == 48 ==> end == pos + 1,
    ensures
        spec_digits(run_value(s, pos, end)) == s.subrange(pos, end),
    decreases end - pos,
{
    let v = run_value(s, pos, end);
    let d = (s[end - 1] - 48) as int;
    let v0 = run_value(s, pos, end - 1);
    lemma_run_value_nonneg(s, pos, end);
    if end == pos + 1 {
        assert(v == d);
        assert(spec_digits(v) =~= s.subrange(pos, end));
    } else {
        lemma_run_value_positive(s, pos, end - 1);
        assert(v == v0 * 10 + d);
        assert(v >= 10);
        lemma_fundamental_div_mod_converse_div(v, 10, v0, d);
        lemma_fundamental_div_mod_converse_mod(v, 10, v0, d);
        assert(v / 10 == v0);
        assert(v % 10 == d);
        lemma_run_digits(s, pos, end - 1);
        assert(spec_digits(v) == spec_digits(v0).push((d + 48) as u8));
        assert(spec_digits(v) =~= s.subrange(pos, end));
    }
}

/// The decoder's error cases.
#[derive(Clone, Copy, Debug, PartialEq, Eq, Structural)]
pub enum DecodeError {
    /// The input ended inside a value.
    Truncated,
    /// A byte that opens no value, or a missing terminator.
    Unexpected,
    /// A number with a leading zero, a negative zero, or one too large.
    BadNumber,
    /// A byte string running past the end of the input.
    BadLength,
    /// Dictionary keys out of order.
    UnsortedKeys,
    /// Bytes left over after the value.
    Trailing,
    /// The decoded value does not have the shape the caller needs.
    Shape,
}

/// The byte at `i` is a decimal digit.
fn digit_at(s: &Vec<u8>, i: usize) -> (r: bool)
    requires
        i < s@.len(),
    ensures
        r == is_digit(s@[i as int]),
{
    48 <= s[i] && s[i] <= 57
}

/// Read a digit run and its value, rejecting leading zeros and values
/// beyond the unsigned 64-bit range.
fn parse_digits(s: &Vec<u8>, pos: usize) -> (r: Result<(u64, usize), DecodeError>)
    requires
        pos < s@.len(),
        is_digit(s@[pos as int]),
    ensures
        match r {
            Ok((v, q)) => canonical_run(s@, pos as int) && q == run_end(s@, pos as int) && v as int
                == run_value(s@, pos as int, q as int) && pos < q <= s@.len(),
            Err(_) => !canonical_run(s@, pos as int) || run_value(
                s@,
                pos as int,
                run_end(s@, pos as int),
            ) > u64::MAX as int,
        },
{
    let n = s.len();
    let mut cur = pos;
    let mut acc: u64 = 0;
    while cur < n && digit_at(s, cur)
        invariant
            pos <= cur <= n,
            n == s@.len(),
            pos < s@.len(),
            is_digit(s@[pos as int]),
            run_end(s@, pos as int) == run_end(s@, cur as int),
            acc as int == run_value(s@, pos as int, cur as int),
            forall|j: int| pos <= j < cur ==> is_digit(#[trigger] s@[j]),
        decreases n - cur,
    {
        let d = s[cur] - 48;
        if acc > (u64::MAX - d as u64) / 10 {
            proof {
                // the run's full value exceeds what an u64 can hold
                assert(run_value(s@, pos as int, cur as int + 1) == acc as int * 10 + d as int);
                assert(acc as int * 10 + d as int > u64::MAX as int) by {
                    let m = (u64::MAX - d as u64) as int;
                    lemma_fundamental_div_mod_converse_div(m, 10, m / 10, m % 10);
                    assert(acc as int >= m / 10 + 1);
                    assert(acc as int * 10 >= (m / 10 + 1) * 10) by (nonlinear_arith)
                        requires
                            acc as int >= m / 10 + 1,
                    ;
                    assert((m / 10 + 1) * 10 == (m / 10) * 10 + 10);
                    assert((m / 10) * 10 > m - 10);
                }
                lemma_run_digits_range(s@, pos as int);
                assert(run_end(s@, cur as int) == run_end(s@, cur as int + 1));
                lemma_run_end_ge(s@, cur as int + 1);
                assert(cur as int + 1 <= run_end(s@, pos as int));
                lemma_run_value_mono(s@, pos as int, cur as int + 1, run_end(s@, pos as int));
            }
            return Err(DecodeError::BadNumber);
        }
        proof {
            assert(run_value(s@, pos as int, cur as int + 1) == acc as int * 10 + d as int);
            assert(run_end(s@, cur as int) == run_end(s@, cur as int + 1));
        }
        acc = acc * 10 + d as u64;
        cur += 1;
    }
    proof {
        assert(run_end(s@, cur as int) == cur as int);
    }
    if s[pos] == 48 && cur > pos + 1 {
        return Err(DecodeError::BadNumber);
    }
    Ok((acc, cur))
}

/// Byte sequences compared lexicographically, shorter prefixes first.
pub fn bytes_lex_lt(a: &Vec<u8>, b: &Vec<u8>) -> (r: bool)
    ensures
        r == lex_lt(a@, b@),
{
    let na = a.len();
    let nb = b.len();
    let mut i: usize = 0;
    proof {
        assert(a@.skip(0) =~= a@);
        assert(b@.skip(0) =~= b@);
    }
    while i < na && i < nb
        invariant
            i <= na,
            i <= nb,
            na == a@.len(),
            nb == b@.len(),
            lex_lt(a@, b@) == lex_lt(a@.skip(i as int), b@.skip(i as int)),
        decreases na - i,
    {
        proof {
            assert(a@.skip(i as int)[0] == a@[i as int]);
            assert(b@.skip(i as int)[0] == b@[i as int]);
            assert(a@.skip(i as int).drop_first() =~= a@.skip(i as int + 1));
            assert(b@.skip(i as int).drop_first() =~= b@.skip(i as int + 1));
        }
        if a[i] < b[i] {
            return true;
        }
        if a[i] > b[i] {
            return false;
        }
        i += 1;
    }
    proof {
        assert(a@.skip(i as int).len() == na - i);
        assert(b@.skip(i as int).len() == nb - i);
    }
    na < nb
}

/// Read a byte string `<length>:<bytes>` at `pos`.
fn parse_bytestr(s: &Vec<u8>, pos: usize) -> (r: Result<(Vec<u8>, usize), DecodeError>)
    requires
        pos < s@.len(),
        is_digit(s@[pos as int]),
    ensures
        match r {
            Ok((b, q)) => spec_parse_bytestr(s@, pos as int) == Some((b@, q as int)) && pos < q
                <= s@.len(),
            Err(_) => spec_parse_bytestr(s@, pos as int) is None,
        },
{
    let n = s.len();
    let digits = parse_digits(s, pos);
    match digits {
        Err(e) => {
            proof {
                if canonical_run(s@, pos as int) {
                    // the length alone exceeds the input, so the string cannot fit
                    let e0 = run_end(s@, pos as int);
                    assert(run_value(s@, pos as int, e0) > u64::MAX as int);
                    assert(s@.len() <= usize::MAX as int <= u64::MAX as int);
                }
            }
            Err(e)
        },
        Ok((v, e)) => {
            if e >= n || s[e] != 58 {
                return Err(DecodeError::Unexpected);
            }
            let remaining = n - (e + 1);
            if v > remaining as u64 {
                return Err(DecodeError::BadLength);
            }
            let nb = v as usize;
            let mut out: Vec<u8> = Vec::new();
            let mut k: usize = 0;
            while k < nb
                invariant
                    k <= nb,
                    nb == v as int,
                    e + 1 + nb <= n,
                    n == s@.len(),
                    out@ =~= s@.subrange(e + 1, e + 1 + k),
                decreases nb - k,
            {
                out.push(s[e + 1 + k]);
                proof {
                    assert(out@ =~= s@.subrange(e + 1, e + 1 + k + 1));
                }
                k += 1;
            }
            Ok((out, e + 1 + nb))
        },
    }
}


/// Appending a node extends the value sequence by its value.
pub proof fn lemma_bvals_push(items: Seq<Bencode>, x: Bencode)
    ensures
        bvals(items.push(x)) == bvals(items) + seq![x.bval()],
    decreases items.len(),
{
    if items.len() == 0 {
        assert(items.push(x)[0] == x);
        assert(items.push(x).drop_first() =~= Seq::<Bencode>::empty());
        assert(bvals(items.push(x)) == seq![x.bval()] + bvals(Seq::<Bencode>::empty()));
        assert(bvals(Seq::<Bencode>::empty()) == Seq::<BValue>::empty());
        assert(seq![x.bval()] + Seq::<BValue>::empty() =~= Seq::<BValue>::empty() + seq![
            x.bval(),
        ]);
        assert(bvals(items) == Seq::<BValue>::empty());
    } else {
        assert(items.push(x)[0] == items[0]);
        assert(items.push(x).drop_first() =~= items.drop_first().push(x));
        lemma_bvals_push(items.drop_first(), x);
        assert(bvals(items.push(x)) == seq![items[0].bval()] + bvals(items.drop_first().push(x)));
        assert(bvals(items) == seq![items[0].bval()] + bvals(items.drop_first()));
        assert(seq![items[0].bval()] + (bvals(items.drop_first()) + seq![x.bval()]) =~= (seq![
            items[0].bval(),
        ] + bvals(items.drop_first())) + seq![x.bval()]);
    }
}

/// Appending a pair extends the pair-value sequence by its values.
pub proof fn lemma_bval_pairs_push(pairs: Seq<(Vec<u8>, Bencode)>, x: (Vec<u8>, Bencode))
    ensures
        bval_pairs(pairs.push(x)) == bval_pairs(pairs) + seq![(x.0@, x.1.bval())],
    decreases pairs.len(),
{
    if pairs.len() == 0 {
        assert(pairs.push(x)[0] == x);
        assert(pairs.push(x).drop_first() =~= Seq::<(Vec<u8>, Bencode)>::empty());
        assert(bval_pairs(pairs.push(x)) == seq![(x.0@, x.1.bval())] + bval_pairs(
            Seq::<(Vec<u8>, Bencode)>::empty(),
        ));
        assert(bval_pairs(Seq::<(Vec<u8>, Bencode)>::empty()) == Seq::<(Seq<u8>, BValue)>::empty());
        assert(seq![(x.0@, x.1.bval())] + Seq::<(Seq<u8>, BValue)>::empty() =~= Seq::<
            (Seq<u8>, BValue),
        >::empty() + seq![(x.0@, x.1.bval())]);
        assert(bval_pairs(pairs) == Seq::<(Seq<u8>, BValue)>::empty());
    } else {
        assert(pairs.push(x)[0] == pairs[0]);
        assert(pairs.push(x).drop_first() =~= pairs.drop_first().push(x));
        lemma_bval_pairs_push(pairs.drop_first(), x);
        assert(bval_pairs(pairs.push(x)) == seq![(pairs[0].0@, pairs[0].1.bval())] + bval_pairs(
            pairs.drop_first().push(x),
        ));
        assert(bval_pairs(pairs) == seq![(pairs[0].0@, pairs[0].1.bval())] + bval_pairs(
            pairs.drop_first(),
        ));
        assert(seq![(pairs[0].0@, pairs[0].1.bval())] + (bval_pairs(pairs.drop_first()) + seq![
            (x.0@, x.1.bval()),
        ]) =~= (seq![(pairs[0].0@, pairs[0].1.bval())] + bval_pairs(pairs.drop_first())) + seq![
            (x.0@, x.1.bval()),
        ]);
    }
}

/// Read one bencoded value at `pos`.
fn parse_value(s: &Vec<u8>, pos: usize) -> (r: Result<(Bencode, usize), DecodeError>)
    requires
        pos <= s@.len(),
    ensures
        match r {
            Ok((v, q)) => spec_parse(s@, pos as int) == Some((v.bval(), q as int)) && pos < q
                <= s@.len(),
            Err(_) => spec_parse(s@, pos as int) is None,
        },
    decreases s@.len() - pos, 1int,
{
    let n = s.len();
    if pos >= n {
        return Err(DecodeError::Truncated);
    }
    let b = s[pos];
    if b == 105 {  // 'i'
        if pos + 1 >= n {
            return Err(DecodeError::Truncated);
        }
        if s[pos + 1] == 45 {  // '-'
            if pos + 2 >= n || !digit_at(s, pos + 2) {
                proof {
                    if pos + 2 < s@.len() && !is_digit(s@[pos as int + 2]) {
                        assert(run_end(s@, pos as int + 2) == pos as int + 2);
                    }
                }
                return Err(DecodeError::BadNumber);
            }
            let digits = parse_digits(s, pos + 2);
            match digits {
                Err(e) => {
                    proof {
                        if canonical_run(s@, pos as int + 2) {
                            let e0 = run_end(s@, pos as int + 2);
                            assert(run_value(s@, pos as int + 2, e0) > u64::MAX as int);
                        }
                    }
                    Err(e)
                },
                Ok((v, e)) => {
                    if v == 0 {
                        return Err(DecodeError::BadNumber);
                    }
                    if v > 9223372036854775808u64 {
                        return Err(DecodeError::BadNumber);
                    }
                    if e >= n || s[e] != 101 {
                        return Err(DecodeError::Unexpected);
                    }
                    let val: i64 = if v == 9223372036854775808u64 {
                        i64::MIN
                    } else {
                        -(v as i64)
                    };
                    proof {
                        assert(val as int == -(v as int));
                    }
                    Ok((Bencode::Int(val), e + 1))
                },
            }
        } else {
            if !digit_at(s, pos + 1) {
                proof {
                    assert(run_end(s@, pos as int + 1) == pos as int + 1);
                }
                return Err(DecodeError::BadNumber);
            }
            let digits = parse_digits(s, pos + 1);
            match digits {
                Err(e) => {
                    proof {
                        if canonical_run(s@, pos as int + 1) {
                            let e0 = run_end(s@, pos as int + 1);
                            assert(run_value(s@, pos as int + 1, e0) > u64::MAX as int);
                        }
                    }
                    Err(e)
                },
                Ok((v, e)) => {
                    if v > i64::MAX as u64 {
                        return Err(DecodeError::BadNumber);
                    }
                    if e >= n || s[e] != 101 {
                        return Err(DecodeError::Unexpected);
                    }
                    Ok((Bencode::Int(v as i64), e + 1))
                },
            }
        }
    } else if b == 108 {  // 'l'
        let items = parse_items(s, pos + 1);
        match items {
            Err(e) => Err(e),
            Ok((list, q)) => Ok((Bencode::List(list), q)),
        }
    } else if b == 100 {  // 'd'
        let pairs = parse_pairs(s, pos + 1);
        match pairs {
            Err(e) => Err(e),
            Ok((dict, q)) => Ok((Bencode::Dict(dict), q)),
        }
    } else if 48 <= b && b <= 57 {
        let bytes = parse_bytestr(s, pos);
        match bytes {
            Err(e) => Err(e),
            Ok((bstr, q)) => Ok((Bencode::Bytes(bstr), q)),
        }
    } else {
        proof {
            assert(run_end(s@, pos as int) == pos as int);
        }
        Err(DecodeError::Unexpected)
    }
}

/// Read list items at `pos` up to and including the closing `e`.
fn parse_items(s: &Vec<u8>, pos: usize) -> (r: Result<(Vec<Bencode>, usize), DecodeError>)
    requires
        pos <= s@.len(),
    ensures
        match r {
            Ok((items, q)) => spec_parse_items(s@, pos as int) == Some((bvals(items@), q as int))
                && pos < q <= s@.len(),
            Err(_) => spec_parse_items(s@, pos as int) is None,
        },
    decreases s@.len() - pos, 2int,
{
    let n = s.len();
    let mut out: Vec<Bencode> = Vec::new();
    let mut cur = pos;
    while cur < n && s[cur] != 101
        invariant
            pos <= cur <= n,
            n == s@.len(),
            spec_parse_items(s@, cur as int) is None ==> spec_parse_items(s@, pos as int) is None,
            forall|rest: Seq<BValue>, r: int|
                spec_parse_items(s@, cur as int) == Some((rest, r)) ==> spec_parse_items(
                    s@,
                    pos as int,
                ) == Some((bvals(out@) + rest, r)),
        decreases n - cur,
    {
        let step = parse_value(s, cur);
        match step {
            Err(e) => {
                return Err(e);
            },
            Ok((v, q)) => {
                proof {
                    let ghost rest0 = spec_parse_items(s@, q as int);
                    if rest0 is Some {
                        let (rest, r) = rest0->Some_0;
                        assert(spec_parse_items(s@, cur as int) == Some((seq![v.bval()] + rest, r)));
                        lemma_bvals_push(out@, v);
                        assert(bvals(out@) + (seq![v.bval()] + rest) =~= bvals(out@.push(v)) + rest);
                    } else {
                        assert(spec_parse_items(s@, cur as int) is None);
                    }
                }
                out.push(v);
                cur = q;
            },
        }
    }
    if cur >= n {
        return Err(DecodeError::Truncated);
    }
    proof {
        assert(spec_parse_items(s@, cur as int) == Some((Seq::<BValue>::empty(), cur as int + 1)));
        assert(bvals(out@) + Seq::<BValue>::empty() =~= bvals(out@));
    }
    Ok((out, cur + 1))
}

/// Read dictionary pairs at `pos` up to and including the closing `e`,
/// requiring strictly increasing keys.
fn parse_pairs(s: &Vec<u8>, pos: usize) -> (r: Result<(Vec<(Vec<u8>, Bencode)>, usize), DecodeError>)
    requires
        pos <= s@.len(),
    ensures
        match r {
            Ok((pairs, q)) => spec_parse_pairs(s@, pos as int) == Some(
                (bval_pairs(pairs@), q as int),
            ) && pos < q <= s@.len(),
            Err(_) => spec_parse_pairs(s@, pos as int) is None,
        },
    decreases s@.len() - pos, 2int,
{
    let n = s.len();
    let mut out: Vec<(Vec<u8>, Bencode)> = Vec::new();
    let mut cur = pos;
    while cur < n && s[cur] != 101
        invariant
            pos <= cur <= n,
            n == s@.len(),
            spec_parse_pairs(s@, cur as int) is None ==> spec_parse_pairs(s@, pos as int) is None,
            forall|rest: Seq<(Seq<u8>, BValue)>, r: int|
                spec_parse_pairs(s@, cur as int) == Some((rest, r)) && (out@.len() == 0
                    || rest.len() == 0 || lex_lt(out@.last().0@, rest[0].0)) ==> spec_parse_pairs(
                    s@,
                    pos as int,
                ) == Some((bval_pairs(out@) + rest, r)),
            forall|rest: Seq<(Seq<u8>, BValue)>, r: int|
                spec_parse_pairs(s@, cur as int) == Some((rest, r)) && out@.len() > 0 && rest.len()
                    > 0 && !lex_lt(out@.last().0@, rest[0].0) ==> spec_parse_pairs(
                    s@,
                    pos as int,
                ) is None,
        decreases n - cur,
    {
        if !digit_at(s, cur) {
            proof {
                assert(run_end(s@, cur as int) == cur as int);
                assert(spec_parse_pairs(s@, cur as int) is None);
            }
            return Err(DecodeError::Unexpected);
        }
        let keystep = parse_bytestr(s, cur);
        match keystep {
            Err(_) => {
                proof {
                    assert(spec_parse_pairs(s@, cur as int) is None);
                }
                return Err(DecodeError::Unexpected);
            },
            Ok((key, qk)) => {
                let valstep = parse_value(s, qk);
                match valstep {
                    Err(e) => {
                        proof {
                            assert(spec_parse_pairs(s@, cur as int) is None);
                        }
                        return Err(e);
                    },
                    Ok((v, qv)) => {
                        if out.len() > 0 {
                            let ordered = bytes_lex_lt(&out[out.len() - 1].0, &key);
                            if !ordered {
                                proof {
                                    let ghost rest0 = spec_parse_pairs(s@, qv as int);
                                    if rest0 is Some {
                                        let (rest, r) = rest0->Some_0;
                                        if rest.len() > 0 && !lex_lt(key@, rest[0].0) {
                                            assert(spec_parse_pairs(s@, cur as int) is None);
                                        } else {
                                            assert(spec_parse_pairs(s@, cur as int) == Some(
                                                (seq![(key@, v.bval())] + rest, r),
                                            ));
                                        }
                                    } else {
                                        assert(spec_parse_pairs(s@, cur as int) is None);
                                    }
                                }
                                return Err(DecodeError::UnsortedKeys);
                            }
                        }
                        proof {
                            let ghost rest0 = spec_parse_pairs(s@, qv as int);
                            if rest0 is Some {
                                let (rest, r) = rest0->Some_0;
                                if rest.len() > 0 && !lex_lt(key@, rest[0].0) {
                                    assert(spec_parse_pairs(s@, cur as int) is None);
                                } else {
                                    assert(spec_parse_pairs(s@, cur as int) == Some(
                                        (seq![(key@, v.bval())] + rest, r),
                                    ));
                                    lemma_bval_pairs_push(out@, (key, v));
                                    assert(bval_pairs(out@) + (seq![(key@, v.bval())] + rest)
                                        =~= bval_pairs(out@.push((key, v))) + rest);
                                }
                            } else {
                                assert(spec_parse_pairs(s@, cur as int) is None);
                            }
                            assert(out@.push((key, v)).last() == (key, v));
                        }
                        out.push((key, v));
                        cur = qv;
                    },
                }
            },
        }
    }
    if cur >= n {
        return Err(DecodeError::Truncated);
    }
    proof {
        assert(spec_parse_pairs(s@, cur as int) == Some(
            (Seq::<(Seq<u8>, BValue)>::empty(), cur as int + 1),
        ));
        assert(bval_pairs(out@) + Seq::<(Seq<u8>, BValue)>::empty() =~= bval_pairs(out@));
    }
    Ok((out, cur + 1))
}

/// Decode a whole byte sequence as one canonical bencoded value.
/// The narrowing to canonical form is deliberate: a compliant encoder
/// sorts its dictionary keys and writes minimal decimals, and only on
/// such documents can rewriting promise to preserve the untouched
/// bytes exactly; a non-canonical document is rejected rather than
/// silently re-normalized.
pub fn decode(bytes: &Vec<u8>) -> (r: Result<Bencode, DecodeError>)
    ensures
        r matches Ok(v) ==> spec_decodes(bytes@) && v.bval() == spec_decoded(bytes@),
        r is Err ==> !spec_decodes(bytes@),
{
    let step = parse_value(bytes, 0);
    match step {
        Err(e) => Err(e),
        Ok((v, q)) => {
            if q != bytes.len() {
                return Err(DecodeError::Trailing);
            }
            Ok(v)
        },
    }
}


/// Appending a value extends the concatenated item encoding by its own.
pub proof fn lemma_encode_items_push(items: Seq<BValue>, x: BValue)
    ensures
        spec_encode_items(items.push(x)) == spec_encode_items(items) + spec_encode(x),
    decreases items.len(),
{
    if items.len() == 0 {
        assert(items.push(x)[0] == x);
        assert(items.push(x).drop_first() =~= Seq::<BValue>::empty());
        assert(spec_encode_items(items.push(x)) == spec_encode(x) + spec_encode_items(
            Seq::<BValue>::empty(),
        ));
        assert(spec_encode_items(items) == Seq::<u8>::empty());
        assert(spec_encode(x) + Seq::<u8>::empty() =~= Seq::<u8>::empty() + spec_encode(x));
    } else {
        assert(items.push(x)[0] == items[0]);
        assert(items.push(x).drop_first() =~= items.drop_first().push(x));
        lemma_encode_items_push(items.drop_first(), x);
        assert(spec_encode_items(items.push(x)) == spec_encode(items[0]) + (spec_encode_items(
            items.drop_first(),
        ) + spec_encode(x)));
        assert(spec_encode_items(items) == spec_encode(items[0]) + spec_encode_items(
            items.drop_first(),
        ));
        assert(spec_encode(items[0]) + (spec_encode_items(items.drop_first()) + spec_encode(x))
            =~= (spec_encode(items[0]) + spec_encode_items(items.drop_first())) + spec_encode(x));
    }
}

/// Appending a pair extends the concatenated pair encoding by its own.
pub proof fn lemma_encode_pairs_push(pairs: Seq<(Seq<u8>, BValue)>, x: (Seq<u8>, BValue))
    ensures
        spec_encode_pairs(pairs.push(x)) == spec_encode_pairs(pairs) + (spec_digits(
            x.0.len() as int,
        ) + seq![58u8] + x.0 + spec_encode(x.1)),
    decreases pairs.len(),
{
    let ex = spec_digits(x.0.len() as int) + seq![58u8] + x.0 + spec_encode(x.1);
    if pairs.len() == 0 {
        assert(pairs.push(x)[0] == x);
        assert(pairs.push(x).drop_first() =~= Seq::<(Seq<u8>, BValue)>::empty());
        assert(spec_encode_pairs(pairs.push(x)) == ex + spec_encode_pairs(
            Seq::<(Seq<u8>, BValue)>::empty(),
        ));
        assert(spec_encode_pairs(pairs) == Seq::<u8>::empty());
        assert(ex + Seq::<u8>::empty() =~= Seq::<u8>::empty() + ex);
    } else {
        let e0 = spec_digits(pairs[0].0.len() as int) + seq![58u8] + pairs[0].0 + spec_encode(
            pairs[0].1,
        );
        assert(pairs.push(x)[0] == pairs[0]);
        assert(pairs.push(x).drop_first() =~= pairs.drop_first().push(x));
        lemma_encode_pairs_push(pairs.drop_first(), x);
        assert(spec_encode_pairs(pairs.push(x)) == e0 + (spec_encode_pairs(pairs.drop_first())
            + ex));
        assert(spec_encode_pairs(pairs) == e0 + spec_encode_pairs(pairs.drop_first()));
        assert(e0 + (spec_encode_pairs(pairs.drop_first()) + ex) =~= (e0 + spec_encode_pairs(
            pairs.drop_first(),
        )) + ex);
    }
}

/// Write the decimal digits of `n` onto the output.
fn push_digits(n: u64, out: &mut Vec<u8>)
    ensures
        final(out)@ == old(out)@ + spec_digits(n as int),
    decreases n,
{
    if n >= 10 {
        push_digits(n / 10, out);
        let d = (n % 10) as u8;
        out.push(d + 48);
        proof {
            assert(n as int / 10 == (n / 10) as int);
            assert(n as int % 10 == (n % 10) as int);
            assert(final(out)@ =~= old(out)@ + spec_digits(n as int));
        }
    } else {
        let d = n as u8;
        out.push(d + 48);
        proof {
            assert(final(out)@ =~= old(out)@ + spec_digits(n as int));
        }
    }
}

/// Write a byte string `<length>:<bytes>` onto the output.
fn push_bytestr(b: &Vec<u8>, out: &mut Vec<u8>)
    ensures
        final(out)@ == old(out)@ + spec_digits(b@.len() as int) + seq![58u8] + b@,
{
    push_digits(b.len() as u64, out);
    out.push(58);
    let nb = b.len();
    let ghost mid = out@;
    let mut k: usize = 0;
    while k < nb
        invariant
            k <= nb,
            nb == b@.len(),
            out@ =~= mid + b@.subrange(0, k as int),
        decreases nb - k,
    {
        out.push(b[k]);
        proof {
            assert(out@ =~= mid + b@.subrange(0, k as int + 1));
        }
        k += 1;
    }
    proof {
        assert(b@.subrange(0, nb as int) =~= b@);
        assert(out@ =~= old(out)@ + spec_digits(b@.len() as int) + seq![58u8] + b@);
    }
}

/// Write the encoding of a value onto the output.
#[verifier::loop_isolation(false)]
fn encode_into(v: &Bencode, out: &mut Vec<u8>)
    ensures
        final(out)@ == old(out)@ + spec_encode(v.bval()),
    decreases v,
{
    match v {
        Bencode::Int(i) => {
            out.push(105);
            if *i < 0 {
                out.push(45);
                let mag: u64 = if *i == i64::MIN {
                    9223372036854775808u64
                } else {
                    (-*i) as u64
                };
                proof {
                    assert(mag as int == -(*i as int));
                }
                push_digits(mag, out);
            } else {
                push_digits(*i as u64, out);
            }
            out.push(101);
            proof {
                assert(final(out)@ =~= old(out)@ + spec_encode(v.bval()));
            }
        },
        Bencode::Bytes(b) => {
            push_bytestr(b, out);
            proof {
                assert(final(out)@ =~= old(out)@ + spec_encode(v.bval()));
            }
        },
        Bencode::List(items) => {
            out.push(108);
            let ghost base = out@;
            let n = items.len();
            let mut j: usize = 0;
            while j < n
                invariant
                    j <= n,
                    n == items@.len(),
                    out@ == base + spec_encode_items(bvals(items@.subrange(0, j as int))),
                decreases n - j,
            {
                encode_into(&items[j], out);
                proof {
                    assert(items@.subrange(0, j as int + 1) =~= items@.subrange(0, j as int).push(
                        items@[j as int],
                    ));
                    lemma_bvals_push(items@.subrange(0, j as int), items@[j as int]);
                    lemma_encode_items_push(
                        bvals(items@.subrange(0, j as int)),
                        items@[j as int].bval(),
                    );
                    assert(bvals(items@.subrange(0, j as int)).push(items@[j as int].bval())
                        =~= bvals(items@.subrange(0, j as int)) + seq![items@[j as int].bval()]);
                    assert(out@ =~= base + spec_encode_items(
                        bvals(items@.subrange(0, j as int + 1)),
                    ));
                }
                j += 1;
            }
            out.push(101);
            proof {
                assert(items@.subrange(0, n as int) =~= items@);
                assert(spec_encode_items(bvals(Seq::<Bencode>::empty())) == Seq::<u8>::empty());
                assert(base =~= base + spec_encode_items(bvals(items@.subrange(0, 0))));
                assert(final(out)@ =~= old(out)@ + spec_encode(v.bval()));
            }
        },
        Bencode::Dict(pairs) => {
            out.push(100);
            let ghost base = out@;
            let n = pairs.len();
            let mut j: usize = 0;
            while j < n
                invariant
                    j <= n,
                    n == pairs@.len(),
                    out@ == base + spec_encode_pairs(bval_pairs(pairs@.subrange(0, j as int))),
                decreases n - j,
            {
                push_bytestr(&pairs[j].0, out);
                encode_into(&pairs[j].1, out);
                proof {
                    assert(pairs@.subrange(0, j as int + 1) =~= pairs@.subrange(0, j as int).push(
                        pairs@[j as int],
                    ));
                    lemma_bval_pairs_push(pairs@.subrange(0, j as int), pairs@[j as int]);
                    lemma_encode_pairs_push(
                        bval_pairs(pairs@.subrange(0, j as int)),
                        (pairs@[j as int].0@, pairs@[j as int].1.bval()),
                    );
                    assert(bval_pairs(pairs@.subrange(0, j as int)).push(
                        (pairs@[j as int].0@, pairs@[j as int].1.bval()),
                    ) =~= bval_pairs(pairs@.subrange(0, j as int)) + seq![
                        (pairs@[j as int].0@, pairs@[j as int].1.bval()),
                    ]);
                    assert(out@ =~= base + spec_encode_pairs(
                        bval_pairs(pairs@.subrange(0, j as int + 1)),
                    ));
                }
                j += 1;
            }
            out.push(101);
            proof {
                assert(pairs@.subrange(0, n as int) =~= pairs@);
                assert(spec_encode_pairs(bval_pairs(Seq::<(Vec<u8>, Bencode)>::empty()))
                    == Seq::<u8>::empty());
                assert(base =~= base + spec_encode_pairs(bval_pairs(pairs@.subrange(0, 0))));
                assert(final(out)@ =~= old(out)@ + spec_encode(v.bval()));
            }
        },
    }
}

/// Encode a value into its canonical byte form.
pub fn encode(v: &Bencode) -> (r: Vec<u8>)
    ensures
        r@ == spec_encode(v.bval()),
{
    let mut out: Vec<u8> = Vec::new();
    encode_into(v, &mut out);
    proof {
        assert(Seq::<u8>::empty() + spec_encode(v.bval()) =~= spec_encode(v.bval()));
    }
    out
}


/// A parsed byte string re-encodes to exactly the bytes it was read from.
pub proof fn lemma_bytestr_canonical(s: Seq<u8>, pos: int)
    ensures
        spec_parse_bytestr(s, pos) matches Some((b, q)) ==> spec_digits(b.len() as int)
            + seq![58u8] + b == s.subrange(pos, q) && pos < q <= s.len(),
    decreases s.len() - pos, 0int,
{
    if spec_parse_bytestr(s, pos) is Some {
        let e = run_end(s, pos);
        let n = run_value(s, pos, e);
        let (b, q) = spec_parse_bytestr(s, pos)->Some_0;
        lemma_run_digits_range(s, pos);
        lemma_run_value_nonneg(s, pos, e);
        lemma_run_digits(s, pos, e);
        assert(b.len() == n);
        assert(spec_digits(b.len() as int) == s.subrange(pos, e));
        assert(spec_digits(b.len() as int) + seq![58u8] + b =~= s.subrange(pos, q));
    }
}

/// A parsed value re-encodes to exactly the bytes it was read from.
pub proof fn lemma_parse_canonical(s: Seq<u8>, pos: int)
    ensures
        spec_parse(s, pos) matches Some((v, q)) ==> spec_encode(v) == s.subrange(pos, q) && pos < q
            <= s.len(),
    decreases s.len() - pos, 1int,
{
    if spec_parse(s, pos) is Some {
        let (v, q) = spec_parse(s, pos)->Some_0;
        if s[pos] == 105 {
            if s[pos + 1] == 45 {
                let e = run_end(s, pos + 2);
                let n = run_value(s, pos + 2, e);
                lemma_run_digits_range(s, pos + 2);
                lemma_run_value_nonneg(s, pos + 2, e);
                lemma_run_digits(s, pos + 2, e);
                assert(v == BValue::Int(-n));
                assert(spec_int_bytes(-n) == seq![45u8] + spec_digits(n));
                assert(spec_encode(v) =~= s.subrange(pos, q));
            } else {
                let e = run_end(s, pos + 1);
                let n = run_value(s, pos + 1, e);
                lemma_run_digits_range(s, pos + 1);
                lemma_run_value_nonneg(s, pos + 1, e);
                lemma_run_digits(s, pos + 1, e);
                assert(v == BValue::Int(n));
                assert(spec_int_bytes(n) == spec_digits(n));
                assert(spec_encode(v) =~= s.subrange(pos, q));
            }
        } else if s[pos] == 108 {
            lemma_items_canonical(s, pos + 1);
            let (items, q1) = spec_parse_items(s, pos + 1)->Some_0;
            assert(spec_encode(v) == seq![108u8] + spec_encode_items(items) + seq![101u8]);
            assert(spec_encode(v) =~= s.subrange(pos, q));
        } else if s[pos] == 100 {
            lemma_pairs_canonical(s, pos + 1);
            let (pairs, q1) = spec_parse_pairs(s, pos + 1)->Some_0;
            assert(spec_encode(v) == seq![100u8] + spec_encode_pairs(pairs) + seq![101u8]);
            assert(spec_encode(v) =~= s.subrange(pos, q));
        } else {
            lemma_bytestr_canonical(s, pos);
            let (b, q1) = spec_parse_bytestr(s, pos)->Some_0;
            assert(spec_encode(v) == spec_digits(b.len() as int) + seq![58u8] + b);
        }
    }
}

/// Parsed list items re-encode to exactly the bytes they were read from,
/// up to the closing terminator.
pub proof fn lemma_items_canonical(s: Seq<u8>, pos: int)
    ensures
        spec_parse_items(s, pos) matches Some((items, q)) ==> spec_encode_items(items)
            == s.subrange(pos, q - 1) && pos < q <= s.len() && s[q - 1] == 101,
    decreases s.len() - pos, 2int,
{
    if spec_parse_items(s, pos) is Some {
        let (items, q) = spec_parse_items(s, pos)->Some_0;
        if s[pos] == 101 {
            assert(spec_encode_items(items) =~= s.subrange(pos, pos));
        } else {
            let (v, q1) = spec_parse(s, pos)->Some_0;
            lemma_parse_canonical(s, pos);
            lemma_items_canonical(s, q1);
            let (rest, q2) = spec_parse_items(s, q1)->Some_0;
            assert(items == seq![v] + rest);
            assert(items[0] == v);
            assert(items.drop_first() =~= rest);
            assert(spec_encode_items(items) == spec_encode(v) + spec_encode_items(rest));
            assert(spec_encode_items(items) =~= s.subrange(pos, q - 1));
        }
    }
}

/// Parsed dictionary pairs re-encode to exactly the bytes they were read
/// from, up to the closing terminator.
pub proof fn lemma_pairs_canonical(s: Seq<u8>, pos: int)
    ensures
        spec_parse_pairs(s, pos) matches Some((pairs, q)) ==> spec_encode_pairs(pairs)
            == s.subrange(pos, q - 1) && pos < q <= s.len() && s[q - 1] == 101,
    decreases s.len() - pos, 2int,
{
    if spec_parse_pairs(s, pos) is Some {
        let (pairs, q) = spec_parse_pairs(s, pos)->Some_0;
        if s[pos] == 101 {
            assert(spec_encode_pairs(pairs) =~= s.subrange(pos, pos));
        } else {
            let (key, qk) = spec_parse_bytestr(s, pos)->Some_0;
            lemma_bytestr_canonical(s, pos);
            let (v, qv) = spec_parse(s, qk)->Some_0;
            lemma_parse_canonical(s, qk);
            lemma_pairs_canonical(s, qv);
            let (rest, q2) = spec_parse_pairs(s, qv)->Some_0;
            assert(pairs == seq![(key, v)] + rest);
            assert(pairs[0] == (key, v));
            assert(pairs.drop_first() =~= rest);
            assert(spec_encode_pairs(pairs) == spec_digits(key.len() as int) + seq![58u8] + key
                + spec_encode(v) + spec_encode_pairs(rest));
            assert(spec_encode_pairs(pairs) =~= s.subrange(pos, q - 1));
        }
    }
}

/// Decoding a canonical document and re-encoding the value reproduces the
/// document byte for byte.
pub proof fn lemma_decode_encode(s: Seq<u8>)
    requires
        spec_decodes(s),
    ensures
        spec_encode(spec_decoded(s)) == s,
{
    lemma_parse_canonical(s, 0);
    assert(s.subrange(0, s.len() as int) =~= s);
}


/// `bvals` maps elementwise.
pub proof fn lemma_bvals_index(items: Seq<Bencode>)
    ensures
        bvals(items).len() == items.len(),
        forall|i: int| 0 <= i < items.len() ==> #[trigger] bvals(items)[i] == items[i].bval(),
    decreases items.len(),
{
    if items.len() > 0 {
        lemma_bvals_index(items.drop_first());
        assert forall|i: int| 0 <= i < items.len() implies #[trigger] bvals(items)[i]
            == items[i].bval() by {
            if i > 0 {
                assert(bvals(items)[i] == bvals(items.drop_first())[i - 1]);
                assert(items.drop_first()[i - 1] == items[i]);
            }
        }
    }
}

/// `bval_pairs` maps elementwise.
pub proof fn lemma_bval_pairs_index(pairs: Seq<(Vec<u8>, Bencode)>)
    ensures
        bval_pairs(pairs).len() == pairs.len(),
        forall|i: int|
            0 <= i < pairs.len() ==> #[trigger] bval_pairs(pairs)[i] == (pairs[i].0@,
            pairs[i].1.bval()),
    decreases pairs.len(),
{
    if pairs.len() > 0 {
        lemma_bval_pairs_index(pairs.drop_first());
        assert forall|i: int|
            0 <= i < pairs.len() implies #[trigger] bval_pairs(pairs)[i] == (pairs[i].0@,
        pairs[i].1.bval()) by {
            if i > 0 {
                assert(bval_pairs(pairs)[i] == bval_pairs(pairs.drop_first())[i - 1]);
                assert(pairs.drop_first()[i - 1] == pairs[i]);
            }
        }
    }
}

} // verus!
