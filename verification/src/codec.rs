//! Core of the record encoding: a small JSON writer and reader over bytes,
//! with proofs that reading inverts writing.
//!
//! Records are stored as UTF-8 JSON text. The writer is canonical (fixed
//! field order, `"` and `\` escaped, amounts as decimals with up to three
//! fraction digits); the reader accepts what the writer emits and returns
//! `None` on anything malformed.
use vstd::prelude::*;
use vstd::seq_lib::lemma_concat_associative;
use crate::bytes::s2b;

verus! {

pub const QUOTE: u8 = 34;

pub const BACKSLASH: u8 = 92;

pub const COMMA: u8 = 44;

pub const DOT: u8 = 46;

pub const LBRACKET: u8 = 91;

pub const RBRACKET: u8 = 93;

pub const LBRACE: u8 = 123;

pub const RBRACE: u8 = 125;

// -------------------------------------------------------------------------
// string escaping
// -------------------------------------------------------------------------
/// One byte of string content, escaped if it is a quote or a backslash.
pub open spec fn esc_byte(b: u8) -> Seq<u8> {
    if b == QUOTE || b == BACKSLASH {
        seq![BACKSLASH, b]
    } else {
        seq![b]
    }
}

/// A string's content with quotes and backslashes escaped.
pub open spec fn esc(s: Seq<u8>) -> Seq<u8>
    decreases s.len(),
{
    if s.len() == 0 {
        Seq::empty()
    } else {
        esc_byte(s[0]) + esc(s.drop_first())
    }
}

/// A quoted, escaped JSON string.
pub open spec fn enc_str(s: Seq<u8>) -> Seq<u8> {
    seq![QUOTE] + esc(s) + seq![QUOTE]
}

pub proof fn lemma_esc_concat(a: Seq<u8>, b: Seq<u8>)
    ensures
        esc(a + b) == esc(a) + esc(b),
    decreases a.len(),
{
    if a.len() == 0 {
        assert(a + b =~= b);
        assert(esc(a) + esc(b) =~= esc(b));
    } else {
        assert((a + b).drop_first() =~= a.drop_first() + b);
        lemma_esc_concat(a.drop_first(), b);
        assert(esc_byte((a + b)[0]) + (esc(a.drop_first()) + esc(b)) =~= (esc_byte(a[0]) + esc(
            a.drop_first(),
        )) + esc(b));
    }
}

/// Appends one escaped content byte.
fn push_esc_byte(b: u8, out: &mut Vec<u8>)
    ensures
        final(out)@ == old(out)@ + esc_byte(b),
{
    if b == QUOTE || b == BACKSLASH {
        out.push(BACKSLASH);
        out.push(b);
        proof {
            assert(out@ =~= old(out)@ + esc_byte(b));
        }
    } else {
        out.push(b);
        proof {
            assert(out@ =~= old(out)@ + esc_byte(b));
        }
    }
}

/// Appends the quoted, escaped form of `s`.
pub fn write_str(s: &Vec<u8>, out: &mut Vec<u8>)
    ensures
        final(out)@ == old(out)@ + enc_str(s@),
{
    out.push(QUOTE);
    let mut i: usize = 0;
    while i < s.len()
        invariant
            i <= s@.len(),
            out@ == old(out)@ + seq![QUOTE] + esc(s@.subrange(0, i as int)),
        decreases s@.len() - i,
    {
        proof {
            assert(s@.subrange(0, i + 1) =~= s@.subrange(0, i as int) + seq![s@[i as int]]);
            lemma_esc_concat(s@.subrange(0, i as int), seq![s@[i as int]]);
            let sub1 = seq![s@[i as int]];
            assert(sub1.drop_first() =~= Seq::<u8>::empty());
            assert(esc(Seq::<u8>::empty()) == Seq::<u8>::empty());
            assert(esc(sub1) =~= esc_byte(s@[i as int]));
        }
        push_esc_byte(s[i], out);
        i = i + 1;
    }
    proof {
        assert(s@.subrange(0, s@.len() as int) =~= s@);
    }
    out.push(QUOTE);
    proof {
        assert(out@ =~= old(out)@ + enc_str(s@));
    }
}

// -------------------------------------------------------------------------
// string parsing
// -------------------------------------------------------------------------
/// Reads escaped string content up to and past the closing quote.
pub open spec fn sp_str_body(s: Seq<u8>, i: int) -> Option<(Seq<u8>, int)>
    decreases s.len() - i,
{
    if i < 0 || i >= s.len() {
        None
    } else if s[i] == QUOTE {
        Some((Seq::empty(), i + 1))
    } else if s[i] == BACKSLASH {
        if i + 1 < s.len() {
            match sp_str_body(s, i + 2) {
                Some(r) => Some((seq![s[i + 1]] + r.0, r.1)),
                None => None,
            }
        } else {
            None
        }
    } else {
        match sp_str_body(s, i + 1) {
            Some(r) => Some((seq![s[i]] + r.0, r.1)),
            None => None,
        }
    }
}

/// Reads a quoted string starting at `i`.
pub open spec fn sp_str(s: Seq<u8>, i: int) -> Option<(Seq<u8>, int)> {
    if 0 <= i < s.len() && s[i] == QUOTE {
        sp_str_body(s, i + 1)
    } else {
        None
    }
}

pub proof fn lemma_sp_str_body_advances(s: Seq<u8>, i: int)
    ensures
        sp_str_body(s, i) is Some ==> i < sp_str_body(s, i)->Some_0.1 <= s.len(),
    decreases s.len() - i,
{
    if i < 0 || i >= s.len() {
    } else if s[i] == QUOTE {
    } else if s[i] == BACKSLASH {
        if i + 1 < s.len() {
            lemma_sp_str_body_advances(s, i + 2);
        }
    } else {
        lemma_sp_str_body_advances(s, i + 1);
    }
}

proof fn lemma_sp_str_body_inverts(s: Seq<u8>, pre: Seq<u8>, v: Seq<u8>, rest: Seq<u8>)
    requires
        s == pre + esc(v) + seq![QUOTE] + rest,
    ensures
        sp_str_body(s, pre.len() as int) == Some::<(Seq<u8>, int)>(
            (v, pre.len() as int + esc(v).len() + 1),
        ),
    decreases v.len(),
{
    let base = pre.len() as int;
    if v.len() == 0 {
        assert(esc(v) =~= Seq::<u8>::empty());
        assert(s[base] == QUOTE);
    } else {
        let b = v[0];
        let v1 = v.drop_first();
        assert(esc(v) == esc_byte(b) + esc(v1));
        if b == QUOTE || b == BACKSLASH {
            assert(s[base] == BACKSLASH && s[base + 1] == b);
            let pre2 = pre + seq![BACKSLASH, b];
            assert(s =~= pre2 + esc(v1) + seq![QUOTE] + rest);
            lemma_sp_str_body_inverts(s, pre2, v1, rest);
            assert(base + 1 < s.len());
            assert(seq![s[base + 1]] + v1 =~= v);
        } else {
            assert(s[base] == b);
            let pre2 = pre + seq![b];
            assert(s =~= pre2 + esc(v1) + seq![QUOTE] + rest);
            lemma_sp_str_body_inverts(s, pre2, v1, rest);
            assert(seq![s[base]] + v1 =~= v);
        }
    }
}

/// Reading a written string returns the original content and stops right
/// after its closing quote.
pub proof fn lemma_sp_str_inverts(s: Seq<u8>, pre: Seq<u8>, v: Seq<u8>, rest: Seq<u8>)
    requires
        s == pre + enc_str(v) + rest,
    ensures
        sp_str(s, pre.len() as int) == Some::<(Seq<u8>, int)>((v, pre.len() as int + enc_str(v).len())),
{
    let base = pre.len() as int;
    assert(s[base] == QUOTE);
    let pre2 = pre + seq![QUOTE];
    assert(s =~= pre2 + esc(v) + seq![QUOTE] + rest);
    lemma_sp_str_body_inverts(s, pre2, v, rest);
}

/// Reads escaped string content; mirrors `sp_str_body`.
fn parse_str_body(s: &Vec<u8>, i: usize) -> (r: Option<(Vec<u8>, usize)>)
    ensures
        match r {
            Some((v, j)) => sp_str_body(s@, i as int) == Some((v@, j as int)) && j <= s@.len(),
            None => sp_str_body(s@, i as int) is None,
        },
    decreases s@.len() - i,
{
    if i >= s.len() {
        return None;
    }
    let b = s[i];
    if b == QUOTE {
        let v: Vec<u8> = Vec::new();
        Some((v, i + 1))
    } else if b == BACKSLASH {
        if i + 1 < s.len() {
            let c = s[i + 1];
            match parse_str_body(s, i + 2) {
                Some((tail, j)) => {
                    let mut v: Vec<u8> = Vec::new();
                    v.push(c);
                    let mut t = tail;
                    v.append(&mut t);
                    proof {
                        assert(v@ =~= seq![s@[i + 1]] + sp_str_body(s@, i + 2)->Some_0.0);
                    }
                    Some((v, j))
                },
                None => None,
            }
        } else {
            None
        }
    } else {
        match parse_str_body(s, i + 1) {
            Some((tail, j)) => {
                let mut v: Vec<u8> = Vec::new();
                v.push(b);
                let mut t = tail;
                v.append(&mut t);
                proof {
                    assert(v@ =~= seq![s@[i as int]] + sp_str_body(s@, i + 1)->Some_0.0);
                }
                Some((v, j))
            },
            None => None,
        }
    }
}

/// Reads a quoted string; mirrors `sp_str`.
pub fn parse_str(s: &Vec<u8>, i: usize) -> (r: Option<(Vec<u8>, usize)>)
    ensures
        match r {
            Some((v, j)) => sp_str(s@, i as int) == Some((v@, j as int)) && i < j <= s@.len(),
            None => sp_str(s@, i as int) is None,
        },
{
    if i < s.len() && s[i] == QUOTE {
        proof {
            lemma_sp_str_body_advances(s@, i + 1);
        }
        parse_str_body(s, i + 1)
    } else {
        None
    }
}

// -------------------------------------------------------------------------
// unsigned decimal numbers
// -------------------------------------------------------------------------
pub open spec fn is_digit(b: u8) -> bool {
    48 <= b <= 57
}

/// Decimal digits of a non-negative integer, most significant first.
pub open spec fn enc_u64(n: int) -> Seq<u8>
    decreases n,
{
    if n < 10 {
        seq![(48 + if n >= 0 { n } else { 0 }) as u8]
    } else {
        enc_u64(n / 10) + seq![(48 + n % 10) as u8]
    }
}

pub proof fn lemma_enc_u64_digits(n: int)
    ensures
        enc_u64(n).len() >= 1,
        forall|k: int| 0 <= k < enc_u64(n).len() ==> is_digit(#[trigger] enc_u64(n)[k]),
    decreases n,
{
    if n >= 10 {
        lemma_enc_u64_digits(n / 10);
    }
}

/// Appends the decimal digits of `n`.
pub fn write_u64(n: u64, out: &mut Vec<u8>)
    ensures
        final(out)@ == old(out)@ + enc_u64(n as int),
    decreases n,
{
    if n < 10 {
        out.push(48 + (n as u8));
        proof {
            assert(out@ =~= old(out)@ + enc_u64(n as int));
        }
    } else {
        write_u64(n / 10, out);
        out.push(48 + ((n % 10) as u8));
        proof {
            assert(out@ =~= old(out)@ + enc_u64(n as int));
        }
    }
}

/// The end of the run of digits starting at `i`.
pub open spec fn digit_end(s: Seq<u8>, i: int) -> int
    decreases s.len() - i,
{
    if 0 <= i < s.len() && is_digit(s[i]) {
        digit_end(s, i + 1)
    } else {
        i
    }
}

pub proof fn lemma_digit_end_bounds(s: Seq<u8>, i: int)
    requires
        0 <= i <= s.len(),
    ensures
        i <= digit_end(s, i) <= s.len(),
        forall|k: int| i <= k < digit_end(s, i) ==> is_digit(s[k]),
        digit_end(s, i) == s.len() || !is_digit(s[digit_end(s, i)]),
    decreases s.len() - i,
{
    if 0 <= i < s.len() && is_digit(s[i]) {
        lemma_digit_end_bounds(s, i + 1);
    }
}

proof fn lemma_digit_end_run(s: Seq<u8>, i: int, j: int)
    requires
        0 <= i <= j <= s.len(),
        forall|k: int| i <= k < j ==> is_digit(s[k]),
        j == s.len() || !is_digit(s[j]),
    ensures
        digit_end(s, i) == j,
    decreases j - i,
{
    if i < j {
        lemma_digit_end_run(s, i + 1, j);
    }
}

/// The value of the digits in `[i, j)`, read left to right.
pub open spec fn digits_val(s: Seq<u8>, i: int, j: int) -> int
    decreases j - i,
{
    if j <= i {
        0
    } else {
        digits_val(s, i, j - 1) * 10 + (s[j - 1] - 48)
    }
}

proof fn lemma_digits_val_of_enc(s: Seq<u8>, i: int, j: int, n: int)
    requires
        n >= 0,
        0 <= i <= j <= s.len(),
        s.subrange(i, j) == enc_u64(n),
    ensures
        digits_val(s, i, j) == n,
    decreases n,
{
    lemma_enc_u64_digits(n);
    if n < 10 {
        assert(j - i == 1);
        assert(s[j - 1] == enc_u64(n)[0]);
        assert(enc_u64(n)[0] == (48 + n) as u8);
        assert(digits_val(s, i, j) == digits_val(s, i, i) * 10 + (s[j - 1] - 48));
        assert(digits_val(s, i, i) == 0);
    } else {
        let w = enc_u64(n / 10);
        assert(s.subrange(i, j - 1) =~= w);
        assert(s[j - 1] == enc_u64(n)[w.len() as int]);
        assert(s[j - 1] == 48 + n % 10);
        lemma_digits_val_of_enc(s, i, j - 1, n / 10);
        assert(digits_val(s, i, j) == digits_val(s, i, j - 1) * 10 + (s[j - 1] - 48));
        assert(n / 10 * 10 + n % 10 == n);
    }
}

/// Reads a run of digits as a `u64`; fails on no digits or overflow.
pub open spec fn sp_u64(s: Seq<u8>, i: int) -> Option<(u64, int)> {
    let j = digit_end(s, i);
    if j == i {
        None
    } else {
        let v = digits_val(s, i, j);
        if v > u64::MAX {
            None
        } else {
            Some((v as u64, j))
        }
    }
}

/// Reading a written number returns it, provided no digit follows it.
pub proof fn lemma_sp_u64_inverts(s: Seq<u8>, pre: Seq<u8>, n: u64, rest: Seq<u8>)
    requires
        s == pre + enc_u64(n as int) + rest,
        rest.len() == 0 || !is_digit(rest[0]),
    ensures
        sp_u64(s, pre.len() as int) == Some::<(u64, int)>((n, pre.len() as int + enc_u64(n as int).len())),
{
    let i = pre.len() as int;
    let e = enc_u64(n as int);
    let j = i + e.len();
    lemma_enc_u64_digits(n as int);
    assert(s.subrange(i, j) =~= e);
    assert(forall|k: int| i <= k < j ==> is_digit(s[k]) && s[k] == e[k - i]);
    if rest.len() > 0 {
        assert(s[j] == rest[0]);
    }
    lemma_digit_end_run(s, i, j);
    lemma_digits_val_of_enc(s, i, j, n as int);
}

proof fn lemma_digits_val_nonneg(s: Seq<u8>, i: int, j: int)
    requires
        forall|k: int| i <= k < j ==> is_digit(s[k]),
    ensures
        digits_val(s, i, j) >= 0,
    decreases j - i,
{
    if j > i {
        lemma_digits_val_nonneg(s, i, j - 1);
        assert(digits_val(s, i, j - 1) * 10 >= 0) by (nonlinear_arith)
            requires
                digits_val(s, i, j - 1) >= 0,
        ;
    }
}

fn digit_end_exec(s: &Vec<u8>, i: usize) -> (r: usize)
    requires
        i <= s@.len(),
    ensures
        r == digit_end(s@, i as int),
        i <= r <= s@.len(),
    decreases s@.len() - i,
{
    if i < s.len() && 48 <= s[i] && s[i] <= 57 {
        digit_end_exec(s, i + 1)
    } else {
        i
    }
}

fn digits_val_exec(s: &Vec<u8>, i: usize, j: usize) -> (r: Option<u64>)
    requires
        i <= j <= s@.len(),
        forall|k: int| i <= k < j ==> is_digit(s@[k]),
    ensures
        match r {
            Some(v) => v == digits_val(s@, i as int, j as int),
            None => digits_val(s@, i as int, j as int) > u64::MAX,
        },
    decreases j - i,
{
    if j <= i {
        Some(0)
    } else {
        proof {
            lemma_digits_val_nonneg(s@, i as int, j - 1);
        }
        match digits_val_exec(s, i, j - 1) {
            None => {
                proof {
                    let acc = digits_val(s@, i as int, j - 1);
                    assert(acc * 10 >= acc) by (nonlinear_arith)
                        requires
                            acc > u64::MAX,
                    ;
                }
                None
            },
            Some(acc) => {
                let d = s[j - 1] - 48;
                match acc.checked_mul(10) {
                    None => None,
                    Some(m) => {
                        match m.checked_add(d as u64) {
                            None => None,
                            Some(v) => Some(v),
                        }
                    },
                }
            },
        }
    }
}

/// Reads a run of digits; mirrors `sp_u64`.
pub fn parse_u64(s: &Vec<u8>, i: usize) -> (r: Option<(u64, usize)>)
    requires
        i <= s@.len(),
    ensures
        match r {
            Some((v, j)) => sp_u64(s@, i as int) == Some((v, j as int)) && i < j <= s@.len(),
            None => sp_u64(s@, i as int) is None,
        },
{
    let j = digit_end_exec(s, i);
    proof {
        lemma_digit_end_bounds(s@, i as int);
    }
    if j == i {
        return None;
    }
    match digits_val_exec(s, i, j) {
        Some(v) => Some((v, j)),
        None => None,
    }
}

// -------------------------------------------------------------------------
// amounts: thousandths written as decimals, e.g. 1500 -> "1.5"
// -------------------------------------------------------------------------
/// The fraction digits of a non-zero thousandths part, trailing zeros
/// trimmed.
pub open spec fn enc_frac(f: int) -> Seq<u8> {
    if f % 100 == 0 {
        seq![(48 + f / 100) as u8]
    } else if f % 10 == 0 {
        seq![(48 + f / 100) as u8, (48 + (f / 10) % 10) as u8]
    } else {
        seq![(48 + f / 100) as u8, (48 + (f / 10) % 10) as u8, (48 + f % 10) as u8]
    }
}

/// An amount of `m` thousandths written as a decimal number.
pub open spec fn enc_amount(m: int) -> Seq<u8> {
    if m % 1000 == 0 {
        enc_u64(m / 1000)
    } else {
        enc_u64(m / 1000) + seq![DOT] + enc_frac(m % 1000)
    }
}

/// Reads a decimal number with up to three fraction digits, as thousandths.
pub open spec fn sp_amount(s: Seq<u8>, i: int) -> Option<(u64, int)> {
    match sp_u64(s, i) {
        None => None,
        Some((w, j)) => {
            if j < s.len() && s[j] == DOT {
                let k = digit_end(s, j + 1);
                let nf = k - (j + 1);
                if 1 <= nf <= 3 {
                    let f = digits_val(s, j + 1, k);
                    let fv: int = if nf == 1 {
                        f * 100
                    } else if nf == 2 {
                        f * 10
                    } else {
                        f
                    };
                    if w * 1000 + fv > u64::MAX {
                        None
                    } else {
                        Some((((w * 1000 + fv)) as u64, k))
                    }
                } else {
                    None
                }
            } else {
                if w * 1000 > u64::MAX {
                    None
                } else {
                    Some(((w * 1000) as u64, j))
                }
            }
        },
    }
}

/// Appends the decimal form of `m` thousandths.
pub fn write_amount(m: u64, out: &mut Vec<u8>)
    ensures
        final(out)@ == old(out)@ + enc_amount(m as int),
{
    write_u64(m / 1000, out);
    let f = m % 1000;
    if f != 0 {
        out.push(DOT);
        if f % 100 == 0 {
            out.push(48 + (f / 100) as u8);
        } else if f % 10 == 0 {
            out.push(48 + (f / 100) as u8);
            out.push(48 + ((f / 10) % 10) as u8);
        } else {
            out.push(48 + (f / 100) as u8);
            out.push(48 + ((f / 10) % 10) as u8);
            out.push(48 + (f % 10) as u8);
        }
        proof {
            assert(out@ =~= old(out)@ + enc_amount(m as int));
        }
    } else {
        proof {
            assert(out@ =~= old(out)@ + enc_amount(m as int));
        }
    }
}

proof fn lemma_enc_frac_digits(f: int)
    requires
        0 < f < 1000,
    ensures
        1 <= enc_frac(f).len() <= 3,
        forall|k: int| 0 <= k < enc_frac(f).len() ==> is_digit(#[trigger] enc_frac(f)[k]),
{
}

/// Reading a written amount returns it, provided neither a digit nor a dot
/// follows it.
pub proof fn lemma_sp_amount_inverts(s: Seq<u8>, pre: Seq<u8>, m: u64, rest: Seq<u8>)
    requires
        s == pre + enc_amount(m as int) + rest,
        rest.len() == 0 || (!is_digit(rest[0]) && rest[0] != DOT),
    ensures
        sp_amount(s, pre.len() as int) == Some::<(u64, int)>(
            (m, pre.len() as int + enc_amount(m as int).len()),
        ),
{
    let i = pre.len() as int;
    let w = (m / 1000) as u64;
    let f = (m % 1000) as int;
    let ew = enc_u64(w as int);
    if f == 0 {
        assert(enc_amount(m as int) == ew);
        lemma_sp_u64_inverts(s, pre, w, rest);
        let j = i + ew.len();
        if rest.len() > 0 {
            assert(s[j] == rest[0]);
        }
        assert(w * 1000 == m);
    } else {
        let ef = enc_frac(f);
        lemma_enc_frac_digits(f);
        let mid = seq![DOT] + ef + rest;
        assert(s =~= pre + ew + mid);
        lemma_sp_u64_inverts(s, pre + Seq::<u8>::empty(), w, mid);
        assert(pre + Seq::<u8>::empty() =~= pre);
        let j = i + ew.len();
        assert(s[j] == DOT);
        // the fraction digit run ends where `rest` begins
        let k = j + 1 + ef.len();
        assert(forall|t: int| j + 1 <= t < k ==> is_digit(s[t]) && s[t] == ef[t - (j + 1)]);
        if rest.len() > 0 {
            assert(s[k] == rest[0]);
        }
        lemma_digit_end_run(s, j + 1, k);
        let nf = ef.len() as int;
        let fd = digits_val(s, j + 1, k);
        assert(digits_val(s, j + 1, j + 1) == 0);
        // the digit run value matches the trimmed fraction
        if f % 100 == 0 {
            assert(s[j + 1] == ef[0] && ef[0] == (48 + f / 100) as u8);
            assert(fd == digits_val(s, j + 1, j + 1) * 10 + (s[j + 1] - 48));
            assert(fd == f / 100);
            assert(f / 100 * 100 == f);
        } else if f % 10 == 0 {
            assert(s[j + 1] == ef[0] && ef[0] == (48 + f / 100) as u8);
            assert(s[j + 2] == ef[1] && ef[1] == (48 + (f / 10) % 10) as u8);
            assert(fd == digits_val(s, j + 1, j + 2) * 10 + (s[j + 2] - 48));
            assert(digits_val(s, j + 1, j + 2) == digits_val(s, j + 1, j + 1) * 10 + (s[j + 1]
                - 48));
            assert(fd == (f / 100) * 10 + (f / 10) % 10);
            assert(((f / 100) * 10 + (f / 10) % 10) * 10 == f);
        } else {
            assert(s[j + 1] == ef[0] && ef[0] == (48 + f / 100) as u8);
            assert(s[j + 2] == ef[1] && ef[1] == (48 + (f / 10) % 10) as u8);
            assert(s[j + 3] == ef[2] && ef[2] == (48 + f % 10) as u8);
            assert(fd == digits_val(s, j + 1, j + 3) * 10 + (s[j + 3] - 48));
            assert(digits_val(s, j + 1, j + 3) == digits_val(s, j + 1, j + 2) * 10 + (s[j + 2]
                - 48));
            assert(digits_val(s, j + 1, j + 2) == digits_val(s, j + 1, j + 1) * 10 + (s[j + 1]
                - 48));
            assert(fd == ((f / 100) * 10 + (f / 10) % 10) * 10 + f % 10);
            assert(((f / 100) * 10 + (f / 10) % 10) * 10 + f % 10 == f);
        }
        assert(w * 1000 + f == m);
    }
}

/// Reads a decimal amount; mirrors `sp_amount`.
pub fn parse_amount(s: &Vec<u8>, i: usize) -> (r: Option<(u64, usize)>)
    requires
        i <= s@.len(),
    ensures
        match r {
            Some((v, j)) => sp_amount(s@, i as int) == Some((v, j as int)) && i < j <= s@.len(),
            None => sp_amount(s@, i as int) is None,
        },
{
    match parse_u64(s, i) {
        None => None,
        Some((w, j)) => {
            if j < s.len() && s[j] == DOT {
                let k = digit_end_exec(s, j + 1);
                proof {
                    lemma_digit_end_bounds(s@, j + 1);
                }
                let nf = k - (j + 1);
                if 1 <= nf && nf <= 3 {
                    match digits_val_exec(s, j + 1, k) {
                        None => {
                            proof {
                                let fx = digits_val(s@, j + 1, k as int);
                                assert(w * 1000 >= 0) by (nonlinear_arith);
                                if nf == 1 {
                                    assert(fx * 100 >= fx) by (nonlinear_arith)
                                        requires
                                            fx > u64::MAX,
                                    ;
                                } else if nf == 2 {
                                    assert(fx * 10 >= fx) by (nonlinear_arith)
                                        requires
                                            fx > u64::MAX,
                                    ;
                                }
                            }
                            None
                        },
                        Some(fd) => {
                            let fv: Option<u64> = if nf == 1 {
                                fd.checked_mul(100)
                            } else if nf == 2 {
                                fd.checked_mul(10)
                            } else {
                                Some(fd)
                            };
                            match fv {
                                None => {
                                    proof {
                                        assert(w * 1000 >= 0) by (nonlinear_arith);
                                    }
                                    None
                                },
                                Some(fvv) => {
                                    match w.checked_mul(1000) {
                                        None => {
                                            proof {
                                                assert(fvv >= 0);
                                            }
                                            None
                                        },
                                        Some(wm) => {
                                            match wm.checked_add(fvv) {
                                                None => None,
                                                Some(v) => Some((v, k)),
                                            }
                                        },
                                    }
                                },
                            }
                        },
                    }
                } else {
                    None
                }
            } else {
                match w.checked_mul(1000) {
                    None => None,
                    Some(v) => Some((v, j)),
                }
            }
        },
    }
}

// -------------------------------------------------------------------------
// fixed literal text
// -------------------------------------------------------------------------
/// Checks that the literal `l` stands at `i` and steps past it.
pub open spec fn sp_lit(s: Seq<u8>, i: int, l: Seq<u8>) -> Option<int> {
    if 0 <= i && i + l.len() <= s.len() && s.subrange(i, i + l.len()) == l {
        Some(i + l.len())
    } else {
        None
    }
}

pub proof fn lemma_sp_lit_inverts(s: Seq<u8>, pre: Seq<u8>, l: Seq<u8>, rest: Seq<u8>)
    requires
        s == pre + l + rest,
    ensures
        sp_lit(s, pre.len() as int, l) == Some((pre.len() + l.len()) as int),
{
    assert(s.subrange(pre.len() as int, pre.len() as int + l.len()) =~= l);
}

/// Appends the bytes of an ASCII literal.
pub fn write_lit(l: &str, out: &mut Vec<u8>)
    requires
        vstd::string::is_ascii(l),
    ensures
        final(out)@ == old(out)@ + s2b(l@),
{
    let mut v = crate::bytes::lit(l);
    out.append(&mut v);
}

/// Checks an ASCII literal at `i`; mirrors `sp_lit`.
pub fn parse_lit(s: &Vec<u8>, i: usize, l: &str) -> (r: Option<usize>)
    requires
        vstd::string::is_ascii(l),
        i <= s@.len(),
    ensures
        match r {
            Some(j) => sp_lit(s@, i as int, s2b(l@)) == Some(j as int) && i <= j <= s@.len(),
            None => sp_lit(s@, i as int, s2b(l@)) is None,
        },
{
    let lv = crate::bytes::lit(l);
    if lv.len() > s.len() - i {
        return None;
    }
    let mut k: usize = 0;
    while k < lv.len()
        invariant
            k <= lv@.len(),
            lv@ == s2b(l@),
            i + lv@.len() <= s@.len(),
            s@.len() <= usize::MAX,
            forall|t: int| 0 <= t < k ==> s@[i + t] == lv@[t],
        decreases lv@.len() - k,
    {
        if s[i + k] != lv[k] {
            proof {
                assert(s@.subrange(i as int, i + lv@.len())[k as int] != lv@[k as int]);
            }
            return None;
        }
        k = k + 1;
    }
    proof {
        assert(s@.subrange(i as int, i + lv@.len()) =~= lv@);
    }
    Some(i + lv.len())
}


// -------------------------------------------------------------------------
// lists
// -------------------------------------------------------------------------
/// The comma-separated items of a list, each written by `f`.
pub open spec fn enc_items<T>(xs: Seq<T>, f: spec_fn(T) -> Seq<u8>) -> Seq<u8>
    decreases xs.len(),
{
    if xs.len() == 0 {
        Seq::empty()
    } else if xs.len() == 1 {
        f(xs[0])
    } else {
        f(xs[0]) + seq![COMMA] + enc_items(xs.drop_first(), f)
    }
}

/// A bracketed list of items, each written by `f`.
pub open spec fn enc_list<T>(xs: Seq<T>, f: spec_fn(T) -> Seq<u8>) -> Seq<u8> {
    seq![LBRACKET] + enc_items(xs, f) + seq![RBRACKET]
}

/// Reads items separated by commas up to and past the closing bracket.
pub open spec fn sp_items<T>(
    s: Seq<u8>,
    i: int,
    g: spec_fn(Seq<u8>, int) -> Option<(T, int)>,
) -> Option<(Seq<T>, int)>
    decreases s.len() - i,
{
    match g(s, i) {
        None => None,
        Some((x, j)) => {
            if !(i < j && j < s.len()) {
                None
            } else if s[j] == COMMA {
                match sp_items(s, j + 1, g) {
                    None => None,
                    Some((xs, k)) => Some((seq![x] + xs, k)),
                }
            } else if s[j] == RBRACKET {
                Some((seq![x], j + 1))
            } else {
                None
            }
        },
    }
}

/// Reads a bracketed list whose elements `g` reads.
pub open spec fn sp_list<T>(
    s: Seq<u8>,
    i: int,
    g: spec_fn(Seq<u8>, int) -> Option<(T, int)>,
) -> Option<(Seq<T>, int)> {
    if 0 <= i && i + 1 < s.len() && s[i] == LBRACKET {
        if s[i + 1] == RBRACKET {
            Some((Seq::empty(), i + 2))
        } else {
            sp_items(s, i + 1, g)
        }
    } else {
        None
    }
}

/// `g` reads back exactly what `f` wrote, wherever it stands in the input.
pub open spec fn parser_inverts<T>(
    f: spec_fn(T) -> Seq<u8>,
    g: spec_fn(Seq<u8>, int) -> Option<(T, int)>,
) -> bool {
    forall|x: T, pre: Seq<u8>, rest: Seq<u8>|
        #[trigger] g(pre + f(x) + rest, pre.len() as int) == Some::<(T, int)>(
            (x, pre.len() as int + f(x).len()),
        )
}

/// What `f` writes is never empty and never opens with a list delimiter,
/// a fraction dot or a digit continuation hazard for the surrounding text.
pub open spec fn enc_starts_clean<T>(f: spec_fn(T) -> Seq<u8>) -> bool {
    forall|x: T|
        (#[trigger] f(x)).len() > 0 && f(x)[0] != RBRACKET && f(x)[0] != COMMA
}

proof fn lemma_sp_items_inverts<T>(
    s: Seq<u8>,
    pre: Seq<u8>,
    xs: Seq<T>,
    rest: Seq<u8>,
    f: spec_fn(T) -> Seq<u8>,
    g: spec_fn(Seq<u8>, int) -> Option<(T, int)>,
)
    requires
        xs.len() >= 1,
        s == pre + enc_items(xs, f) + seq![RBRACKET] + rest,
        parser_inverts(f, g),
        enc_starts_clean(f),
    ensures
        sp_items(s, pre.len() as int, g) == Some::<(Seq<T>, int)>(
            (xs, pre.len() as int + enc_items(xs, f).len() + 1),
        ),
    decreases xs.len(),
{
    let i = pre.len() as int;
    let x0 = xs[0];
    if xs.len() == 1 {
        assert(enc_items(xs, f) == f(x0));
        let tail = seq![RBRACKET] + rest;
        assert(s =~= pre + f(x0) + tail);
        assert(g(pre + f(x0) + tail, pre.len() as int) == Some::<(T, int)>(
            (x0, pre.len() as int + f(x0).len()),
        ));
        let j = i + f(x0).len();
        assert(s[j] == RBRACKET);
        assert(seq![x0] =~= xs);
    } else {
        assert(enc_items(xs, f) == f(x0) + seq![COMMA] + enc_items(xs.drop_first(), f));
        let tail = seq![COMMA] + enc_items(xs.drop_first(), f) + seq![RBRACKET] + rest;
        assert(s =~= pre + f(x0) + tail);
        assert(g(pre + f(x0) + tail, pre.len() as int) == Some::<(T, int)>(
            (x0, pre.len() as int + f(x0).len()),
        ));
        let j = i + f(x0).len();
        assert(s[j] == COMMA);
        let pre2 = pre + f(x0) + seq![COMMA];
        assert(s =~= pre2 + enc_items(xs.drop_first(), f) + seq![RBRACKET] + rest);
        lemma_sp_items_inverts(s, pre2, xs.drop_first(), rest, f, g);
        assert(seq![x0] + xs.drop_first() =~= xs);
    }
}

/// Reading a written list returns the written elements.
pub proof fn lemma_sp_list_inverts<T>(
    s: Seq<u8>,
    pre: Seq<u8>,
    xs: Seq<T>,
    rest: Seq<u8>,
    f: spec_fn(T) -> Seq<u8>,
    g: spec_fn(Seq<u8>, int) -> Option<(T, int)>,
)
    requires
        s == pre + enc_list(xs, f) + rest,
        parser_inverts(f, g),
        enc_starts_clean(f),
    ensures
        sp_list(s, pre.len() as int, g) == Some::<(Seq<T>, int)>(
            (xs, pre.len() as int + enc_list(xs, f).len()),
        ),
{
    let i = pre.len() as int;
    assert(s[i] == LBRACKET);
    if xs.len() == 0 {
        assert(enc_items(xs, f) =~= Seq::<u8>::empty());
        assert(s[i + 1] == RBRACKET);
        assert(Seq::<T>::empty() =~= xs);
    } else {
        assert(enc_list(xs, f)[1] == enc_items(xs, f)[0]);
        if xs.len() == 1 {
            assert(enc_items(xs, f)[0] == f(xs[0])[0]);
        } else {
            assert(enc_items(xs, f)[0] == f(xs[0])[0]);
        }
        assert(s[i + 1] == f(xs[0])[0]);
        assert(s[i + 1] != RBRACKET);
        let pre2 = pre + seq![LBRACKET];
        assert(s =~= pre2 + enc_items(xs, f) + seq![RBRACKET] + rest);
        lemma_sp_items_inverts(s, pre2, xs, rest, f, g);
    }
}

// -------------------------------------------------------------------------
// optional values written as `null` or the value
// -------------------------------------------------------------------------
pub open spec fn null_lit() -> Seq<u8> {
    s2b("null"@)
}

pub proof fn lemma_null_lit()
    ensures
        null_lit().len() == 4,
        null_lit()[0] == 110,
{
    reveal_strlit("null");
}

pub open spec fn enc_opt<T>(o: Option<T>, f: spec_fn(T) -> Seq<u8>) -> Seq<u8> {
    match o {
        None => null_lit(),
        Some(x) => f(x),
    }
}

pub open spec fn sp_opt<T>(
    s: Seq<u8>,
    i: int,
    g: spec_fn(Seq<u8>, int) -> Option<(T, int)>,
) -> Option<(Option<T>, int)> {
    if 0 <= i < s.len() && s[i] == 110 {
        match sp_lit(s, i, null_lit()) {
            Some(j) => Some((None, j)),
            None => None,
        }
    } else {
        match g(s, i) {
            Some((x, j)) => Some((Some(x), j)),
            None => None,
        }
    }
}

/// What `f` writes never opens with the letter `n`, so a value is never
/// mistaken for `null`.
pub open spec fn enc_not_null<T>(f: spec_fn(T) -> Seq<u8>) -> bool {
    forall|x: T| (#[trigger] f(x)).len() > 0 && f(x)[0] != 110
}

/// Reading a written optional returns it.
pub proof fn lemma_sp_opt_inverts<T>(
    s: Seq<u8>,
    pre: Seq<u8>,
    o: Option<T>,
    rest: Seq<u8>,
    f: spec_fn(T) -> Seq<u8>,
    g: spec_fn(Seq<u8>, int) -> Option<(T, int)>,
)
    requires
        s == pre + enc_opt(o, f) + rest,
        parser_inverts(f, g),
        enc_not_null(f),
    ensures
        sp_opt(s, pre.len() as int, g) == Some::<(Option<T>, int)>(
            (o, pre.len() as int + enc_opt(o, f).len()),
        ),
{
    let i = pre.len() as int;
    lemma_null_lit();
    match o {
        None => {
            assert(s[i] == 110);
            lemma_sp_lit_inverts(s, pre, null_lit(), rest);
        },
        Some(x) => {
            assert(s[i] == f(x)[0]);
            assert(s[i] != 110);
            assert(g(pre + f(x) + rest, pre.len() as int) == Some::<(T, int)>(
                (x, pre.len() as int + f(x).len()),
            ));
        },
    }
}

// -------------------------------------------------------------------------
// lists of strings
// -------------------------------------------------------------------------
pub open spec fn str_enc_fn() -> spec_fn(Seq<u8>) -> Seq<u8> {
    |v: Seq<u8>| enc_str(v)
}

pub open spec fn str_parse_fn() -> spec_fn(Seq<u8>, int) -> Option<(Seq<u8>, int)> {
    |s: Seq<u8>, i: int| sp_str(s, i)
}

pub proof fn lemma_str_parser_inverts()
    ensures
        parser_inverts(str_enc_fn(), str_parse_fn()),
        enc_starts_clean(str_enc_fn()),
        enc_not_null(str_enc_fn()),
{
    assert forall|x: Seq<u8>, pre: Seq<u8>, rest: Seq<u8>|
        #[trigger] str_parse_fn()(pre + str_enc_fn()(x) + rest, pre.len() as int) == Some::<
            (Seq<u8>, int),
        >((x, pre.len() as int + str_enc_fn()(x).len())) by {
        lemma_sp_str_inverts(pre + enc_str(x) + rest, pre, x, rest);
    }
    assert forall|x: Seq<u8>|
        (#[trigger] str_enc_fn()(x)).len() > 0 && str_enc_fn()(x)[0] != RBRACKET && str_enc_fn()(
            x,
        )[0] != COMMA && str_enc_fn()(x)[0] != 110 by {
        assert(enc_str(x)[0] == QUOTE);
    }
}

/// Appends the items of a string list from index `k` on.
fn write_str_items(xs: &Vec<Vec<u8>>, k: usize, out: &mut Vec<u8>)
    requires
        k <= xs@.len(),
    ensures
        final(out)@ == old(out)@ + enc_items(xs.deep_view().skip(k as int), str_enc_fn()),
    decreases xs@.len() - k,
{
    if k == xs.len() {
        proof {
            assert(xs.deep_view().skip(k as int) =~= Seq::<Seq<u8>>::empty());
            assert(out@ =~= old(out)@ + enc_items(xs.deep_view().skip(k as int), str_enc_fn()));
        }
    } else {
        write_str(&xs[k], out);
        proof {
            assert(xs.deep_view().skip(k as int)[0] == xs@[k as int]@);
        }
        if k + 1 < xs.len() {
            out.push(COMMA);
            let ghost mid = out@;
            write_str_items(xs, k + 1, out);
            proof {
                let tail = xs.deep_view().skip(k as int);
                assert(tail.drop_first() =~= xs.deep_view().skip(k + 1));
                assert(enc_items(tail, str_enc_fn()) == str_enc_fn()(tail[0]) + seq![COMMA]
                    + enc_items(tail.drop_first(), str_enc_fn()));
                assert(out@ =~= old(out)@ + enc_items(tail, str_enc_fn()));
            }
        } else {
            proof {
                let tail = xs.deep_view().skip(k as int);
                assert(tail.len() == 1);
                assert(out@ =~= old(out)@ + enc_items(tail, str_enc_fn()));
            }
        }
    }
}

/// Appends a bracketed string list.
pub fn write_str_list(xs: &Vec<Vec<u8>>, out: &mut Vec<u8>)
    ensures
        final(out)@ == old(out)@ + enc_list(xs.deep_view(), str_enc_fn()),
{
    out.push(LBRACKET);
    write_str_items(xs, 0, out);
    out.push(RBRACKET);
    proof {
        assert(xs.deep_view().skip(0) =~= xs.deep_view());
        assert(out@ =~= old(out)@ + enc_list(xs.deep_view(), str_enc_fn()));
    }
}

/// Reads string list items; mirrors `sp_items` for strings.
fn parse_str_items(s: &Vec<u8>, i: usize) -> (r: Option<(Vec<Vec<u8>>, usize)>)
    requires
        i <= s@.len(),
    ensures
        match r {
            Some((v, j)) => sp_items(s@, i as int, str_parse_fn()) == Some((v.deep_view(), j as int))
                && i < j <= s@.len(),
            None => sp_items(s@, i as int, str_parse_fn()) is None,
        },
    decreases s@.len() - i,
{
    proof {
        assert(str_parse_fn()(s@, i as int) == sp_str(s@, i as int));
    }
    match parse_str(s, i) {
        None => None,
        Some((x, j)) => {
            if j < s.len() && s[j] == COMMA {
                match parse_str_items(s, j + 1) {
                    None => None,
                    Some((tail, k)) => {
                        let ghost tailv = tail@;
                        let ghost taildv = tail.deep_view();
                        let mut v: Vec<Vec<u8>> = Vec::new();
                        v.push(x);
                        let mut t = tail;
                        v.append(&mut t);
                        proof {
                            let si = sp_items(s@, j + 1, str_parse_fn())->Some_0.0;
                            assert(v@ =~= seq![x] + tailv);
                            assert(v.deep_view() =~~= seq![x@] + taildv);
                        }
                        Some((v, k))
                    },
                }
            } else if j < s.len() && s[j] == RBRACKET {
                let mut v: Vec<Vec<u8>> = Vec::new();
                v.push(x);
                proof {
                    assert(v.deep_view() =~~= seq![x@]);
                }
                Some((v, j + 1))
            } else {
                None
            }
        },
    }
}

/// Reads a bracketed string list; mirrors `sp_list` for strings.
pub fn parse_str_list(s: &Vec<u8>, i: usize) -> (r: Option<(Vec<Vec<u8>>, usize)>)
    requires
        i <= s@.len(),
    ensures
        match r {
            Some((v, j)) => sp_list(s@, i as int, str_parse_fn()) == Some((v.deep_view(), j as int))
                && i < j <= s@.len(),
            None => sp_list(s@, i as int, str_parse_fn()) is None,
        },
{
    if i >= s.len() {
        return None;
    }
    if i + 1 < s.len() && s[i] == LBRACKET {
        if s[i + 1] == RBRACKET {
            let v: Vec<Vec<u8>> = Vec::new();
            proof {
                assert(v.deep_view() =~= Seq::<Seq<u8>>::empty());
            }
            Some((v, i + 2))
        } else {
            parse_str_items(s, i + 1)
        }
    } else {
        None
    }
}


// -------------------------------------------------------------------------
// field steps: each reads one piece and shifts the prefix past it
// -------------------------------------------------------------------------
pub proof fn lemma_step_lit(s: Seq<u8>, pre: Seq<u8>, l: Seq<u8>, tail: Seq<u8>)
    requires
        s == pre + (l + tail),
    ensures
        sp_lit(s, pre.len() as int, l) == Some(pre.len() as int + l.len()),
        s == (pre + l) + tail,
{
    lemma_concat_associative(pre, l, tail);
    lemma_sp_lit_inverts(s, pre, l, tail);
}

pub proof fn lemma_step_str(s: Seq<u8>, pre: Seq<u8>, v: Seq<u8>, tail: Seq<u8>)
    requires
        s == pre + (enc_str(v) + tail),
    ensures
        sp_str(s, pre.len() as int) == Some::<(Seq<u8>, int)>(
            (v, pre.len() as int + enc_str(v).len()),
        ),
        s == (pre + enc_str(v)) + tail,
{
    lemma_concat_associative(pre, enc_str(v), tail);
    lemma_sp_str_inverts(s, pre, v, tail);
}

pub proof fn lemma_step_u64(s: Seq<u8>, pre: Seq<u8>, n: u64, tail: Seq<u8>)
    requires
        s == pre + (enc_u64(n as int) + tail),
        tail.len() == 0 || !is_digit(tail[0]),
    ensures
        sp_u64(s, pre.len() as int) == Some::<(u64, int)>(
            (n, pre.len() as int + enc_u64(n as int).len()),
        ),
        s == (pre + enc_u64(n as int)) + tail,
{
    lemma_concat_associative(pre, enc_u64(n as int), tail);
    lemma_sp_u64_inverts(s, pre, n, tail);
}

pub proof fn lemma_step_amount(s: Seq<u8>, pre: Seq<u8>, m: u64, tail: Seq<u8>)
    requires
        s == pre + (enc_amount(m as int) + tail),
        tail.len() == 0 || (!is_digit(tail[0]) && tail[0] != DOT),
    ensures
        sp_amount(s, pre.len() as int) == Some::<(u64, int)>(
            (m, pre.len() as int + enc_amount(m as int).len()),
        ),
        s == (pre + enc_amount(m as int)) + tail,
{
    lemma_concat_associative(pre, enc_amount(m as int), tail);
    lemma_sp_amount_inverts(s, pre, m, tail);
}

pub open spec fn amount_enc_fn() -> spec_fn(u64) -> Seq<u8> {
    |m: u64| enc_amount(m as int)
}

pub open spec fn amount_parse_fn() -> spec_fn(Seq<u8>, int) -> Option<(u64, int)> {
    |s: Seq<u8>, i: int| sp_amount(s, i)
}

pub proof fn lemma_step_opt_amount(s: Seq<u8>, pre: Seq<u8>, o: Option<u64>, tail: Seq<u8>)
    requires
        s == pre + (enc_opt(o, amount_enc_fn()) + tail),
        tail.len() == 0 || (!is_digit(tail[0]) && tail[0] != DOT),
    ensures
        sp_opt(s, pre.len() as int, amount_parse_fn()) == Some::<(Option<u64>, int)>(
            (o, pre.len() as int + enc_opt(o, amount_enc_fn()).len()),
        ),
        s == (pre + enc_opt(o, amount_enc_fn())) + tail,
{
    lemma_concat_associative(pre, enc_opt(o, amount_enc_fn()), tail);
    let i = pre.len() as int;
    lemma_null_lit();
    match o {
        None => {
            assert(s[i] == 110);
            lemma_sp_lit_inverts(s, pre, null_lit(), tail);
        },
        Some(m) => {
            lemma_enc_u64_digits((m / 1000) as int);
            assert(enc_amount(m as int)[0] == enc_u64((m / 1000) as int)[0]);
            assert(s[i] == enc_amount(m as int)[0]);
            assert(is_digit(s[i]));
            assert(s[i] != 110);
            lemma_sp_amount_inverts(s, pre, m, tail);
        },
    }
}

/// Reads `null` or a decimal amount; mirrors `sp_opt` over amounts.
pub fn parse_opt_amount(s: &Vec<u8>, i: usize) -> (r: Option<(Option<u64>, usize)>)
    requires
        i <= s@.len(),
    ensures
        match r {
            Some((o, j)) => sp_opt(s@, i as int, amount_parse_fn()) == Some((o, j as int)) && i < j
                <= s@.len(),
            None => sp_opt(s@, i as int, amount_parse_fn()) is None,
        },
{
    proof {
        reveal_strlit("null");
    }
    if i < s.len() && s[i] == 110 {
        match parse_lit(s, i, "null") {
            Some(j) => {
                proof {
                    assert(j > i) by {
                        assert(s2b("null"@).len() == 4);
                    }
                }
                Some((None, j))
            },
            None => None,
        }
    } else {
        match parse_amount(s, i) {
            Some((m, j)) => Some((Some(m), j)),
            None => None,
        }
    }
}

/// Appends `null` or the decimal amount.
pub fn write_opt_amount(o: &Option<u64>, out: &mut Vec<u8>)
    ensures
        final(out)@ == old(out)@ + enc_opt(*o, amount_enc_fn()),
{
    proof {
        reveal_strlit("null");
    }
    match o {
        None => {
            write_lit("null", out);
        },
        Some(m) => {
            write_amount(*m, out);
        },
    }
}

// -------------------------------------------------------------------------
// optional strings
// -------------------------------------------------------------------------
pub proof fn lemma_step_opt_str(s: Seq<u8>, pre: Seq<u8>, o: Option<Seq<u8>>, tail: Seq<u8>)
    requires
        s == pre + (enc_opt(o, str_enc_fn()) + tail),
    ensures
        sp_opt(s, pre.len() as int, str_parse_fn()) == Some::<(Option<Seq<u8>>, int)>(
            (o, pre.len() as int + enc_opt(o, str_enc_fn()).len()),
        ),
        s == (pre + enc_opt(o, str_enc_fn())) + tail,
{
    lemma_concat_associative(pre, enc_opt(o, str_enc_fn()), tail);
    let i = pre.len() as int;
    lemma_null_lit();
    match o {
        None => {
            assert(s[i] == 110);
            lemma_sp_lit_inverts(s, pre, null_lit(), tail);
        },
        Some(v) => {
            assert(enc_str(v)[0] == QUOTE);
            assert(s[i] == QUOTE);
            lemma_sp_str_inverts(s, pre, v, tail);
            assert(str_parse_fn()(s, i) == sp_str(s, i));
        },
    }
}

pub fn parse_opt_str(s: &Vec<u8>, i: usize) -> (r: Option<(Option<Vec<u8>>, usize)>)
    requires
        i <= s@.len(),
    ensures
        match r {
            Some((o, j)) => sp_opt(s@, i as int, str_parse_fn()) == Some(
                (o.deep_view(), j as int),
            ) && i < j <= s@.len(),
            None => sp_opt(s@, i as int, str_parse_fn()) is None,
        },
{
    proof {
        reveal_strlit("null");
        assert(str_parse_fn()(s@, i as int) == sp_str(s@, i as int));
    }
    if i < s.len() && s[i] == 110 {
        match parse_lit(s, i, "null") {
            Some(j) => {
                proof {
                    assert(j > i) by {
                        assert(s2b("null"@).len() == 4);
                    }
                    let o: Option<Vec<u8>> = None;
                    assert(o.deep_view() is None);
                }
                Some((None, j))
            },
            None => None,
        }
    } else {
        match parse_str(s, i) {
            Some((v, j)) => {
                proof {
                    let o: Option<Vec<u8>> = Some(v);
                    assert(o.deep_view() == Some(v@));
                }
                Some((Some(v), j))
            },
            None => None,
        }
    }
}

pub fn write_opt_str(o: &Option<Vec<u8>>, out: &mut Vec<u8>)
    ensures
        final(out)@ == old(out)@ + enc_opt(o.deep_view(), str_enc_fn()),
{
    proof {
        reveal_strlit("null");
    }
    match o {
        None => {
            write_lit("null", out);
            proof {
                let ov: Option<Seq<u8>> = o.deep_view();
                assert(ov is None);
            }
        },
        Some(v) => {
            write_str(v, out);
            proof {
                assert(o.deep_view() == Some(v@));
            }
        },
    }
}

} // verus!
