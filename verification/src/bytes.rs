//! Byte-string helpers. All text the library handles (identifiers, names,
//! stored values) is kept as UTF-8 bytes in `Vec<u8>`.
use vstd::prelude::*;

verus! {

use vstd::string::StringSliceAdditionalSpecFns;
use vstd::string::StrSliceExecFns;

/// The views of the values in a list, in order.
pub open spec fn views_of<T: View>(s: Seq<T>) -> Seq<<T as View>::V> {
    Seq::new(s.len(), |i: int| s[i]@)
}

/// The bytes of an ASCII character sequence, character by character.
pub open spec fn s2b(s: Seq<char>) -> Seq<u8> {
    Seq::new(s.len(), |i: int| s[i] as u8)
}

/// Builds the byte form of an ASCII string literal.
pub(crate) fn lit(s: &str) -> (r: Vec<u8>)
    requires
        vstd::string::is_ascii(s),
    ensures
        r@ == s2b(s@),
{
    proof {
        vstd::string::is_ascii_spec_bytes(s);
        assert(s.spec_bytes() =~= s2b(s@));
    }
    s.as_bytes_vec()
}

pub open spec fn starts_with_spec(s: Seq<u8>, p: Seq<u8>) -> bool {
    p.len() <= s.len() && s.subrange(0, p.len() as int) == p
}

pub fn starts_with(s: &Vec<u8>, p: &Vec<u8>) -> (r: bool)
    ensures
        r == starts_with_spec(s@, p@),
{
    if p.len() > s.len() {
        return false;
    }
    let mut i: usize = 0;
    while i < p.len()
        invariant
            i <= p.len() <= s.len(),
            forall|j: int| 0 <= j < i ==> s@[j] == p@[j],
        decreases p.len() - i,
    {
        if s[i] != p[i] {
            proof {
                assert(s@.subrange(0, p@.len() as int)[i as int] != p@[i as int]);
            }
            return false;
        }
        i = i + 1;
    }
    proof {
        assert(s@.subrange(0, p@.len() as int) =~= p@);
    }
    true
}

/// The needle `n` occurs in `s` at position `i`.
pub open spec fn occurs_at(s: Seq<u8>, i: int, n: Seq<u8>) -> bool {
    0 <= i && i + n.len() <= s.len() && s.subrange(i, i + n.len()) == n
}

pub open spec fn contains_seq(s: Seq<u8>, n: Seq<u8>) -> bool {
    exists|i: int| occurs_at(s, i, n)
}

fn matches_at(s: &Vec<u8>, i: usize, n: &Vec<u8>) -> (r: bool)
    requires
        i + n@.len() <= s@.len(),
    ensures
        r == occurs_at(s@, i as int, n@),
{
    let slen: usize = s.len();
    let mut j: usize = 0;
    while j < n.len()
        invariant
            j <= n.len(),
            i + n@.len() <= s@.len(),
            s@.len() == slen,
            forall|k: int| 0 <= k < j ==> s@[i + k] == n@[k],
        decreases n.len() - j,
    {
        proof {
            assert(i + j < s@.len());
        }
        if s[i + j] != n[j] {
            proof {
                assert(s@.subrange(i as int, i + n@.len())[j as int] != n@[j as int]);
            }
            return false;
        }
        j = j + 1;
    }
    proof {
        assert(s@.subrange(i as int, i + n@.len()) =~= n@);
    }
    true
}

pub fn contains_bytes(s: &Vec<u8>, n: &Vec<u8>) -> (r: bool)
    ensures
        r == contains_seq(s@, n@),
{
    if n.len() > s.len() {
        assert(forall|i: int| !occurs_at(s@, i, n@));
        return false;
    }
    if n.len() == 0 {
        proof {
            assert(s@.subrange(0, 0) =~= n@);
            assert(occurs_at(s@, 0, n@));
        }
        return true;
    }
    let mut i: usize = 0;
    let last = s.len() - n.len();
    while i <= last
        invariant
            1 <= n@.len() <= s@.len(),
            s@.len() <= usize::MAX,
            last == s@.len() - n@.len(),
            i <= last + 1,
            forall|k: int| 0 <= k < i ==> !occurs_at(s@, k, n@),
        decreases last + 1 - i,
    {
        if matches_at(s, i, n) {
            return true;
        }
        proof {
            assert(i + 1 <= last + 1 <= s@.len());
        }
        i = i + 1;
    }
    assert(forall|k: int| occurs_at(s@, k, n@) ==> 0 <= k <= last);
    false
}

/// ASCII lowercasing of one byte.
pub open spec fn lower_byte(b: u8) -> u8 {
    if 65 <= b <= 90 {
        (b + 32) as u8
    } else {
        b
    }
}

/// ASCII lowercasing of a byte string; bytes outside the ASCII letters are kept.
pub open spec fn lower_spec(s: Seq<u8>) -> Seq<u8> {
    Seq::new(s.len(), |i: int| lower_byte(s[i]))
}

pub fn to_lowercase(s: &Vec<u8>) -> (r: Vec<u8>)
    ensures
        r@ == lower_spec(s@),
{
    let mut out: Vec<u8> = Vec::new();
    let mut i: usize = 0;
    while i < s.len()
        invariant
            i <= s.len(),
            out@.len() == i,
            forall|j: int| 0 <= j < i ==> out@[j] == lower_byte(s@[j]),
        decreases s.len() - i,
    {
        let b = s[i];
        if 65 <= b && b <= 90 {
            out.push(b + 32);
        } else {
            out.push(b);
        }
        i = i + 1;
    }
    proof {
        assert(out@ =~= lower_spec(s@));
    }
    out
}

pub fn bytes_eq(a: &Vec<u8>, b: &Vec<u8>) -> (r: bool)
    ensures
        r == (a@ == b@),
{
    if a.len() != b.len() {
        return false;
    }
    let mut i: usize = 0;
    while i < a.len()
        invariant
            i <= a.len(),
            a@.len() == b@.len(),
            forall|j: int| 0 <= j < i ==> a@[j] == b@[j],
        decreases a.len() - i,
    {
        if a[i] != b[i] {
            return false;
        }
        i = i + 1;
    }
    proof {
        assert(a@ =~= b@);
    }
    true
}

/// Copies a byte string; spelled out so that contracts can speak of the view.
pub fn clone_bytes(a: &Vec<u8>) -> (r: Vec<u8>)
    ensures
        r@ == a@,
{
    let mut out: Vec<u8> = Vec::new();
    let mut i: usize = 0;
    while i < a.len()
        invariant
            i <= a.len(),
            out@ =~= a@.subrange(0, i as int),
        decreases a.len() - i,
    {
        out.push(a[i]);
        i = i + 1;
    }
    proof {
        assert(out@ =~= a@);
    }
    out
}

} // verus!
