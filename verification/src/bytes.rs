//! Byte-sequence primitives: searching, copying, trimming, and
//! decimal rendering/parsing, each proved against a spec function.

use vstd::prelude::*;

verus! {

/// ASCII space.
pub const SP: u8 = 32;
/// ASCII horizontal tab.
pub const HT: u8 = 9;
/// ASCII carriage return.
pub const CR: u8 = 13;
/// ASCII line feed.
pub const LF: u8 = 10;

/// The smallest index `i >= from` with `s[i] == b`, if any.
pub open spec fn spec_find_byte(s: Seq<u8>, b: u8, from: int) -> Option<int>
    decreases s.len() - from,
{
    if from < 0 || from >= s.len() {
        None
    } else if s[from] == b {
        Some(from)
    } else {
        spec_find_byte(s, b, from + 1)
    }
}

/// What `spec_find_byte` finds: the first occurrence at or after `from`.
pub proof fn lemma_find_byte(s: Seq<u8>, b: u8, from: int)
    requires
        0 <= from <= s.len(),
    ensures
        match spec_find_byte(s, b, from) {
            Some(i) => from <= i < s.len() && s[i] == b
                && (forall|k: int| from <= k < i ==> s[k] != b),
            None => forall|k: int| from <= k < s.len() ==> s[k] != b,
        },
    decreases s.len() - from,
{
    if from < s.len() && s[from] != b {
        lemma_find_byte(s, b, from + 1);
    }
}

/// First occurrence of `b` in `v` at or after `from`.
pub fn find_byte(v: &Vec<u8>, b: u8, from: usize) -> (r: Option<usize>)
    requires
        from <= v@.len(),
    ensures
        match r {
            Some(i) => from <= i < v@.len() && spec_find_byte(v@, b, from as int) == Some(i as int),
            None => spec_find_byte(v@, b, from as int) is None,
        },
{
    let mut i: usize = from;
    while i < v.len()
        invariant
            from <= i <= v@.len(),
            spec_find_byte(v@, b, from as int) == spec_find_byte(v@, b, i as int),
        decreases v@.len() - i,
    {
        if v[i] == b {
            return Some(i);
        }
        i = i + 1;
    }
    None
}

/// Equality of two byte vectors, decided bytewise.
pub fn bytes_eq(a: &Vec<u8>, b: &Vec<u8>) -> (r: bool)
    ensures
        r == (a@ == b@),
{
    if a.len() != b.len() {
        return false;
    }
    let mut i: usize = 0;
    while i < a.len()
        invariant
            a@.len() == b@.len(),
            0 <= i <= a@.len(),
            forall|k: int| 0 <= k < i ==> a@[k] == b@[k],
        decreases a@.len() - i,
    {
        if a[i] != b[i] {
            return false;
        }
        i = i + 1;
    }
    proof {
        assert(a@ =~= b@);
    }
    true
}

/// A fresh copy of `v[start..end]`.
pub fn subvec(v: &Vec<u8>, start: usize, end: usize) -> (r: Vec<u8>)
    requires
        start <= end <= v@.len(),
    ensures
        r@ == v@.subrange(start as int, end as int),
{
    let mut r: Vec<u8> = Vec::new();
    let mut i: usize = start;
    while i < end
        invariant
            start <= i <= end,
            end <= v@.len(),
            r@ == v@.subrange(start as int, i as int),
        decreases end - i,
    {
        r.push(v[i]);
        proof {
            assert(v@.subrange(start as int, i + 1 as int)
                =~= v@.subrange(start as int, i as int).push(v@[i as int]));
        }
        i = i + 1;
    }
    r
}

/// Bytes counted as surrounding whitespace when header tokens are trimmed.
pub open spec fn is_ws(b: u8) -> bool {
    b == SP || b == HT
}

/// `s` with leading whitespace removed.
pub open spec fn spec_trim_front(s: Seq<u8>) -> Seq<u8>
    decreases s.len(),
{
    if s.len() > 0 && is_ws(s[0]) {
        spec_trim_front(s.drop_first())
    } else {
        s
    }
}

/// `s` with trailing whitespace removed.
pub open spec fn spec_trim_back(s: Seq<u8>) -> Seq<u8>
    decreases s.len(),
{
    if s.len() > 0 && is_ws(s.last()) {
        spec_trim_back(s.drop_last())
    } else {
        s
    }
}

/// `s` with surrounding whitespace removed.
pub open spec fn spec_trim(s: Seq<u8>) -> Seq<u8> {
    spec_trim_back(spec_trim_front(s))
}

/// A fresh copy of `v[start..end]` with surrounding whitespace removed.
pub fn trim_copy(v: &Vec<u8>, start: usize, end: usize) -> (r: Vec<u8>)
    requires
        start <= end <= v@.len(),
    ensures
        r@ == spec_trim(v@.subrange(start as int, end as int)),
{
    let ghost orig = v@.subrange(start as int, end as int);
    let mut lo: usize = start;
    let mut hi: usize = end;
    while lo < hi && (v[lo] == SP || v[lo] == HT)
        invariant
            start <= lo <= hi <= end <= v@.len(),
            spec_trim_front(v@.subrange(start as int, end as int))
                == spec_trim_front(v@.subrange(lo as int, end as int)),
            hi == end,
        decreases hi - lo,
    {
        proof {
            assert(v@.subrange(lo as int, end as int).drop_first()
                =~= v@.subrange(lo + 1 as int, end as int));
        }
        lo = lo + 1;
    }
    proof {
        // the front is now trimmed: the remaining range starts with a
        // non-whitespace byte (or is empty)
        assert(spec_trim_front(v@.subrange(lo as int, end as int))
            == v@.subrange(lo as int, end as int));
    }
    while lo < hi && (v[hi - 1] == SP || v[hi - 1] == HT)
        invariant
            start <= lo <= hi <= end <= v@.len(),
            spec_trim_front(v@.subrange(start as int, end as int))
                == v@.subrange(lo as int, end as int),
            spec_trim_back(v@.subrange(lo as int, end as int))
                == spec_trim_back(v@.subrange(lo as int, hi as int)),
        decreases hi - lo,
    {
        proof {
            assert(v@.subrange(lo as int, hi as int).drop_last()
                =~= v@.subrange(lo as int, hi - 1 as int));
        }
        hi = hi - 1;
    }
    proof {
        assert(spec_trim_back(v@.subrange(lo as int, hi as int))
            == v@.subrange(lo as int, hi as int));
    }
    subvec(v, lo, hi)
}

/// A decimal digit.
pub open spec fn is_digit(b: u8) -> bool {
    48 <= b <= 57
}

/// Every byte is a decimal digit.
pub open spec fn all_digits(s: Seq<u8>) -> bool {
    forall|i: int| 0 <= i < s.len() ==> is_digit(s[i])
}

/// The value a digit string denotes.
pub open spec fn dec_val(s: Seq<u8>) -> nat
    decreases s.len(),
{
    if s.len() == 0 {
        0
    } else {
        (10 * dec_val(s.drop_last()) + (s.last() - 48)) as nat
    }
}

/// The canonical decimal rendering of `n` (no leading zero except
/// for zero itself).
pub open spec fn spec_dec(n: nat) -> Seq<u8>
    decreases n,
{
    if n < 10 {
        seq![(48 + n) as u8]
    } else {
        spec_dec(n / 10).push((48 + n % 10) as u8)
    }
}

/// Append the decimal rendering of `n`.
pub fn push_dec(out: &mut Vec<u8>, n: usize)
    ensures
        final(out)@ == old(out)@ + spec_dec(n as nat),
    decreases n,
{
    if n < 10 {
        out.push(48 + (n as u8));
        proof {
            assert(out@ =~= old(out)@ + spec_dec(n as nat));
        }
    } else {
        push_dec(out, n / 10);
        out.push(48 + ((n % 10) as u8));
        proof {
            assert(out@ =~= old(out)@ + spec_dec(n as nat));
        }
    }
}

/// Appending a digit multiplies the value by ten and adds the digit.
pub proof fn lemma_dec_val_push(s: Seq<u8>, b: u8)
    ensures
        dec_val(s.push(b)) == (10 * dec_val(s) + (b - 48)) as nat,
{
    assert(s.push(b).drop_last() =~= s);
}

/// A digit string is worth at least any of its prefixes.
pub proof fn lemma_dec_val_prefix(s: Seq<u8>, j: int)
    requires
        0 <= j <= s.len(),
        all_digits(s),
    ensures
        dec_val(s.subrange(0, j)) <= dec_val(s),
    decreases s.len() - j,
{
    if j < s.len() {
        lemma_dec_val_prefix(s, j + 1);
        let p = s.subrange(0, j);
        let q = s.subrange(0, j + 1);
        assert(q =~= p.push(s[j]));
        lemma_dec_val_push(p, s[j]);
    } else {
        assert(s.subrange(0, j) =~= s);
    }
}

/// Parse a decimal byte string. `Some(n)` exactly when the string is
/// non-empty, all digits, and its value fits the machine word.
pub fn parse_dec(v: &Vec<u8>) -> (r: Option<usize>)
    ensures
        match r {
            Some(n) => v@.len() > 0 && all_digits(v@) && n as nat == dec_val(v@),
            None => v@.len() == 0 || !all_digits(v@) || dec_val(v@) > usize::MAX,
        },
{
    if v.len() == 0 {
        return None;
    }
    let mut acc: usize = 0;
    let mut i: usize = 0;
    while i < v.len()
        invariant
            0 <= i <= v@.len(),
            forall|k: int| 0 <= k < i ==> is_digit(v@[k]),
            acc as nat == dec_val(v@.subrange(0, i as int)),
        decreases v@.len() - i,
    {
        let b = v[i];
        if b < 48 || b > 57 {
            return None;
        }
        let d = (b - 48) as usize;
        let shifted = match acc.checked_mul(10) {
            Some(x) => x,
            None => {
                proof {
                    overflow_means_too_big(v@, i as int);
                }
                return None;
            },
        };
        let next = match shifted.checked_add(d) {
            Some(x) => x,
            None => {
                proof {
                    overflow_means_too_big(v@, i as int);
                }
                return None;
            },
        };
        proof {
            assert(v@.subrange(0, i + 1 as int) =~= v@.subrange(0, i as int).push(v@[i as int]));
            lemma_dec_val_push(v@.subrange(0, i as int), v@[i as int]);
        }
        acc = next;
        i = i + 1;
    }
    proof {
        assert(v@.subrange(0, v@.len() as int) =~= v@);
    }
    Some(acc)
}

/// If one more digit no longer fits the machine word, the whole
/// string's value does not fit either (provided the rest are digits
/// too; otherwise the string is not all digits and `None` is right
/// anyway).
proof fn overflow_means_too_big(s: Seq<u8>, i: int)
    requires
        0 <= i < s.len(),
        is_digit(s[i]),
        10 * dec_val(s.subrange(0, i)) + (s[i] - 48) > usize::MAX,
    ensures
        !all_digits(s) || dec_val(s) > usize::MAX,
{
    if all_digits(s) {
        lemma_dec_val_prefix(s, i + 1);
        assert(s.subrange(0, i + 1) =~= s.subrange(0, i).push(s[i]));
        lemma_dec_val_push(s.subrange(0, i), s[i]);
    }
}

/// How many spaces a byte string holds.
pub open spec fn space_count(s: Seq<u8>) -> nat
    decreases s.len(),
{
    if s.len() == 0 {
        0
    } else {
        (if s[0] == SP {
            1nat
        } else {
            0nat
        }) + space_count(s.drop_first())
    }
}

/// Space search, retold as a space count: the suffix at `from` holds
/// one space more than the suffix after the first space found.
pub proof fn lemma_space_count_from(s: Seq<u8>, from: int)
    requires
        0 <= from <= s.len(),
    ensures
        match spec_find_byte(s, SP, from) {
            None => space_count(s.subrange(from, s.len() as int)) == 0,
            Some(i) => space_count(s.subrange(from, s.len() as int)) == 1 + space_count(
                s.subrange(i + 1, s.len() as int),
            ),
        },
    decreases s.len() - from,
{
    if from == s.len() {
    } else if s[from] == SP {
        assert(s.subrange(from, s.len() as int).drop_first()
            =~= s.subrange(from + 1, s.len() as int));
    } else {
        lemma_space_count_from(s, from + 1);
        assert(s.subrange(from, s.len() as int).drop_first()
            =~= s.subrange(from + 1, s.len() as int));
    }
}

} // verus!
