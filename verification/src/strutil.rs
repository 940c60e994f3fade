use vstd::prelude::*;

verus! {

/// Decides equality of two string slices character by character.
pub fn str_eq(a: &str, b: &str) -> (r: bool)
    ensures
        r == (a@ == b@),
{
    let alen = a.unicode_len();
    let blen = b.unicode_len();
    if alen != blen {
        assert(a@ != b@);
        return false;
    }
    let mut i: usize = 0;
    while i < alen
        invariant
            alen == a@.len(),
            alen == b@.len(),
            i <= alen,
            forall|j: int| 0 <= j < i ==> a@[j] == b@[j],
        decreases alen - i,
    {
        if a.get_char(i) != b.get_char(i) {
            assert(a@[i as int] != b@[i as int]);
            assert(a@ != b@);
            return false;
        }
        i += 1;
    }
    assert(a@ =~= b@);
    true
}

pub open spec fn sp_ends_with(s: Seq<char>, suffix: Seq<char>) -> bool {
    s.len() >= suffix.len() && s.subrange(s.len() - suffix.len(), s.len() as int) == suffix
}

/// Decides whether `s` ends with `suffix`.
pub fn ends_with(s: &str, suffix: &str) -> (r: bool)
    ensures
        r == sp_ends_with(s@, suffix@),
{
    let slen = s.unicode_len();
    let xlen = suffix.unicode_len();
    if slen < xlen {
        return false;
    }
    let tail = s.substring_char(slen - xlen, slen);
    str_eq(tail, suffix)
}

pub open spec fn is_digit(c: char) -> bool {
    '0' <= c && c <= '9'
}

pub open spec fn digit_val(c: char) -> nat {
    ((c as int) - ('0' as int)) as nat
}

/// The value of a decimal digit string, most significant digit first.
pub open spec fn digits_val(s: Seq<char>) -> nat
    decreases s.len(),
{
    if s.len() == 0 {
        0
    } else {
        digits_val(s.drop_last()) * 10 + digit_val(s.last())
    }
}

proof fn lemma_digits_val_prefix_le(s: Seq<char>, i: int, j: int)
    requires
        0 <= i <= j <= s.len(),
    ensures
        digits_val(s.subrange(0, i)) <= digits_val(s.subrange(0, j)),
    decreases j - i,
{
    if i < j {
        lemma_digits_val_prefix_le(s, i, j - 1);
        let p = s.subrange(0, j);
        assert(p.drop_last() =~= s.subrange(0, j - 1));
        assert(digits_val(s.subrange(0, j)) == digits_val(s.subrange(0, j - 1)) * 10 + digit_val(
            p.last(),
        ));
        assert(digits_val(s.subrange(0, j - 1)) <= digits_val(s.subrange(0, j - 1)) * 10);
    }
}

/// Parses a non-empty decimal digit string as a machine word.
///
/// Returns the value exactly when it fits; integer literals wider than a
/// machine word are reported, not truncated.
pub fn parse_u64_digits(t: &str) -> (r: Option<u64>)
    requires
        t@.len() >= 1,
        forall|i: int| 0 <= i < t@.len() ==> is_digit(t@[i]),
    ensures
        match r {
            Some(v) => v as nat == digits_val(t@),
            None => digits_val(t@) > u64::MAX,
        },
{
    let len = t.unicode_len();
    let mut acc: u64 = 0;
    let mut i: usize = 0;
    while i < len
        invariant
            len == t@.len(),
            i <= len,
            forall|k: int| 0 <= k < t@.len() ==> is_digit(t@[k]),
            acc as nat == digits_val(t@.subrange(0, i as int)),
        decreases len - i,
    {
        let c = t.get_char(i);
        assert(is_digit(t@[i as int]));
        let d: u64 = (c as u32 as u64) - 48;
        proof {
            let p = t@.subrange(0, i + 1);
            assert(p.drop_last() =~= t@.subrange(0, i as int));
            assert(digits_val(p) == acc as nat * 10 + digit_val(c));
        }
        let m = match acc.checked_mul(10) {
            Some(m) => m,
            None => {
                proof {
                    lemma_digits_val_prefix_le(t@, i + 1, t@.len() as int);
                    assert(t@.subrange(0, t@.len() as int) =~= t@);
                }
                return None;
            },
        };
        let a = match m.checked_add(d) {
            Some(a) => a,
            None => {
                proof {
                    lemma_digits_val_prefix_le(t@, i + 1, t@.len() as int);
                    assert(t@.subrange(0, t@.len() as int) =~= t@);
                }
                return None;
            },
        };
        acc = a;
        i += 1;
    }
    proof {
        assert(t@.subrange(0, len as int) =~= t@);
    }
    Some(acc)
}

} // verus!
