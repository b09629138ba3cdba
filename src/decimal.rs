//! Decimal text for unsigned integers, as bytes: what `u64`'s `Display` writes
//! and what `u64`'s `FromStr` reads.
use vstd::prelude::*;

verus! {

pub open spec fn is_digit(b: u8) -> bool {
    48 <= b <= 57
}

pub open spec fn all_digits(s: Seq<u8>) -> bool {
    forall|i: int| 0 <= i < s.len() ==> is_digit(#[trigger] s[i])
}

/// The shortest decimal spelling of `n`, most significant digit first.
pub open spec fn dec_digits(n: nat) -> Seq<u8>
    decreases n,
{
    if n < 10 {
        seq![(48 + n) as u8]
    } else {
        dec_digits(n / 10).push((48 + n % 10) as u8)
    }
}

/// The number that a run of digits spells.
pub open spec fn digits_value(s: Seq<u8>) -> nat
    decreases s.len(),
{
    if s.len() == 0 {
        0
    } else {
        digits_value(s.drop_last()) * 10 + (s.last() - 48) as nat
    }
}

/// What `u64::from_str` accepts: an optional `+`, then one or more digits,
/// spelling a value that fits in 64 bits.
pub open spec fn parse_u64_spec(s: Seq<u8>) -> Option<u64> {
    parse_digits_spec(if s.len() > 0 && s[0] == 43 { s.drop_first() } else { s })
}

/// One or more digits, spelling a value that fits in 64 bits.
pub open spec fn parse_digits_spec(d: Seq<u8>) -> Option<u64> {
    if d.len() > 0 && all_digits(d) && digits_value(d) <= u64::MAX {
        Some(digits_value(d) as u64)
    } else {
        None
    }
}

pub proof fn lemma_dec_digits_props(n: nat)
    ensures
        dec_digits(n).len() > 0,
        all_digits(dec_digits(n)),
        digits_value(dec_digits(n)) == n,
        dec_digits(n)[0] != 43,
        !dec_digits(n).contains(124u8),
    decreases n,
{
    if n >= 10 {
        lemma_dec_digits_props(n / 10);
        let s = dec_digits(n);
        assert(s.drop_last() =~= dec_digits(n / 10));
        assert(s.last() == (48 + n % 10) as u8);
        assert(digits_value(s) == (n / 10) * 10 + n % 10);
        assert forall|i: int| 0 <= i < s.len() implies is_digit(#[trigger] s[i]) by {
            if i < s.len() - 1 {
                assert(s[i] == dec_digits(n / 10)[i]);
            }
        }
        if s.contains(124u8) {
            let i = choose|i: int| 0 <= i < s.len() && s[i] == 124u8;
            assert(is_digit(s[i]));
        }
    } else {
        let s = dec_digits(n);
        assert(s.drop_last() =~= Seq::<u8>::empty());
        assert(digits_value(s) == digits_value(Seq::<u8>::empty()) * 10 + (s.last() - 48) as nat);
        if s.contains(124u8) {
            let i = choose|i: int| 0 <= i < s.len() && s[i] == 124u8;
            assert(i == 0);
        }
    }
}

/// A prefix never spells more than the whole run.
pub proof fn lemma_digits_value_prefix(s: Seq<u8>, k: int)
    requires
        0 <= k <= s.len(),
        all_digits(s),
    ensures
        digits_value(s.subrange(0, k)) <= digits_value(s),
    decreases s.len() - k,
{
    if k < s.len() {
        lemma_digits_value_prefix(s, k + 1);
        let p = s.subrange(0, k + 1);
        assert(p.drop_last() =~= s.subrange(0, k));
        assert(is_digit(s[k]));
    } else {
        assert(s.subrange(0, k) =~= s);
    }
}

/// Writes `n` in decimal.
pub fn u64_to_dec(n: u64) -> (r: Vec<u8>)
    ensures
        r@ == dec_digits(n as nat),
{
    let mut digits: Vec<u8> = Vec::new();
    let mut m: u64 = n;
    while m >= 10
        invariant
            dec_digits(n as nat) == dec_digits(m as nat) + digits@,
        decreases m,
    {
        let d: u8 = (48 + m % 10) as u8;
        proof {
            assert(dec_digits(m as nat) == dec_digits((m / 10) as nat).push(d));
            assert(dec_digits((m / 10) as nat).push(d) + digits@ =~= dec_digits((m / 10) as nat)
                + seq![d].add(digits@));
        }
        digits.insert(0, d);
        m = m / 10;
    }
    let d: u8 = (48 + m) as u8;
    digits.insert(0, d);
    proof {
        assert(dec_digits(m as nat) =~= seq![d]);
    }
    digits
}

/// Reads the bytes `s[start..end]` as `u64::from_str` would.
pub fn parse_u64(s: &Vec<u8>, start: usize, end: usize) -> (r: Option<u64>)
    requires
        start <= end <= s@.len(),
    ensures
        r == parse_u64_spec(s@.subrange(start as int, end as int)),
{
    let ghost whole = s@.subrange(start as int, end as int);
    let mut i: usize = start;
    if i < end && s[i] == 43 {
        i = i + 1;
    }
    let ghost d = s@.subrange(i as int, end as int);
    proof {
        if whole.len() > 0 && whole[0] == 43 {
            assert(whole.drop_first() =~= d);
        } else {
            assert(whole =~= d);
        }
    }
    if i == end {
        return None;
    }
    let begin: usize = i;
    let mut acc: u64 = 0;
    while i < end
        invariant
            begin <= i <= end <= s@.len(),
            d == s@.subrange(begin as int, end as int),
            whole == s@.subrange(start as int, end as int),
            parse_u64_spec(whole) == parse_digits_spec(d),
            all_digits(s@.subrange(begin as int, i as int)),
            acc as nat == digits_value(s@.subrange(begin as int, i as int)),
        decreases end - i,
    {
        let b: u8 = s[i];
        let ghost p = s@.subrange(begin as int, i as int + 1);
        proof {
            assert(p.drop_last() =~= s@.subrange(begin as int, i as int));
        }
        if b < 48 || b > 57 {
            proof {
                assert(d[i - begin] == b);
                assert(!is_digit(d[i - begin]));
                assert(!all_digits(d));
            }
            return None;
        }
        let dv: u64 = (b - 48) as u64;
        if acc > (u64::MAX - dv) / 10 {
            proof {
                assert(acc * 10 + dv > u64::MAX) by (nonlinear_arith)
                    requires
                        acc > (u64::MAX - dv) / 10,
                        dv <= 9,
                ;
                assert(p.last() == b);
                assert(digits_value(p) == acc * 10 + dv);
                assert(all_digits(p));
                if all_digits(d) {
                    assert(p =~= d.subrange(0, i - begin + 1));
                    lemma_digits_value_prefix(d, i - begin + 1);
                }
            }
            return None;
        }
        acc = acc * 10 + dv;
        i = i + 1;
    }
    proof {
        assert(s@.subrange(begin as int, i as int) =~= d);
    }
    Some(acc)
}

} // verus!
