//! Decimal text of integers.
use vstd::prelude::*;
use crate::text::{all_ascii, ascii_chars, ascii_string};

verus! {

/// The ASCII digits of `n` in decimal, with no leading zero.
pub open spec fn decimal_bytes(n: nat) -> Seq<u8>
    decreases n,
{
    if n < 10 {
        seq![(0x30 + n) as u8]
    } else {
        decimal_bytes(n / 10).push((0x30 + n % 10) as u8)
    }
}

/// The decimal text of `n`.
pub open spec fn decimal(n: int) -> Seq<char> {
    if n < 0 {
        seq!['-'] + ascii_chars(decimal_bytes((-n) as nat))
    } else {
        ascii_chars(decimal_bytes(n as nat))
    }
}

proof fn lemma_decimal_ascii(n: nat)
    ensures
        all_ascii(decimal_bytes(n)),
    decreases n,
{
    if n >= 10 {
        lemma_decimal_ascii(n / 10);
    }
}

proof fn lemma_decimal_bytes_len(n: nat)
    ensures
        decimal_bytes(n).len() >= 1,
        n >= 10 ==> decimal_bytes(n).len() >= 2,
    decreases n,
{
    if n >= 10 {
        lemma_decimal_bytes_len(n / 10);
    }
}

proof fn lemma_decimal_digits(n: nat)
    ensures
        forall|i: int| 0 <= i < decimal_bytes(n).len() ==> 0x30 <= #[trigger] decimal_bytes(n)[i] <= 0x39,
    decreases n,
{
    if n >= 10 {
        lemma_decimal_digits(n / 10);
        assert forall|i: int| 0 <= i < decimal_bytes(n).len() implies 0x30 <= #[trigger] decimal_bytes(
            n,
        )[i] <= 0x39 by {
            if i < decimal_bytes(n).len() - 1 {
                assert(decimal_bytes(n)[i] == decimal_bytes(n / 10)[i]);
            }
        }
    }
}

proof fn lemma_decimal_bytes_injective(a: nat, b: nat)
    requires
        decimal_bytes(a) == decimal_bytes(b),
    ensures
        a == b,
    decreases a,
{
    lemma_decimal_bytes_len(a);
    lemma_decimal_bytes_len(b);
    if a < 10 && b < 10 {
        assert(decimal_bytes(a)[0] == (0x30 + a) as u8);
        assert(decimal_bytes(b)[0] == (0x30 + b) as u8);
    } else if a >= 10 && b >= 10 {
        assert(decimal_bytes(a).last() == (0x30 + a % 10) as u8);
        assert(decimal_bytes(b).last() == (0x30 + b % 10) as u8);
        assert(a % 10 == b % 10);
        assert(decimal_bytes(a).drop_last() =~= decimal_bytes(a / 10));
        assert(decimal_bytes(b).drop_last() =~= decimal_bytes(b / 10));
        lemma_decimal_bytes_injective(a / 10, b / 10);
        assert(a == (a / 10) * 10 + a % 10);
        assert(b == (b / 10) * 10 + b % 10);
    } else if a < 10 {
        assert(decimal_bytes(a).len() == 1);
    } else {
        assert(decimal_bytes(b).len() == 1);
    }
}

/// Different numbers have different decimal texts, and no text is empty.
pub proof fn lemma_decimal_injective(a: int, b: int)
    ensures
        decimal(a).len() > 0,
        decimal(a) == decimal(b) ==> a == b,
{
    lemma_decimal_bytes_len(if a < 0 {
        (-a) as nat
    } else {
        a as nat
    });
    if decimal(a) == decimal(b) {
        let da = if a < 0 {
            (-a) as nat
        } else {
            a as nat
        };
        let db = if b < 0 {
            (-b) as nat
        } else {
            b as nat
        };
        lemma_decimal_bytes_len(da);
        lemma_decimal_bytes_len(db);
        lemma_decimal_digits(da);
        lemma_decimal_digits(db);
        let xa = ascii_chars(decimal_bytes(da));
        let xb = ascii_chars(decimal_bytes(db));
        if a < 0 && b < 0 {
            assert(xa =~= decimal(a).drop_first());
            assert(xb =~= decimal(b).drop_first());
        } else if a < 0 {
            assert(decimal(a)[0] == '-');
            assert(decimal(b)[0] == xb[0]);
            assert(xb[0] == decimal_bytes(db)[0] as char);
            assert(0x30 <= decimal_bytes(db)[0]);
        } else if b < 0 {
            assert(decimal(b)[0] == '-');
            assert(decimal(a)[0] == xa[0]);
            assert(xa[0] == decimal_bytes(da)[0] as char);
            assert(0x30 <= decimal_bytes(da)[0]);
        }
        if (a < 0) == (b < 0) {
            assert forall|i: int| 0 <= i < decimal_bytes(da).len() implies decimal_bytes(da)[i]
                == decimal_bytes(db)[i] by {
                assert(xa[i] == xb[i]);
                assert(xa[i] == decimal_bytes(da)[i] as char);
                assert(xb[i] == decimal_bytes(db)[i] as char);
            }
            assert(decimal_bytes(da) =~= decimal_bytes(db));
            lemma_decimal_bytes_injective(da, db);
        }
    }
}

/// The digits of `m`, or nothing for zero.
spec fn digits_prefix(m: nat) -> Seq<u8> {
    if m == 0 {
        Seq::empty()
    } else {
        decimal_bytes(m)
    }
}

proof fn lemma_digits_step(m: nat)
    requires
        m > 0,
    ensures
        digits_prefix(m) == digits_prefix(m / 10).push((0x30 + m % 10) as u8),
{
    if m < 10 {
        assert(digits_prefix(m) =~= Seq::<u8>::empty().push((0x30 + m % 10) as u8));
    }
}

/// The ASCII digits of `n`.
pub fn decimal_digits(n: u64) -> (r: Vec<u8>)
    ensures
        r@ == decimal_bytes(n as nat),
{
    let mut reversed: Vec<u8> = Vec::new();
    let mut m = n;
    reversed.push((m % 10) as u8 + 0x30);
    m = m / 10;
    proof {
        if n >= 10 {
            lemma_digits_step(n as nat);
        }
        assert(reversed@.reverse() =~= seq![(0x30 + n % 10) as u8]);
        assert(decimal_bytes(n as nat) =~= digits_prefix(m as nat) + reversed@.reverse());
    }
    while m > 0
        invariant
            decimal_bytes(n as nat) == digits_prefix(m as nat) + reversed@.reverse(),
        decreases m,
    {
        let ghost before = m;
        let ghost old_rev = reversed@;
        reversed.push((m % 10) as u8 + 0x30);
        m = m / 10;
        proof {
            lemma_digits_step(before as nat);
            assert(reversed@.reverse() =~= seq![(0x30 + before % 10) as u8] + old_rev.reverse());
            assert(digits_prefix(before as nat) + old_rev.reverse() =~= digits_prefix(m as nat)
                + reversed@.reverse());
        }
    }
    proof {
        assert(digits_prefix(0) + reversed@.reverse() =~= reversed@.reverse());
    }
    let mut digits: Vec<u8> = Vec::new();
    let len = reversed.len();
    let mut i: usize = 0;
    while i < len
        invariant
            len == reversed@.len(),
            i <= len,
            digits@ =~= reversed@.reverse().take(i as int),
        decreases len - i,
    {
        digits.push(reversed[len - 1 - i]);
        i += 1;
        proof {
            assert(digits@ =~= reversed@.reverse().take(i as int));
        }
    }
    proof {
        assert(reversed@.reverse().take(len as int) =~= reversed@.reverse());
    }
    digits
}

/// The decimal text of `n`.
pub fn u64_to_string(n: u64) -> (r: String)
    ensures
        r@ == decimal(n as int),
{
    let digits = decimal_digits(n);
    proof {
        lemma_decimal_ascii(n as nat);
    }
    ascii_string(digits.as_slice())
}

/// The decimal text of `n`, with a leading `-` when it is negative.
pub fn i64_to_string(n: i64) -> (r: String)
    ensures
        r@ == decimal(n as int),
{
    if n >= 0 {
        return u64_to_string(n as u64);
    }
    let magnitude = (0 - (n as i128)) as u64;
    let mut bytes: Vec<u8> = Vec::new();
    bytes.push(0x2d);
    let digits = decimal_digits(magnitude);
    let mut i: usize = 0;
    while i < digits.len()
        invariant
            i <= digits@.len(),
            bytes@ == seq![0x2du8] + digits@.take(i as int),
        decreases digits@.len() - i,
    {
        bytes.push(digits[i]);
        i += 1;
        proof {
            assert(bytes@ =~= seq![0x2du8] + digits@.take(i as int));
        }
    }
    proof {
        lemma_decimal_ascii(magnitude as nat);
        assert(digits@.take(digits@.len() as int) =~= digits@);
        assert(ascii_chars(bytes@) =~= seq!['-'] + ascii_chars(digits@));
    }
    ascii_string(bytes.as_slice())
}

/// The decimal text of a natural number is all digits, and spells it.
pub proof fn lemma_decimal_bytes_value(m: nat)
    ensures
        ascii_chars(decimal_bytes(m)).len() > 0,
        forall|i: int| 0 <= i < ascii_chars(decimal_bytes(m)).len() ==> '0' <= #[trigger] ascii_chars(
            decimal_bytes(m),
        )[i] <= '9',
        crate::chars::decimal_value(ascii_chars(decimal_bytes(m))) == m,
    decreases m,
{
    lemma_decimal_bytes_len(m);
    lemma_decimal_digits(m);
    let s = ascii_chars(decimal_bytes(m));
    assert forall|i: int| 0 <= i < s.len() implies '0' <= #[trigger] s[i] <= '9' by {
        assert(s[i] == decimal_bytes(m)[i] as char);
        assert(0x30 <= decimal_bytes(m)[i] <= 0x39);
    }
    let b = decimal_bytes(m).last();
    assert(s.len() > 0);
    assert(crate::chars::decimal_value(s) == crate::chars::decimal_value(s.drop_last()) * 10 + (s.last() as int
        - 0x30));
    assert(s.last() == b as char);
    assert((b as char) as int == b as int);
    if m < 10 {
        assert(s.drop_last() =~= Seq::<char>::empty());
        assert(b == (0x30 + m) as u8);
        assert(b as int == 0x30 + m);
        assert(crate::chars::decimal_value(s.drop_last()) == 0);
    } else {
        lemma_decimal_bytes_value(m / 10);
        assert(s.drop_last() =~= ascii_chars(decimal_bytes(m / 10)));
        assert(b == (0x30 + m % 10) as u8);
        assert(b as int == 0x30 + m % 10);
        assert(m == (m / 10) * 10 + m % 10);
    }
}

} // verus!
