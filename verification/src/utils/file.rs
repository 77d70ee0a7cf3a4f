//! File sizes as people read them.

use crate::text::{decimal, digit, push_decimal};
use vstd::prelude::*;
use vstd::string::*;

verus! {

/// The integer nearest to `num / den`; of two that are equally near, the
/// even one.
pub open spec fn nearest_even(num: nat, den: nat) -> nat {
    let q = num / den;
    let r = num % den;
    if 2 * r > den || (2 * r == den && q % 2 == 1) {
        q + 1
    } else {
        q
    }
}

/// The integer that [`nearest_even`] gives is within half a step of the
/// quotient, and even where it is exactly half a step away.
pub proof fn nearest_even_is_nearest(num: nat, den: nat)
    requires
        den > 0,
    ensures
        2 * (nearest_even(num, den) * den - num) <= den,
        2 * (num - nearest_even(num, den) * den) <= den,
        2 * (nearest_even(num, den) * den - num) == den || 2 * (num - nearest_even(num, den) * den)
            == den ==> nearest_even(num, den) % 2 == 0,
{
    let q = num / den;
    let r = num % den;
    vstd::arithmetic::div_mod::lemma_fundamental_div_mod(num as int, den as int);
    vstd::arithmetic::div_mod::lemma_mod_bound(num as int, den as int);
    assert((q + 1) * den == q * den + den) by (nonlinear_arith);
    assert(den * q == q * den) by (nonlinear_arith);
}

/// The power of two whose multiples a double can tell apart near `n`:
/// 1 below 2^53, and twice as much for each bit that `n` has beyond 53.
pub open spec fn grain(n: nat) -> nat {
    if n < 0x20_0000_0000_0000 {
        1
    } else if n < 0x40_0000_0000_0000 {
        2
    } else if n < 0x80_0000_0000_0000 {
        4
    } else if n < 0x100_0000_0000_0000 {
        8
    } else if n < 0x200_0000_0000_0000 {
        16
    } else if n < 0x400_0000_0000_0000 {
        32
    } else if n < 0x800_0000_0000_0000 {
        64
    } else if n < 0x1000_0000_0000_0000 {
        128
    } else if n < 0x2000_0000_0000_0000 {
        256
    } else if n < 0x4000_0000_0000_0000 {
        512
    } else if n < 0x8000_0000_0000_0000 {
        1024
    } else {
        2048
    }
}

/// The number that a double holds for `n`: `n` itself below 2^53, and the
/// nearest multiple of [`grain`] above.
pub open spec fn as_double(n: nat) -> nat {
    nearest_even(n, grain(n)) * grain(n)
}

/// Which unit a size is given in: 0 for bytes, then KB, MB and GB. A size
/// moves to the next unit when it reaches 1000 of the one before.
pub open spec fn unit_index(n: nat) -> nat {
    let d = as_double(n);
    if d < 1000 {
        0
    } else if d < 1_024_000 {
        1
    } else if d < 1_048_576_000 {
        2
    } else {
        3
    }
}

/// The number of bytes in one of unit `k`.
pub open spec fn unit_bytes(k: nat) -> nat {
    if k == 0 {
        1
    } else if k == 1 {
        1024
    } else if k == 2 {
        1_048_576
    } else {
        1_073_741_824
    }
}

/// The name of unit `k`.
pub open spec fn unit_name(k: nat) -> Seq<char> {
    if k == 0 {
        seq!['B']
    } else if k == 1 {
        seq!['K', 'B']
    } else if k == 2 {
        seq!['M', 'B']
    } else {
        seq!['G', 'B']
    }
}

/// The size in tenths of its unit, rounded to the nearest, ties to even.
pub open spec fn tenths(n: nat) -> nat {
    nearest_even(10 * as_double(n), unit_bytes(unit_index(n)))
}

/// The number that stands before the unit: the bytes as they are, any
/// other unit with one decimal.
pub open spec fn size_text(n: nat) -> Seq<char> {
    if unit_index(n) == 0 {
        decimal(n)
    } else {
        decimal(tenths(n) / 10) + seq!['.'] + seq![digit(tenths(n) % 10)]
    }
}

fn round_half_even(num: u128, den: u128) -> (r: u128)
    requires
        0 < den <= 0x1_0000_0000,
        num <= 0x1000_0000_0000_0000_0000,
    ensures
        r == nearest_even(num as nat, den as nat),
        r * den <= num + den,
{
    let q = num / den;
    let r = num % den;
    proof {
        vstd::arithmetic::div_mod::lemma_fundamental_div_mod(num as int, den as int);
        assert((q + 1) * den == q * den + den) by (nonlinear_arith);
        assert(den * q == q * den) by (nonlinear_arith);
        assert(q <= num) by (nonlinear_arith)
            requires
                q * den <= num,
                den >= 1,
                q >= 0,
        ;
    }
    if 2 * r > den || (2 * r == den && q % 2 == 1) {
        q + 1
    } else {
        q
    }
}

fn grain_of(n: u64) -> (g: u128)
    ensures
        g == grain(n as nat),
        0 < g <= 2048,
{
    if n < 0x20_0000_0000_0000 {
        1
    } else if n < 0x40_0000_0000_0000 {
        2
    } else if n < 0x80_0000_0000_0000 {
        4
    } else if n < 0x100_0000_0000_0000 {
        8
    } else if n < 0x200_0000_0000_0000 {
        16
    } else if n < 0x400_0000_0000_0000 {
        32
    } else if n < 0x800_0000_0000_0000 {
        64
    } else if n < 0x1000_0000_0000_0000 {
        128
    } else if n < 0x2000_0000_0000_0000 {
        256
    } else if n < 0x4000_0000_0000_0000 {
        512
    } else if n < 0x8000_0000_0000_0000 {
        1024
    } else {
        2048
    }
}

/// A size in bytes as a number and a unit: bytes below 1000, then KB, MB
/// and GB with one decimal, each unit 1024 of the one before.
pub fn fmt_size(size: u64) -> (r: (String, String))
    ensures
        r.0@ == size_text(size as nat),
        r.1@ == unit_name(unit_index(size as nat)),
{
    let g = grain_of(size);
    let m = round_half_even(size as u128, g);
    let d: u128 = m * g;
    assert(d == as_double(size as nat));
    proof {
        reveal_strlit("B");
        reveal_strlit("KB");
        reveal_strlit("MB");
        reveal_strlit("GB");
        reveal_strlit(".");
    }
    if d < 1000 {
        assert(g == 1);
        assert(d == size);
        let mut text = String::new();
        push_decimal(&mut text, size as u128);
        let unit = String::from_str("B");
        assert(unit@ =~= unit_name(0));
        assert(text@ =~= size_text(size as nat));
        return (text, unit);
    }
    let (bytes, unit): (u128, String) = if d < 1_024_000 {
        (1024, String::from_str("KB"))
    } else if d < 1_048_576_000 {
        (1_048_576, String::from_str("MB"))
    } else {
        (1_073_741_824, String::from_str("GB"))
    };
    assert(bytes == unit_bytes(unit_index(size as nat)));
    assert(unit@ =~= unit_name(unit_index(size as nat)));
    let t = round_half_even(10 * d, bytes);
    assert(t == tenths(size as nat));
    let mut text = String::new();
    push_decimal(&mut text, t / 10);
    text.append(".");
    push_decimal(&mut text, t % 10);
    assert(decimal((t % 10) as nat) =~= seq![digit((t % 10) as nat)]);
    assert("."@ =~= seq!['.']);
    assert(text@ =~= size_text(size as nat));
    (text, unit)
}

} // verus!
