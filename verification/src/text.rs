//! Numbers written as text, for the messages of errors
use vstd::prelude::*;
use vstd::string::StringExecFns;

verus! {

/// The characters of the digits, up to base 16
pub open spec fn digits() -> Seq<char> {
    seq!['0', '1', '2', '3', '4', '5', '6', '7', '8', '9', 'a', 'b', 'c', 'd', 'e', 'f']
}

/// `n` written in base `base` (2 to 16), the most significant digit first, without leading zeros
pub open spec fn in_base(n: nat, base: nat) -> Seq<char>
    recommends
        2 <= base <= 16,
    decreases n,
{
    if n < base || base < 2 {
        seq![digits()[(n % 16) as int]]
    } else {
        proof {
            assert(n / base < n) by (nonlinear_arith)
                requires
                    n >= base,
                    base >= 2,
            ;
        }
        in_base(n / base, base).push(digits()[(n % base) as int])
    }
}

/// The digit `d` as text
fn digit_text(d: u64) -> (r: &'static str)
    requires
        d < 16,
    ensures
        r@ == seq![digits()[d as int]],
{
    proof {
        reveal_strlit("0");
        reveal_strlit("1");
        reveal_strlit("2");
        reveal_strlit("3");
        reveal_strlit("4");
        reveal_strlit("5");
        reveal_strlit("6");
        reveal_strlit("7");
        reveal_strlit("8");
        reveal_strlit("9");
        reveal_strlit("a");
        reveal_strlit("b");
        reveal_strlit("c");
        reveal_strlit("d");
        reveal_strlit("e");
        reveal_strlit("f");
    }
    match d {
        0 => "0",
        1 => "1",
        2 => "2",
        3 => "3",
        4 => "4",
        5 => "5",
        6 => "6",
        7 => "7",
        8 => "8",
        9 => "9",
        10 => "a",
        11 => "b",
        12 => "c",
        13 => "d",
        14 => "e",
        _ => "f",
    }
}

/// Appends `n` written in base `base` to `s`.
pub fn push_number(s: &mut String, n: u64, base: u64)
    requires
        2 <= base <= 16,
    ensures
        final(s)@ == old(s)@ + in_base(n as nat, base as nat),
    decreases n,
{
    let ghost before = s@;
    if n >= base {
        assert(n / base < n) by (nonlinear_arith)
            requires
                n >= base,
                base >= 2,
        ;
        push_number(s, n / base, base);
    }
    let d = n % base;
    let ghost mid = s@;
    s.append(digit_text(d));
    proof {
        if n < base {
            assert(n % 16 == n);
            assert(n % base == n) by (nonlinear_arith)
                requires
                    n < base,
            ;
            assert(d == n);
            assert(mid == before);
            assert(in_base(n as nat, base as nat) == seq![digits()[n as int]]);
            assert(s@ =~= before + in_base(n as nat, base as nat));
        } else {
            let a = in_base((n / base) as nat, base as nat);
            assert(mid == before + a);
            assert(s@ == mid + seq![digits()[d as int]]);
            assert(in_base(n as nat, base as nat) == a.push(digits()[(n % base) as int]));
            assert(s@ =~= before + in_base(n as nat, base as nat));
        }
    }
}

} // verus!
