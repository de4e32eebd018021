//! Decimal rendering of unsigned machine integers, used by the image
//! encoder for channel values and canvas dimensions.

use vstd::prelude::*;
use vstd::string::StringExecFns;

verus! {

/// The digit character for one decimal digit.
pub open spec fn spec_digit(d: nat) -> char {
    if d == 0 {
        '0'
    } else if d == 1 {
        '1'
    } else if d == 2 {
        '2'
    } else if d == 3 {
        '3'
    } else if d == 4 {
        '4'
    } else if d == 5 {
        '5'
    } else if d == 6 {
        '6'
    } else if d == 7 {
        '7'
    } else if d == 8 {
        '8'
    } else {
        '9'
    }
}

/// The usual decimal numeral of `n`: most significant digit first, no
/// leading zeros except for `n == 0` itself.
pub open spec fn spec_dec(n: nat) -> Seq<char>
    decreases n,
{
    if n < 10 {
        seq![spec_digit(n)]
    } else {
        spec_dec(n / 10) + seq![spec_digit(n % 10)]
    }
}

/// Powers of ten, for bounding numeral lengths.
pub open spec fn ten_pow(k: nat) -> nat
    decreases k,
{
    if k == 0 {
        1
    } else {
        10 * ten_pow((k - 1) as nat)
    }
}

/// A numeral is never empty and consists of digit characters only: in
/// particular it holds no newline and no space.
pub proof fn lemma_dec_chars(n: nat)
    ensures
        spec_dec(n).len() >= 1,
        forall|i: int|
            0 <= i < spec_dec(n).len() ==> spec_dec(n)[i] != '\n' && spec_dec(n)[i] != ' ',
    decreases n,
{
    if n < 10 {
    } else {
        lemma_dec_chars(n / 10);
        let s = spec_dec(n);
        let head = spec_dec(n / 10);
        assert forall|i: int| 0 <= i < s.len() implies s[i] != '\n' && s[i] != ' ' by {
            if i < head.len() {
                assert(s[i] == head[i]);
            } else {
                assert(s[i] == spec_digit(n % 10));
            }
        }
    }
}

/// A number below the `k`-th power of ten needs at most `k` digits.
pub proof fn lemma_dec_len_at_most(n: nat, k: nat)
    requires
        k >= 1,
        n < ten_pow(k),
    ensures
        spec_dec(n).len() <= k,
    decreases n,
{
    if n < 10 {
    } else {
        assert(ten_pow(0nat) == 1);
        assert(ten_pow(1nat) == 10);
        assert(k >= 2);
        vstd::arithmetic::div_mod::lemma_fundamental_div_mod(n as int, 10);
        assert(n / 10 < ten_pow((k - 1) as nat)) by (nonlinear_arith)
            requires
                n < 10 * ten_pow((k - 1) as nat),
                n == 10 * (n / 10) + n % 10,
                0 <= n % 10 < 10,
        ;
        lemma_dec_len_at_most(n / 10, (k - 1) as nat);
    }
}

/// Any value of the machine word type prints in at most twenty digits.
pub proof fn lemma_dec_len_u64(n: nat)
    requires
        n <= u64::MAX,
    ensures
        spec_dec(n).len() <= 20,
{
    assert(ten_pow(0nat) == 1);
    assert(ten_pow(1nat) == 10);
    assert(ten_pow(2nat) == 100);
    assert(ten_pow(3nat) == 1000);
    assert(ten_pow(4nat) == 10000);
    assert(ten_pow(5nat) == 100000);
    assert(ten_pow(6nat) == 1000000);
    assert(ten_pow(7nat) == 10000000);
    assert(ten_pow(8nat) == 100000000);
    assert(ten_pow(9nat) == 1000000000);
    assert(ten_pow(10nat) == 10000000000);
    assert(ten_pow(11nat) == 100000000000);
    assert(ten_pow(12nat) == 1000000000000);
    assert(ten_pow(13nat) == 10000000000000);
    assert(ten_pow(14nat) == 100000000000000);
    assert(ten_pow(15nat) == 1000000000000000);
    assert(ten_pow(16nat) == 10000000000000000);
    assert(ten_pow(17nat) == 100000000000000000);
    assert(ten_pow(18nat) == 1000000000000000000);
    assert(ten_pow(19nat) == 10000000000000000000);
    assert(ten_pow(20nat) == 100000000000000000000);
    lemma_dec_len_at_most(n, 20);
}

/// The one-character string for a single decimal digit.
fn digit_str(d: u64) -> (r: &'static str)
    requires
        d < 10,
    ensures
        r@ == seq![spec_digit(d as nat)],
{
    proof {
        reveal_strlit("0");
        reveal_strlit("1");
        reveal_strlit("2");
        reveal_strlit("3");
        reveal_strlit("4");
        reveal_strlit("5");
        reveal_strlit("6");
        reveal_strlit("7");
        reveal_strlit("8");
        reveal_strlit("9");
    }
    let r: &'static str = match d {
        0 => "0",
        1 => "1",
        2 => "2",
        3 => "3",
        4 => "4",
        5 => "5",
        6 => "6",
        7 => "7",
        8 => "8",
        _ => "9",
    };
    proof {
        assert(r@ =~= seq![spec_digit(d as nat)]);
    }
    r
}

/// The decimal numeral of `n` as an owned string.
pub fn dec_string(n: u64) -> (s: String)
    ensures
        s@ == spec_dec(n as nat),
    decreases n,
{
    if n < 10 {
        let s: String = digit_str(n).to_owned();
        s
    } else {
        let mut s: String = dec_string(n / 10);
        s.append(digit_str(n % 10));
        proof {
            assert(s@ =~= spec_dec(n as nat));
        }
        s
    }
}

} // verus!
