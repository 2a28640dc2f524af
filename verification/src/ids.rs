use vstd::prelude::*;

verus! {

/// The decimal digit character for `d`, where `d < 10`.
pub open spec fn dec_digit(d: nat) -> char {
    if d == 0 {
        '0'
    } else if d == 1 {
        '1'
    } else if d == 2 {
        '2'
    } else if d == 3 {
        '3'
    } else if d == 4 {
        '4'
    } else if d == 5 {
        '5'
    } else if d == 6 {
        '6'
    } else if d == 7 {
        '7'
    } else if d == 8 {
        '8'
    } else {
        '9'
    }
}

/// Decimal rendering of `n`, most significant digit first, no leading zeros.
pub open spec fn dec_seq(n: nat) -> Seq<char>
    decreases n,
{
    if n < 10 {
        seq![dec_digit(n)]
    } else {
        dec_seq(n / 10).push(dec_digit(n % 10))
    }
}

pub proof fn lemma_dec_seq_len(n: nat)
    ensures
        dec_seq(n).len() >= 1,
    decreases n,
{
    if n >= 10 {
        lemma_dec_seq_len(n / 10);
    }
}

proof fn lemma_dec_digit_injective(a: nat, b: nat)
    requires
        a < 10,
        b < 10,
        dec_digit(a) == dec_digit(b),
    ensures
        a == b,
{
}

/// Distinct numbers have distinct decimal renderings.
pub proof fn lemma_dec_seq_injective(a: nat, b: nat)
    requires
        dec_seq(a) == dec_seq(b),
    ensures
        a == b,
    decreases a,
{
    if a < 10 && b < 10 {
        assert(dec_seq(a)[0] == dec_digit(a));
        assert(dec_seq(b)[0] == dec_digit(b));
        lemma_dec_digit_injective(a, b);
    } else if a < 10 && b >= 10 {
        lemma_dec_seq_len(b / 10);
        assert(dec_seq(a).len() == 1);
        assert(dec_seq(b).len() == dec_seq(b / 10).len() + 1);
    } else if a >= 10 && b < 10 {
        lemma_dec_seq_len(a / 10);
        assert(dec_seq(a).len() == dec_seq(a / 10).len() + 1);
        assert(dec_seq(b).len() == 1);
    } else {
        let ra = dec_seq(a / 10);
        let rb = dec_seq(b / 10);
        assert(dec_seq(a).last() == dec_digit(a % 10));
        assert(dec_seq(b).last() == dec_digit(b % 10));
        lemma_dec_digit_injective(a % 10, b % 10);
        assert(ra =~= dec_seq(a).drop_last());
        assert(rb =~= dec_seq(b).drop_last());
        lemma_dec_seq_injective(a / 10, b / 10);
        vstd::arithmetic::div_mod::lemma_fundamental_div_mod(a as int, 10);
        vstd::arithmetic::div_mod::lemma_fundamental_div_mod(b as int, 10);
    }
}

/// The one-character string for the decimal digit `d`.
fn digit_str(d: u64) -> (r: &'static str)
    requires
        d < 10,
    ensures
        r@ =~= seq![dec_digit(d as nat)],
{
    proof {
        reveal_strlit("0");
        reveal_strlit("1");
        reveal_strlit("2");
        reveal_strlit("3");
        reveal_strlit("4");
        reveal_strlit("5");
        reveal_strlit("6");
        reveal_strlit("7");
        reveal_strlit("8");
        reveal_strlit("9");
    }
    match d {
        0 => "0",
        1 => "1",
        2 => "2",
        3 => "3",
        4 => "4",
        5 => "5",
        6 => "6",
        7 => "7",
        8 => "8",
        _ => "9",
    }
}

/// Renders `n` in decimal, the identifier format handed out by the store.
pub fn u64_to_dec(n: u64) -> (s: String)
    ensures
        s@ =~= dec_seq(n as nat),
    decreases n,
{
    if n < 10 {
        String::from_str(digit_str(n))
    } else {
        let mut s = u64_to_dec(n / 10);
        s.append(digit_str(n % 10));
        proof {
            assert(s@ =~= dec_seq((n / 10) as nat).push(dec_digit((n % 10) as nat)));
        }
        s
    }
}

} // verus!
