//! Decimal rendering of counts and rates.
//!
//! A rate is kept as the exact pair (member count, total count); its
//! label "NN.NN%" is computed in integer arithmetic from the rate in
//! hundredths of a percent, rounded to nearest with ties rounded up.

use vstd::prelude::*;

verus! {

/// The decimal digit character for `d`.
pub open spec fn spec_digit(d: nat) -> char {
    if d == 0 {
        '0'
    } else if d == 1 {
        '1'
    } else if d == 2 {
        '2'
    } else if d == 3 {
        '3'
    } else if d == 4 {
        '4'
    } else if d == 5 {
        '5'
    } else if d == 6 {
        '6'
    } else if d == 7 {
        '7'
    } else if d == 8 {
        '8'
    } else {
        '9'
    }
}

/// The usual decimal rendering of `n`, most significant digit first,
/// no leading zeros (a lone zero for 0).
pub open spec fn spec_dec(n: nat) -> Seq<char>
    decreases n,
{
    if n < 10 {
        seq![spec_digit(n)]
    } else {
        spec_dec(n / 10).push(spec_digit(n % 10))
    }
}

/// `member / total` in hundredths of a percent, rounded to nearest
/// (ties up); 0 when `total` is 0.
pub open spec fn spec_rate_bp(member: nat, total: nat) -> nat {
    if total == 0 {
        0
    } else {
        (member * 10000 + total / 2) / total
    }
}

/// The "NN.NN%" label of the rate `member / total`.
pub open spec fn spec_rate_label(member: nat, total: nat) -> Seq<char> {
    spec_label_of_bp(spec_rate_bp(member, total))
}

/// The "NN.NN%" label of a rate given in hundredths of a percent.
pub open spec fn spec_label_of_bp(bp: nat) -> Seq<char> {
    spec_dec(bp / 100) + seq!['.'] + seq![spec_digit((bp % 100) / 10)] + seq![
        spec_digit(bp % 10),
    ] + seq!['%']
}

/// A one-character string for the decimal digit `d`.
fn digit_str(d: u64) -> (r: &'static str)
    requires
        d < 10,
    ensures
        r@ == seq![spec_digit(d as nat)],
{
    proof {
        reveal_strlit("0");
        reveal_strlit("1");
        reveal_strlit("2");
        reveal_strlit("3");
        reveal_strlit("4");
        reveal_strlit("5");
        reveal_strlit("6");
        reveal_strlit("7");
        reveal_strlit("8");
        reveal_strlit("9");
    }
    let r = match d {
        0 => "0",
        1 => "1",
        2 => "2",
        3 => "3",
        4 => "4",
        5 => "5",
        6 => "6",
        7 => "7",
        8 => "8",
        _ => "9",
    };
    proof {
        assert(r@ =~= seq![spec_digit(d as nat)]);
    }
    r
}

/// Renders `n` in decimal.
pub fn u64_to_dec(n: u64) -> (s: String)
    ensures
        s@ == spec_dec(n as nat),
    decreases n,
{
    if n < 10 {
        digit_str(n).to_owned()
    } else {
        let mut s = u64_to_dec(n / 10);
        s.append(digit_str(n % 10));
        proof {
            assert(s@ =~= spec_dec(n as nat));
        }
        s
    }
}

/// `member / total` in hundredths of a percent, rounded to nearest
/// (ties up); 0 when `total` is 0.
pub fn rate_basis_points(member: u64, total: u64) -> (bp: u64)
    requires
        member <= total,
    ensures
        bp == spec_rate_bp(member as nat, total as nat),
        bp <= 10000,
{
    if total == 0 {
        0
    } else {
        let wide: u128 = (member as u128) * 10000 + (total as u128) / 2;
        let q: u128 = wide / (total as u128);
        proof {
            lemma_bp_bound(member as nat, total as nat);
        }
        q as u64
    }
}

/// The rounded rate never exceeds 100% while `member <= total`.
pub proof fn lemma_bp_bound(member: nat, total: nat)
    requires
        member <= total,
        total > 0,
    ensures
        (member * 10000 + total / 2) / total <= 10000,
{
    assert(member * 10000 <= total * 10000) by (nonlinear_arith)
        requires
            member <= total,
    ;
    assert(total * 10000 + total / 2 < total * 10001) by (nonlinear_arith)
        requires
            total > 0,
    ;
    assert((member * 10000 + total / 2) / total < 10001) by (nonlinear_arith)
        requires
            total > 0,
            member * 10000 + total / 2 < total * 10001,
    ;
}

/// Renders the rate `member / total` as "NN.NN%".
pub fn format_rate_label(member: u64, total: u64) -> (s: String)
    requires
        member <= total,
    ensures
        s@ == spec_rate_label(member as nat, total as nat),
{
    proof {
        reveal_strlit(".");
        reveal_strlit("%");
    }
    let bp = rate_basis_points(member, total);
    let mut s = u64_to_dec(bp / 100);
    s.append(".");
    s.append(digit_str((bp % 100) / 10));
    s.append(digit_str(bp % 10));
    s.append("%");
    proof {
        assert(s@ =~= spec_rate_label(member as nat, total as nat));
    }
    s
}

} // verus!
