//! Where an identifier's files live: a relative path made of the first three
//! 32-bit words of the identifier, in decimal.
use vstd::prelude::*;
use vstd::string::StringExecFns;

verus! {

pub open spec fn digit_char(d: nat) -> char {
    if d == 0 {
        '0'
    } else if d == 1 {
        '1'
    } else if d == 2 {
        '2'
    } else if d == 3 {
        '3'
    } else if d == 4 {
        '4'
    } else if d == 5 {
        '5'
    } else if d == 6 {
        '6'
    } else if d == 7 {
        '7'
    } else if d == 8 {
        '8'
    } else {
        '9'
    }
}

/// The decimal digits of `n`, most significant first, without leading zeros.
pub open spec fn decimal(n: nat) -> Seq<char>
    decreases n,
{
    if n < 10 {
        seq![digit_char(n)]
    } else {
        decimal(n / 10).push(digit_char(n % 10))
    }
}

/// The `i`-th 32-bit word of `val`, counting from the most significant.
pub open spec fn word(val: u128, i: nat) -> u32 {
    if i == 0 {
        (val / 0x1_0000_0000_0000_0000_0000_0000) as u32
    } else if i == 1 {
        ((val / 0x1_0000_0000_0000_0000) % 0x1_0000_0000) as u32
    } else if i == 2 {
        ((val / 0x1_0000_0000) % 0x1_0000_0000) as u32
    } else {
        (val % 0x1_0000_0000) as u32
    }
}

/// Relies on `u32`'s `Display`, through `ToString::to_string`: the number in
/// base ten, without sign or leading zeros.
#[verifier::external_body]
fn decimal_string(n: u32) -> (r: String)
    ensures
        r@ == decimal(n as nat),
{
    n.to_string()
}

/// The relative path of an identifier's files: its first three 32-bit words
/// in decimal, separated by `/`.
pub fn uuid_path(val: &u128) -> (r: Option<String>)
    ensures
        r matches Some(s) && s@ == decimal(word(*val, 0) as nat) + seq!['/'] + decimal(
            word(*val, 1) as nat,
        ) + seq!['/'] + decimal(word(*val, 2) as nat),
{
    let v = *val;
    let w0 = (v / 0x1_0000_0000_0000_0000_0000_0000) as u32;
    let w1 = ((v / 0x1_0000_0000_0000_0000) % 0x1_0000_0000) as u32;
    let w2 = ((v / 0x1_0000_0000) % 0x1_0000_0000) as u32;
    let mut s = decimal_string(w0);
    proof {
        reveal_strlit("/");
    }
    s.append("/");
    let s1 = decimal_string(w1);
    s.append(s1.as_str());
    s.append("/");
    let s2 = decimal_string(w2);
    s.append(s2.as_str());
    Some(s)
}

} // verus!
