use vstd::prelude::*;
use crate::text::{decimal, digit_char, push_decimal};

verus! {

/// Satoshis in one bitcoin.
pub const SATS_PER_BTC: u64 = 100_000_000;

/// `n` in exactly `width` decimal digits, with leading zeros.
pub open spec fn fixed_digits(n: nat, width: nat) -> Seq<char>
    decreases width,
{
    if width == 0 {
        Seq::empty()
    } else {
        fixed_digits(n / 10, (width - 1) as nat).push(digit_char(n % 10))
    }
}

/// An amount of satoshis written in bitcoin, with all eight decimals.
pub open spec fn btc_text(sats: nat) -> Seq<char> {
    decimal(sats / 100_000_000) + seq!['.'] + fixed_digits(sats % 100_000_000, 8)
}

fn push_fixed_digits(s: &mut String, n: u64, width: u64)
    ensures
        final(s)@ == old(s)@ + fixed_digits(n as nat, width as nat),
    decreases width,
{
    if width > 0 {
        push_fixed_digits(s, n / 10, width - 1);
        let mut one = String::new();
        push_decimal(&mut one, n % 10);
        s.append(one.as_str());
        proof {
            assert(decimal((n % 10) as nat) == seq![digit_char((n % 10) as nat)]);
            assert(old(s)@ + fixed_digits(n as nat, width as nat) =~= old(s)@ + fixed_digits(
                (n / 10) as nat,
                (width - 1) as nat,
            ) + seq![digit_char((n % 10) as nat)]);
        }
    } else {
        proof {
            assert(old(s)@ + fixed_digits(n as nat, 0) =~= old(s)@);
        }
    }
}

/// The `createrawtransaction` outputs parameter paying `sats` to `address`:
/// `{"address": amount}`, the amount in bitcoin.
pub open spec fn funding_outputs(address: Seq<char>, sats: nat) -> Seq<char> {
    seq!['{', '"'] + address + seq!['"', ':', ' '] + btc_text(sats) + seq!['}']
}

pub fn funding_outputs_param(address: &str, sats: u64) -> (r: String)
    ensures
        r@ == funding_outputs(address@, sats as nat),
{
    let mut r = String::from_str("{\"");
    r.append(address);
    r.append("\": ");
    push_decimal(&mut r, sats / SATS_PER_BTC);
    r.append(".");
    push_fixed_digits(&mut r, sats % SATS_PER_BTC, 8);
    r.append("}");
    proof {
        reveal_strlit("{\"");
        reveal_strlit("\": ");
        reveal_strlit(".");
        reveal_strlit("}");
        assert(r@ =~= funding_outputs(address@, sats as nat));
    }
    r
}

/// The index of the channel's output in a funded transaction with two outputs, given the
/// position of the change output; `None` for any other position.
pub fn funding_output_index(changepos: i64) -> (r: Option<u16>)
    ensures
        changepos == 0 ==> r == Some(1u16),
        changepos == 1 ==> r == Some(0u16),
        changepos != 0 && changepos != 1 ==> r is None,
{
    if changepos == 0 {
        Some(1)
    } else if changepos == 1 {
        Some(0)
    } else {
        None
    }
}

/// Whether the wallet's `signrawtransactionwithwallet` reply allows the funding to go on: its
/// "complete" field must be present and true.
pub fn signing_complete(complete: Option<bool>) -> (r: bool)
    ensures
        r == (complete == Some(true)),
{
    match complete {
        Some(c) => c,
        None => false,
    }
}

} // verus!
