use vstd::prelude::*;
use crate::text::{all_digits, decimal_value, fields, hex_bytes, hex_decode, hex_value_exec, is_hex_char, read_decimal, split_fields};

verus! {

/// Whether secp256k1 accepts `bytes` as a serialized public key.
pub uninterp spec fn secp_accepts(bytes: Seq<u8>) -> bool;

/// Relies on `secp256k1::PublicKey::from_slice`: whether libsecp256k1 parses the bytes as a
/// public key. It depends on the bytes alone and does not panic. Its parser refuses any
/// length but 33 (compressed, tag 2 or 3) and 65 (tag 4, 6 or 7), and any other tag.
#[verifier::external_body]
fn pubkey_parses(bytes: &Vec<u8>) -> (r: bool)
    ensures
        r == secp_accepts(bytes@),
        bytes@.len() != 33 && bytes@.len() != 65 ==> !r,
        bytes@.len() == 33 && bytes@[0] != 2 && bytes@[0] != 3 ==> !r,
        bytes@.len() == 65 && bytes@[0] != 4 && bytes@[0] != 6 && bytes@[0] != 7 ==> !r,
{
    secp256k1::PublicKey::from_slice(bytes).is_ok()
}

/// Hex digits in a compressed public key.
pub const NODE_ID_HEX_LEN: usize = 66;

/// What opening a channel asks for: the peer's node id (a compressed public key, 33 bytes),
/// the channel value in satoshis and the amount pushed to the peer.
pub struct FundChannelArgs {
    pub node_id: Vec<u8>,
    pub value_sat: u64,
    pub push_msat: u64,
}

/// The arguments after the node id, separated by single spaces.
pub open spec fn fund_args(line: Seq<char>) -> Seq<Seq<char>> {
    fields(line.subrange(67, line.len() as int), ' ')
}

/// The digits of an unsigned number written with an optional leading '+'.
pub open spec fn unsigned_digits(s: Seq<char>) -> Seq<char> {
    if s.len() > 0 && s[0] == '+' { s.drop_first() } else { s }
}

/// Whether `s` is an unsigned number that fits in 64 bits: an optional '+', then digits.
pub open spec fn is_u64_text(s: Seq<char>) -> bool {
    all_digits(unsigned_digits(s)) && decimal_value(unsigned_digits(s)) <= u64::MAX
}

/// The number that `s` writes (when `is_u64_text(s)`).
pub open spec fn u64_value(s: Seq<char>) -> nat {
    decimal_value(unsigned_digits(s))
}

/// Whether the line starts with 66 hexadecimal digits.
pub open spec fn has_node_id_hex(line: Seq<char>) -> bool {
    line.len() >= 66 && forall|i: int| 0 <= i < 66 ==> is_hex_char(#[trigger] line[i])
}

/// The refusal for a `pubkey value push` line, given whether its node id is a valid public
/// key, or `None` when the line is well formed.
pub open spec fn fund_refusal_given(line: Seq<char>, key_ok: bool) -> Option<Seq<char>> {
    if !has_node_id_hex(line) || !key_ok {
        Some("Bad PubKey for remote node"@)
    } else if line.len() == 66 || line[66] != ' ' {
        Some("Invalid line, should be n pubkey value"@)
    } else if fund_args(line).len() < 2 {
        Some("Couldn't read third argument"@)
    } else if !is_u64_text(fund_args(line)[0]) {
        Some("Couldn't parse second argument into a value"@)
    } else if !is_u64_text(fund_args(line)[1]) {
        Some("Couldn't parse third argument into a push value"@)
    } else {
        None
    }
}

/// The refusal for a `pubkey value push` line, or `None` when it is well formed.
pub open spec fn fund_refusal(line: Seq<char>) -> Option<Seq<char>> {
    fund_refusal_given(
        line,
        has_node_id_hex(line) && secp_accepts(hex_bytes(line.subrange(0, 66))),
    )
}

/// Reads an unsigned 64-bit number written as an optional '+' and decimal digits.
pub fn read_u64_text(s: &str) -> (r: Option<u64>)
    ensures
        r is Some <==> is_u64_text(s@),
        r is Some ==> r->0 == u64_value(s@),
{
    let len = s.unicode_len();
    if len > 0 && s.get_char(0) == '+' {
        proof {
            assert(s@.subrange(1, len as int) =~= s@.drop_first());
        }
        read_decimal(s, 1, len, u64::MAX)
    } else {
        proof {
            assert(s@.subrange(0, len as int) =~= s@);
        }
        read_decimal(s, 0, len, u64::MAX)
    }
}

/// Reads a `pubkey value push` line, `key_ok` saying whether its node id (the first 66 hex
/// digits) is a valid public key: a space, then the channel value and the pushed amount
/// separated by a space.
pub fn read_fund_line(line: &str, key_ok: bool) -> (r: Result<FundChannelArgs, String>)
    ensures
        fund_refusal_given(line@, key_ok) is Some ==> r is Err
            && r->Err_0@ == fund_refusal_given(line@, key_ok)->0,
        fund_refusal_given(line@, key_ok) is None ==> r is Ok && ({
            let a = r->Ok_0;
            &&& a.node_id@ == hex_bytes(line@.subrange(0, 66))
            &&& a.value_sat == u64_value(fund_args(line@)[0])
            &&& a.push_msat == u64_value(fund_args(line@)[1])
        }),
{
    let len = line.unicode_len();
    if len < NODE_ID_HEX_LEN {
        return Err(String::from_str("Bad PubKey for remote node"));
    }
    let mut node_id: Vec<u8> = Vec::new();
    let mut i: usize = 0;
    while i < 33
        invariant
            i <= 33,
            len == line@.len(),
            len >= 66,
            forall|k: int| 0 <= k < 2 * i ==> is_hex_char(#[trigger] line@[k]),
            node_id@ =~= hex_bytes(line@.subrange(0, 66)).subrange(0, i as int),
        decreases 33 - i,
    {
        let hi = line.get_char(2 * i);
        let lo = line.get_char(2 * i + 1);
        if !(('0' <= hi && hi <= '9') || ('a' <= hi && hi <= 'f') || ('A' <= hi && hi <= 'F'))
            || !(('0' <= lo && lo <= '9') || ('a' <= lo && lo <= 'f') || ('A' <= lo && lo <= 'F')) {
            return Err(String::from_str("Bad PubKey for remote node"));
        }
        let byte = hex_value_exec(hi) * 16 + hex_value_exec(lo);
        node_id.push(byte);
        proof {
            assert forall|k: int| 0 <= k < 2 * i + 2 implies is_hex_char(#[trigger] line@[k]) by {
                if k == 2 * i {
                } else if k == 2 * i + 1 {
                }
            }
        }
        i = i + 1;
    }
    proof {
        assert(hex_bytes(line@.subrange(0, 66)).subrange(0, 33) =~= hex_bytes(line@.subrange(0, 66)));
    }
    if !key_ok {
        return Err(String::from_str("Bad PubKey for remote node"));
    }
    if len == NODE_ID_HEX_LEN || line.get_char(66) != ' ' {
        return Err(String::from_str("Invalid line, should be n pubkey value"));
    }
    let rest = line.substring_char(67, len);
    let args = split_fields(rest, ' ');
    assert(forall|k: int| 0 <= k < args@.len() ==> args@[k]@ == #[trigger] fund_args(line@)[k]);
    if args.len() < 2 {
        return Err(String::from_str("Couldn't read third argument"));
    }
    let value_sat = match read_u64_text(args[0].as_str()) {
        Some(v) => v,
        None => {
            return Err(String::from_str("Couldn't parse second argument into a value"));
        },
    };
    let push_msat = match read_u64_text(args[1].as_str()) {
        Some(v) => v,
        None => {
            return Err(String::from_str("Couldn't parse third argument into a push value"));
        },
    };
    Ok(FundChannelArgs { node_id, value_sat, push_msat })
}

/// Reads a `pubkey value push` line: the peer's node id in 66 hex digits, a valid public key,
/// a space, then the channel value and the pushed amount separated by a space.
pub fn fund_channel(line: &str) -> (r: Result<FundChannelArgs, String>)
    ensures
        fund_refusal(line@) is Some ==> r is Err && r->Err_0@ == fund_refusal(line@)->0,
        fund_refusal(line@) is None ==> r is Ok && ({
            let a = r->Ok_0;
            &&& a.node_id@ == hex_bytes(line@.subrange(0, 66))
            &&& a.value_sat == u64_value(fund_args(line@)[0])
            &&& a.push_msat == u64_value(fund_args(line@)[1])
        }),
{
    let len = line.unicode_len();
    let mut key_ok = false;
    if len >= NODE_ID_HEX_LEN {
        let hex = line.substring_char(0, NODE_ID_HEX_LEN);
        match hex_decode(hex) {
            Some(bytes) => {
                key_ok = pubkey_parses(&bytes);
            },
            None => {},
        }
    }
    proof {
        let key = has_node_id_hex(line@) && secp_accepts(hex_bytes(line@.subrange(0, 66)));
        if has_node_id_hex(line@) {
            assert forall|i: int| 0 <= i < 66 implies is_hex_char(#[trigger] line@.subrange(0, 66)[i]) by {
                assert(line@.subrange(0, 66)[i] == line@[i]);
            }
        }
        assert(!key ==> fund_refusal_given(line@, key_ok) == fund_refusal_given(line@, key));
    }
    read_fund_line(line, key_ok)
}

/// Channel commands, answered by the node.
pub trait ChannelC {
    fn fund_channel(&self, line: Vec<String>) -> Result<String, String>;

    fn close(&self, line: String) -> Result<String, String>;

    fn force_close_all(&self);

    fn channel_list(&self) -> Vec<String>;
}

/// Invoice commands, answered by the node.
pub trait InvoiceC {
    fn pay(&self, args: Vec<String>) -> Result<(), String>;

    fn create_invoice(&self, line: String) -> Result<String, String>;
}

/// Peer commands, answered by the node.
pub trait PeerC {
    fn connect(&self, node: String);

    fn list(&self) -> Vec<String>;
}

/// A component restored from what was persisted, with arguments of type `R`.
pub trait Restorable<R, T> {
    fn try_restore(args: R) -> T;
}

/// The front of the command board: commands reach the node through it.
pub struct Commander {}

} // verus!
