use ln_node_core::commands::{fund_channel, read_fund_line, read_u64_text};
use ln_node_core::log_printer::LogPrinter;
use ln_node_core::protocol::{parse_request, RequestFuncs};

/// The compressed encoding of the secp256k1 generator point: a valid public key.
const KEY: &str = "0279be667ef9dcbbac55a06295ce870b07029bfcdb2dce28d959f2815b16f81798";

#[test]
fn info_commands_parse() {
    assert!(matches!(parse_request("info,addresses"), Ok(RequestFuncs::GetAddresses)));
    assert!(matches!(parse_request("info,node"), Ok(RequestFuncs::GetNodeInfo)));
    match parse_request("info,other") {
        Err(e) => assert_eq!(e.msg, "Invalid Argument"),
        Ok(_) => panic!("expected a refusal"),
    }
}

#[test]
fn peer_commands_parse() {
    match parse_request("peer,connect,abc@1.2.3.4:9735") {
        Ok(RequestFuncs::PeerConnect(node)) => assert_eq!(node, "abc@1.2.3.4:9735"),
        _ => panic!("expected a connect"),
    }
    assert!(matches!(parse_request("peer,list"), Ok(RequestFuncs::PeerList)));
    match parse_request("peer,connect") {
        Err(e) => assert_eq!(e.msg, "Insufficient Arguments"),
        Ok(_) => panic!("expected a refusal"),
    }
}

#[test]
fn channel_commands_parse() {
    match parse_request("channel,create,key,1000,10") {
        Ok(RequestFuncs::ChannelCreate(args)) => assert_eq!(args, vec!["key", "1000", "10"]),
        _ => panic!("expected a create"),
    }
    match parse_request("channel,create,key,1000") {
        Err(e) => assert_eq!(e.msg, "Insufficient Arguments"),
        Ok(_) => panic!("expected a refusal"),
    }
    match parse_request("channel,kill,abcd") {
        Ok(RequestFuncs::ChannelClose(id)) => assert_eq!(id, "abcd"),
        _ => panic!("expected a close"),
    }
    assert!(matches!(parse_request("channel,killall"), Ok(RequestFuncs::ChannelCloseAll)));
    assert!(matches!(parse_request("channel,list"), Ok(RequestFuncs::ChannelList)));
    match parse_request("channel,open") {
        Err(e) => assert_eq!(e.msg, "Invalid Value"),
        Ok(_) => panic!("expected a refusal"),
    }
}

#[test]
fn unknown_or_short_commands_are_refused() {
    match parse_request("wallet,balance") {
        Err(e) => assert_eq!(e.msg, "Invalid Command"),
        Ok(_) => panic!("expected a refusal"),
    }
    match parse_request("info") {
        Err(e) => assert_eq!(e.msg, "Insufficient Arguments"),
        Ok(_) => panic!("expected a refusal"),
    }
    let parsed: Result<RequestFuncs, _> = "peer,list".parse();
    assert!(matches!(parsed, Ok(RequestFuncs::PeerList)));
}

#[test]
fn fund_channel_line_parses() {
    let args = fund_channel(&format!("{} 100000 5000", KEY)).expect("a well-formed line");
    assert_eq!(args.node_id.len(), 33);
    assert_eq!(args.node_id[0], 0x02);
    assert_eq!(args.node_id[1], 0x79);
    assert_eq!(args.node_id[32], 0x98);
    assert_eq!(args.value_sat, 100_000);
    assert_eq!(args.push_msat, 5000);
}

#[test]
fn fund_channel_line_refusals() {
    assert_eq!(fund_channel("02ab 1 2").err().unwrap(), "Bad PubKey for remote node");
    let bad = format!("zz{} 1 2", &KEY[2..]);
    assert_eq!(fund_channel(&bad).err().unwrap(), "Bad PubKey for remote node");
    // hex, but no public key: the prefix byte 0x05 is not a key encoding
    let not_a_key = format!("05{} 1 2", &KEY[2..]);
    assert_eq!(fund_channel(&not_a_key).err().unwrap(), "Bad PubKey for remote node");
    assert_eq!(fund_channel(&format!("{}:1 2", KEY)).err().unwrap(), "Invalid line, should be n pubkey value");
    assert_eq!(fund_channel(&format!("{} 1", KEY)).err().unwrap(), "Couldn't read third argument");
    assert_eq!(
        fund_channel(&format!("{} x 2", KEY)).err().unwrap(),
        "Couldn't parse second argument into a value"
    );
    assert_eq!(
        fund_channel(&format!("{} 1 -2", KEY)).err().unwrap(),
        "Couldn't parse third argument into a push value"
    );
}

#[test]
fn log_filter_drops_debug_and_gossip_noise() {
    let p = LogPrinter {};
    assert!(p.should_print("INFO peer connected"));
    assert!(!p.should_print("DEBUG something"));
    assert!(!p.should_print("x Received message of type 258 from y"));
    assert!(!p.should_print("Received message of type 256"));
    assert!(p.should_print("Received message of type 259"));
    assert!(p.should_print(""));
}

#[test]
fn amounts_may_carry_a_plus_sign() {
    let args = fund_channel(&format!("{} +100000 +0", KEY)).expect("a well-formed line");
    assert_eq!(args.value_sat, 100_000);
    assert_eq!(args.push_msat, 0);
    assert_eq!(
        fund_channel(&format!("{} + 1", KEY)).err().unwrap(),
        "Couldn't parse second argument into a value"
    );
    assert_eq!(read_u64_text("+18446744073709551615"), Some(u64::MAX));
    assert_eq!(read_u64_text("18446744073709551616"), None);
    assert_eq!(read_u64_text("++1"), None);
    assert_eq!(read_u64_text(""), None);
}

#[test]
fn fund_line_follows_the_key_verdict() {
    let line = format!("{} 5 6", KEY);
    let args = read_fund_line(&line, true).expect("accepted key");
    assert_eq!((args.value_sat, args.push_msat), (5, 6));
    assert_eq!(read_fund_line(&line, false).err().unwrap(), "Bad PubKey for remote node");
    // with the verdict given, any 66 hex digits stand as the key
    let other = format!("05{} 7 8", &KEY[2..]);
    let args = read_fund_line(&other, true).expect("accepted key");
    assert_eq!(args.node_id[0], 0x05);
    assert_eq!(read_fund_line(&format!("{}|5 6", KEY), true).err().unwrap(), "Invalid line, should be n pubkey value");
}
