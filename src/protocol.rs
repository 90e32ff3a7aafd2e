use vstd::prelude::*;
use crate::text::{fields, split_fields, views};

verus! {

/// A command sent to the node.
#[derive(Debug, PartialEq)]
pub enum RequestFuncs {
    DisplayHelp,
    GetAddresses,
    GetNodeInfo,
    PeerConnect(String),
    ChannelCreate(Vec<String>),
    ChannelClose(String),
    ChannelCloseAll,
    ChannelList,
    InvoiceCreate(String),
    PeerList,
}

/// The node's answer to a command.
#[derive(Debug, PartialEq)]
pub enum ResponseFuncs {
    DisplayHelp(String),
    GetAddresses(Vec<String>),
    GetNodeInfo(String),
    PeerConnect,
    ChannelCreate,
    ChannelClose,
    ChannelCloseAll,
    ChannelList,
    PeerList(Vec<String>),
    InvoiceCreate(String),
    Error(String),
}

/// What travels between the command client and the node.
#[derive(Debug, PartialEq)]
pub enum Message {
    Request(RequestFuncs),
    Response(ResponseFuncs),
}

/// Why a command line was refused.
#[derive(Debug, PartialEq)]
pub struct ProtocalParseError {
    pub msg: String,
}

/// The refusal message for the fields of a command line, or `None` when they form a command.
pub open spec fn parse_refusal(f: Seq<Seq<char>>) -> Option<Seq<char>> {
    if f.len() < 2 {
        Some("Insufficient Arguments"@)
    } else if f[0] == "info"@ {
        if f[1] == "addresses"@ || f[1] == "node"@ { None } else { Some("Invalid Argument"@) }
    } else if f[0] == "peer"@ {
        if f[1] == "connect"@ {
            if f.len() < 3 { Some("Insufficient Arguments"@) } else { None }
        } else if f[1] == "list"@ {
            None
        } else {
            Some("Invalid Argument"@)
        }
    } else if f[0] == "channel"@ {
        if f[1] == "create"@ {
            if f.len() != 5 { Some("Insufficient Arguments"@) } else { None }
        } else if f[1] == "kill"@ {
            if f.len() != 3 { Some("Insufficient Arguments"@) } else { None }
        } else if f[1] == "killall"@ || f[1] == "list"@ {
            None
        } else {
            Some("Invalid Value"@)
        }
    } else {
        Some("Invalid Command"@)
    }
}

/// Whether `r` is the command that the fields `f` spell (when `parse_refusal(f)` is `None`).
pub open spec fn parses_to(f: Seq<Seq<char>>, r: RequestFuncs) -> bool {
    if f[0] == "info"@ {
        if f[1] == "addresses"@ { r is GetAddresses } else { r is GetNodeInfo }
    } else if f[0] == "peer"@ {
        if f[1] == "connect"@ {
            r is PeerConnect && r->PeerConnect_0@ == f[2]
        } else {
            r is PeerList
        }
    } else if f[1] == "create"@ {
        r is ChannelCreate && views(r->ChannelCreate_0@) == f.subrange(2, 5)
    } else if f[1] == "kill"@ {
        r is ChannelClose && r->ChannelClose_0@ == f[2]
    } else if f[1] == "killall"@ {
        r is ChannelCloseAll
    } else {
        r is ChannelList
    }
}

fn is_word(field: &String, word: &str) -> (r: bool)
    ensures
        r == (field@ == word@),
{
    *field == String::from_str(word)
}

fn refusal(msg: &str) -> (r: Result<RequestFuncs, ProtocalParseError>)
    ensures
        r is Err && r->Err_0.msg@ == msg@,
{
    Err(ProtocalParseError { msg: String::from_str(msg) })
}

/// Reads a command line: comma-separated fields, a command and a subcommand first.
pub fn parse_request(s: &str) -> (r: Result<RequestFuncs, ProtocalParseError>)
    ensures
        parse_refusal(fields(s@, ',')) is Some ==> r is Err && r->Err_0.msg@ == parse_refusal(
            fields(s@, ','),
        )->0,
        parse_refusal(fields(s@, ',')) is None ==> r is Ok && parses_to(fields(s@, ','), r->Ok_0),
{
    let f = split_fields(s, ',');
    let ghost fs = fields(s@, ',');
    assert(forall|k: int| 0 <= k < f@.len() ==> f@[k]@ == #[trigger] fs[k]);
    if f.len() < 2 {
        return refusal("Insufficient Arguments");
    }
    if is_word(&f[0], "info") {
        if is_word(&f[1], "addresses") {
            Ok(RequestFuncs::GetAddresses)
        } else if is_word(&f[1], "node") {
            Ok(RequestFuncs::GetNodeInfo)
        } else {
            refusal("Invalid Argument")
        }
    } else if is_word(&f[0], "peer") {
        if is_word(&f[1], "connect") {
            if f.len() < 3 {
                return refusal("Insufficient Arguments");
            }
            Ok(RequestFuncs::PeerConnect(f[2].clone()))
        } else if is_word(&f[1], "list") {
            Ok(RequestFuncs::PeerList)
        } else {
            refusal("Invalid Argument")
        }
    } else if is_word(&f[0], "channel") {
        if is_word(&f[1], "create") {
            if f.len() != 5 {
                return refusal("Insufficient Arguments");
            }
            let args = vec![f[2].clone(), f[3].clone(), f[4].clone()];
            proof {
                assert(views(args@) =~= fs.subrange(2, 5));
            }
            Ok(RequestFuncs::ChannelCreate(args))
        } else if is_word(&f[1], "kill") {
            if f.len() != 3 {
                return refusal("Insufficient Arguments");
            }
            Ok(RequestFuncs::ChannelClose(f[2].clone()))
        } else if is_word(&f[1], "killall") {
            Ok(RequestFuncs::ChannelCloseAll)
        } else if is_word(&f[1], "list") {
            Ok(RequestFuncs::ChannelList)
        } else {
            refusal("Invalid Value")
        }
    } else {
        refusal("Invalid Command")
    }
}

impl std::str::FromStr for RequestFuncs {
    type Err = ProtocalParseError;

    fn from_str(s: &str) -> Result<RequestFuncs, ProtocalParseError> {
        parse_request(s)
    }
}

} // verus!
