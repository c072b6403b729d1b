//! Bitcoin Core wallet integration over JSON-RPC.
use vstd::prelude::*;
use vstd::string::*;
use crate::utils::{parse_url, parsed_url};

verus! {

/// User name of the RPC credentials.
pub const RPC_USER: &'static str = "perimeter";

/// Password of the RPC credentials.
pub const RPC_PASSWORD: &'static str = "payEm";

/// The Basic authorization credential sent with every RPC request.
pub const RPC_BASIC_AUTH: &'static str = "cGVyaW1ldGVyOlBheUVt";

/// `serde_json::Value`, carried through unread.
#[verifier::external_type_specification]
#[verifier::external_body]
pub struct ExJsonValue(serde_json::Value);

/// The JSON-RPC protocol version a request declares, as major and minor number.
#[derive(Debug, Clone, Copy, PartialEq, Eq, Structural)]
pub struct RpcVersion {
    pub major: u32,
    pub minor: u32,
}

/// A Bitcoin Core wallet JSON-RPC request.
pub struct WalletRPCRequest {
    pub jsonrpc: RpcVersion,
    pub id: Option<String>,
    pub method: String,
    pub params: Vec<serde_json::Value>,
}

impl WalletRPCRequest {
    /// A JSON-RPC 1.0 request for `method` with `params`, tagged with `id`.
    pub fn new(method: String, params: Vec<serde_json::Value>, id: Option<String>) -> (r:
        WalletRPCRequest)
        ensures
            r.jsonrpc == (RpcVersion { major: 1, minor: 0 }),
            r.method == method,
            r.params == params,
            r.id == id,
    {
        WalletRPCRequest { jsonrpc: RpcVersion { major: 1, minor: 0 }, id, method, params }
    }
}

/// The error part of a JSON-RPC response.
pub struct WalletRPCError {
    pub code: u64,
    pub message: String,
}

/// A Bitcoin Core wallet JSON-RPC response.
pub struct WalletRPCResponse {
    pub result: serde_json::Value,
    pub error: WalletRPCError,
    pub id: Option<String>,
}

/// Connection to the JSON-RPC interface of a Bitcoin Core node.
pub struct BitcoinCoreWallet {
    /// The node's endpoint, as its parsed URL serialises.
    pub node_url: String,
    pub rpc_user: String,
    pub rpc_pass: String,
}

/// `w` is the wallet connection that `BitcoinCoreWallet::new(url)` builds.
pub open spec fn is_wallet_for(w: BitcoinCoreWallet, url: Seq<char>) -> bool {
    &&& parsed_url(url) is Some
    &&& w.node_url@ == parsed_url(url)->0
    &&& w.rpc_user@ == RPC_USER@
    &&& w.rpc_pass@ == RPC_PASSWORD@
}

impl BitcoinCoreWallet {
    /// A connection to the node at `url`, with the built-in RPC credentials.
    /// The URL must parse.
    pub fn new(url: &str) -> (r: BitcoinCoreWallet)
        requires
            parsed_url(url@) is Some,
        ensures
            is_wallet_for(r, url@),
            r.node_url@ == parsed_url(url@)->0,
            r.rpc_user@ == RPC_USER@,
            r.rpc_pass@ == RPC_PASSWORD@,
    {
        let node_url = match parse_url(url) {
            Some(u) => u,
            None => {
                proof {
                    assert(false);
                }
                String::new()
            },
        };
        BitcoinCoreWallet {
            node_url,
            rpc_user: String::from_str(RPC_USER),
            rpc_pass: String::from_str(RPC_PASSWORD),
        }
    }

    /// A connection to the node at `url`, or `None` where the URL does not parse.
    pub fn try_new(url: &str) -> (r: Option<BitcoinCoreWallet>)
        ensures
            r is Some <==> parsed_url(url@) is Some,
            r matches Some(w) ==> is_wallet_for(w, url@),
            r matches Some(w) ==> {
                &&& w.node_url@ == parsed_url(url@)->0
                &&& w.rpc_user@ == RPC_USER@
                &&& w.rpc_pass@ == RPC_PASSWORD@
            },
    {
        match parse_url(url) {
            Some(_) => Some(BitcoinCoreWallet::new(url)),
            None => None,
        }
    }
}

/// Every wallet connection carries the built-in RPC credentials, user
/// "perimeter" with password "payEm", whatever node it is for.
pub proof fn lemma_wallet_credentials(w: BitcoinCoreWallet, url: Seq<char>)
    requires
        is_wallet_for(w, url),
    ensures
        w.rpc_user@ == "perimeter"@,
        w.rpc_pass@ == "payEm"@,
{
}

/// Two wallet connections, to any two nodes, log in with the same credentials;
/// connections to the same node are the same connection.
pub proof fn lemma_wallets_share_credentials(
    w1: BitcoinCoreWallet,
    url1: Seq<char>,
    w2: BitcoinCoreWallet,
    url2: Seq<char>,
)
    requires
        is_wallet_for(w1, url1),
        is_wallet_for(w2, url2),
    ensures
        w1.rpc_user@ == w2.rpc_user@,
        w1.rpc_pass@ == w2.rpc_pass@,
        url1 == url2 ==> w1.node_url@ == w2.node_url@,
{
}

/// The HTTP headers of a JSON-RPC call.
pub struct RpcHeaders {
    /// `Accept: application/json`.
    pub accept_json: bool,
    /// `Content-Type: application/json`.
    pub content_type_json: bool,
    /// `Content-Length`, the body's length in bytes.
    pub content_length: u64,
    /// The credential of `Authorization: Basic`.
    pub authorization_basic: String,
}

/// The headers sent with a JSON-RPC request whose serialised body is `body`.
pub fn json_rpc_headers(body: &str) -> (r: RpcHeaders)
    ensures
        r.accept_json,
        r.content_type_json,
        r.content_length == body.len(),
        r.authorization_basic@ == RPC_BASIC_AUTH@,
{
    let n = body.len();
    RpcHeaders {
        accept_json: true,
        content_type_json: true,
        content_length: n as u64,
        authorization_basic: String::from_str(RPC_BASIC_AUTH),
    }
}

} // verus!
