use keepme::wallets::bitcoin::{
    json_rpc_headers, BitcoinCoreWallet, RpcVersion, WalletRPCError, WalletRPCRequest,
    WalletRPCResponse, RPC_BASIC_AUTH,
};
use serde_json::Value;

#[test]
fn request_is_json_rpc_1_0() {
    let params = vec![Value::from(6), Value::String("label".to_string())];
    let r = WalletRPCRequest::new("getnewaddress".to_string(), params.clone(), Some("1".to_string()));
    assert_eq!(r.jsonrpc, RpcVersion { major: 1, minor: 0 });
    assert_eq!(r.method, "getnewaddress");
    assert_eq!(r.params, params);
    assert_eq!(r.id.as_deref(), Some("1"));
}

#[test]
fn wallet_parses_url_and_uses_built_in_credentials() {
    let w = BitcoinCoreWallet::new("http://127.0.0.1:8332");
    assert_eq!(w.node_url, "http://127.0.0.1:8332/");
    assert_eq!(w.rpc_user, "perimeter");
    assert_eq!(w.rpc_pass, "payEm");
    let w = BitcoinCoreWallet::try_new("HTTPS://Node.Example:443/rpc").unwrap();
    assert_eq!(w.node_url, "https://node.example/rpc");
}

#[test]
fn wallet_refuses_bad_url() {
    assert!(BitcoinCoreWallet::try_new("not a url").is_none());
    assert!(BitcoinCoreWallet::try_new("").is_none());
    assert!(BitcoinCoreWallet::try_new("http://").is_none());
}

#[test]
fn rpc_headers() {
    let h = json_rpc_headers("{\"method\":\"getinfo\"}");
    assert!(h.accept_json && h.content_type_json);
    assert_eq!(h.content_length, 20);
    assert_eq!(h.authorization_basic, RPC_BASIC_AUTH);
    assert_eq!(h.authorization_basic, "cGVyaW1ldGVyOlBheUVt");
    assert_eq!(json_rpc_headers("é").content_length, 2);
}

#[test]
fn response_and_error_hold_their_fields() {
    let e = WalletRPCError { code: 7, message: "bad".to_string() };
    let r = WalletRPCResponse { result: Value::Null, error: e, id: None };
    assert_eq!(r.error.code, 7);
    assert_eq!(r.result, Value::Null);
}
