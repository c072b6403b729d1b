//! Request handling of the HTTP API: routing, CORS headers and login.
use vstd::prelude::*;
use vstd::string::*;
use crate::utils::{parsed_url, same_text};
use vstd::utf8::*;
use crate::identity::account::{is_account_for, sha256, Account};
use crate::wallets::bitcoin::{is_wallet_for, BitcoinCoreWallet, RPC_PASSWORD, RPC_USER};

verus! {

/// Secret key that login tokens are signed with.
pub const AUTH_SECRET: &'static str = "some_secret_key___";

/// E-mail accepted at login.
pub const USER_EMAIL: &'static str = "test";

/// Password accepted at login.
pub const USER_PASSWORD: &'static str = "test";

/// Origin of the front-end application, trusted with credentials.
pub const CORS_TRUSTED_ORIGIN: &'static str = "http://localhost:4000";

/// Body of `GET /`.
pub const STATUS_BODY: &'static str = "{\"status\":{\"name\":\"Keep.me API\",\"version\":\"0.1.0\"}}";

/// Body of `GET /account`.
pub const ACCOUNT_BODY: &'static str = "{\"account\":{\"name\":\"admin\"}}";

/// Body of a refused login.
pub const LOGIN_FAILED_BODY: &'static str = "{\"error\" : \"Authorization failed.\"}";

/// Text of a granted login's body before the token.
pub const TOKEN_BODY_PREFIX: &'static str = "{\"token\": \"";

/// Text of a granted login's body after the token.
pub const TOKEN_BODY_SUFFIX: &'static str = "\"}";

/// The login endpoint.
pub const LOGIN_PATH: &'static str = "/api/auth/login";

/// HTTP methods.
#[derive(Debug, Clone, Copy, PartialEq, Eq, Structural)]
pub enum Method {
    Options,
    Get,
    Post,
    Put,
    Delete,
    Head,
    Trace,
    Connect,
    Patch,
    Extension,
}

/// Second factor a user asks for at login.
#[derive(Debug, Clone, Copy, PartialEq, Eq, Structural)]
pub enum TwoFaType {
    Weak,
    Strong,
}

/// Credentials posted to the login endpoint.
pub struct UserLogin {
    pub email: String,
    pub password: String,
    pub two_fa_type: Option<TwoFaType>,
}

/// Value of the `Access-Control-Allow-Origin` header.
pub enum AllowOrigin {
    /// `*`
    Any,
    /// One origin.
    Value(String),
}

/// The headers a response carries.
pub struct ResponseHeaders {
    pub allow_origin: AllowOrigin,
    /// `Content-Type: application/json`.
    pub content_type_json: bool,
    /// `Access-Control-Allow-Credentials: true`.
    pub allow_credentials: bool,
    /// `Access-Control-Allow-Headers`; empty when the header is absent.
    pub allow_headers: Vec<String>,
    /// `Access-Control-Allow-Methods`; empty when the header is absent.
    pub allow_methods: Vec<Method>,
}

/// A response: status code, headers, and the body sent, if one is.
pub struct Response {
    pub status: u16,
    pub headers: ResponseHeaders,
    pub body: Option<String>,
}

/// What the server does with a request.
pub enum Action {
    /// Send this response.
    Respond(Response),
    /// Read the body as `UserLogin` credentials and answer with `login`.
    Login,
}

/// Response headers as values: `origin` is `None` for `*`.
pub struct HeadersView {
    pub origin: Option<Seq<char>>,
    pub content_type_json: bool,
    pub allow_credentials: bool,
    pub allow_headers: Seq<Seq<char>>,
    pub allow_methods: Seq<Method>,
}

/// A response as values.
pub struct ResponseView {
    pub status: u16,
    pub headers: HeadersView,
    pub body: Option<Seq<char>>,
}

/// An action as values.
pub enum ActionView {
    Respond(ResponseView),
    Login,
}

impl View for ResponseHeaders {
    type V = HeadersView;

    open spec fn view(&self) -> HeadersView {
        HeadersView {
            origin: match self.allow_origin {
                AllowOrigin::Any => None,
                AllowOrigin::Value(o) => Some(o@),
            },
            content_type_json: self.content_type_json,
            allow_credentials: self.allow_credentials,
            allow_headers: self.allow_headers@.map_values(|h: String| h@),
            allow_methods: self.allow_methods@,
        }
    }
}

impl View for Response {
    type V = ResponseView;

    open spec fn view(&self) -> ResponseView {
        ResponseView {
            status: self.status,
            headers: self.headers@,
            body: match self.body {
                Some(b) => Some(b@),
                None => None,
            },
        }
    }
}

impl View for Action {
    type V = ActionView;

    open spec fn view(&self) -> ActionView {
        match self {
            Action::Respond(r) => ActionView::Respond(r@),
            Action::Login => ActionView::Login,
        }
    }
}

/// The headers every response starts with: any origin, JSON content.
pub open spec fn base_headers() -> HeadersView {
    HeadersView {
        origin: None,
        content_type_json: true,
        allow_credentials: false,
        allow_headers: Seq::empty(),
        allow_methods: Seq::empty(),
    }
}

/// The headers of a CORS preflight answer for `origin`.
pub open spec fn preflight_headers(origin: Option<Seq<char>>, credentials: bool) -> HeadersView {
    HeadersView {
        origin,
        content_type_json: true,
        allow_credentials: credentials,
        allow_headers: seq!["accept"@, "content-type"@],
        allow_methods: seq![Method::Get, Method::Post],
    }
}

/// `404 Not Found`, with no body.
pub open spec fn not_found() -> ResponseView {
    ResponseView { status: 404, headers: base_headers(), body: None }
}

/// The routing table: what the server does with a request for `path`
/// (`None` where the request URI is not an absolute path).
pub open spec fn route(method: Method, path: Option<Seq<char>>) -> ActionView {
    match path {
        None => ActionView::Respond(not_found()),
        Some(p) => if method == Method::Get && p == "/"@ {
            ActionView::Respond(ResponseView { status: 200, headers: base_headers(), body: Some(STATUS_BODY@) })
        } else if method == Method::Get && p == "/account"@ {
            ActionView::Respond(ResponseView { status: 200, headers: base_headers(), body: Some(ACCOUNT_BODY@) })
        } else if method == Method::Options && p == "/account"@ {
            ActionView::Respond(ResponseView { status: 200, headers: preflight_headers(None, false), body: Some(""@) })
        } else if method == Method::Options && p == LOGIN_PATH@ {
            ActionView::Respond(ResponseView {
                status: 200,
                headers: preflight_headers(Some(CORS_TRUSTED_ORIGIN@), true),
                body: Some(""@),
            })
        } else if method == Method::Post && p == LOGIN_PATH@ {
            ActionView::Login
        } else {
            ActionView::Respond(not_found())
        },
    }
}

/// A granted login: the token in a JSON body, for the trusted origin with credentials.
pub open spec fn login_granted(token: Seq<char>) -> ResponseView {
    ResponseView {
        status: 200,
        headers: HeadersView {
            origin: Some(CORS_TRUSTED_ORIGIN@),
            content_type_json: true,
            allow_credentials: true,
            allow_headers: Seq::empty(),
            allow_methods: Seq::empty(),
        },
        body: Some(TOKEN_BODY_PREFIX@ + token + TOKEN_BODY_SUFFIX@),
    }
}

/// A refused login: `403 Forbidden` with an error body.
pub open spec fn login_refused() -> ResponseView {
    ResponseView { status: 403, headers: base_headers(), body: Some(LOGIN_FAILED_BODY@) }
}

/// `500 Internal Server Error`, with no body: the token could not be made.
pub open spec fn token_failed() -> ResponseView {
    ResponseView { status: 500, headers: base_headers(), body: None }
}

/// The string views of an optional path.
pub open spec fn path_view(path: Option<&str>) -> Option<Seq<char>> {
    match path {
        Some(p) => Some(p@),
        None => None,
    }
}

/// The HS256 JSON Web Token whose header is the default one and whose claims
/// hold only the subject `subject`, signed with `key`.
pub uninterp spec fn hs256_jwt(subject: Seq<char>, key: Seq<u8>) -> Seq<char>;

/// `jwt::SignWithKey::sign_with_key` on `jwt::RegisteredClaims` holding only a
/// subject, with the key `hmac::Hmac::<sha2::Sha256>::new_from_slice(key)`.
/// Claimed: a token comes back, and it is a function of the subject and the key
/// alone, named `hs256_jwt`. Signing succeeds because HMAC accepts keys of any
/// length (`new_from_slice` always returns `Ok`), the header is built from the
/// key's own algorithm, and JSON encoding of these claims cannot fail.
#[verifier::external_body]
fn sign_subject(subject: &str, key: &[u8]) -> (r: Option<String>)
    ensures
        r is Some,
        r matches Some(t) ==> t@ == hs256_jwt(subject@, key@),
{
    let key = match <hmac::Hmac<sha2::Sha256> as hmac::Mac>::new_from_slice(key) {
        Ok(k) => k,
        Err(_) => return None,
    };
    let claims = jwt::RegisteredClaims { subject: Some(subject.to_string()), ..Default::default() };
    jwt::SignWithKey::<String>::sign_with_key(claims, &key).ok()
}

fn base_response(status: u16, body: Option<String>) -> (r: Response)
    ensures
        r@ == (ResponseView {
            status,
            headers: base_headers(),
            body: match body {
                Some(b) => Some(b@),
                None => None,
            },
        }),
{
    let r = Response {
        status,
        headers: ResponseHeaders {
            allow_origin: AllowOrigin::Any,
            content_type_json: true,
            allow_credentials: false,
            allow_headers: Vec::new(),
            allow_methods: Vec::new(),
        },
        body,
    };
    assert(r@.headers.allow_headers =~= Seq::<Seq<char>>::empty());
    assert(r@.headers.allow_methods =~= Seq::<Method>::empty());
    r
}

fn preflight_response(origin: AllowOrigin, credentials: bool) -> (r: Response)
    ensures
        r@ == (ResponseView {
            status: 200,
            headers: preflight_headers(
                match origin {
                    AllowOrigin::Any => None,
                    AllowOrigin::Value(o) => Some(o@),
                },
                credentials,
            ),
            body: Some(""@),
        }),
{
    let mut allow_headers: Vec<String> = Vec::new();
    allow_headers.push(String::from_str("accept"));
    allow_headers.push(String::from_str("content-type"));
    let mut allow_methods: Vec<Method> = Vec::new();
    allow_methods.push(Method::Get);
    allow_methods.push(Method::Post);
    let r = Response {
        status: 200,
        headers: ResponseHeaders {
            allow_origin: origin,
            content_type_json: true,
            allow_credentials: credentials,
            allow_headers,
            allow_methods,
        },
        body: Some(String::from_str("")),
    };
    assert(r@.headers.allow_headers =~= seq!["accept"@, "content-type"@]);
    assert(r@.headers.allow_methods =~= seq![Method::Get, Method::Post]);
    r
}

/// Decides what to do with a request for `path` with `method` (`path` is
/// `None` where the request URI is not an absolute path).
pub fn handle(method: Method, path: Option<&str>) -> (r: Action)
    ensures
        r@ == route(method, path_view(path)),
{
    let p = match path {
        Some(p) => p,
        None => return Action::Respond(base_response(404, None)),
    };
    if method == Method::Get && same_text(p, "/") {
        Action::Respond(base_response(200, Some(String::from_str(STATUS_BODY))))
    } else if method == Method::Get && same_text(p, "/account") {
        Action::Respond(base_response(200, Some(String::from_str(ACCOUNT_BODY))))
    } else if method == Method::Options && same_text(p, "/account") {
        Action::Respond(preflight_response(AllowOrigin::Any, false))
    } else if method == Method::Options && same_text(p, LOGIN_PATH) {
        Action::Respond(
            preflight_response(AllowOrigin::Value(String::from_str(CORS_TRUSTED_ORIGIN)), true),
        )
    } else if method == Method::Post && same_text(p, LOGIN_PATH) {
        Action::Login
    } else {
        Action::Respond(base_response(404, None))
    }
}

/// The answer to a login whose credentials were accepted, given the token
/// signing produced (`None` where it failed).
pub fn token_response(token: Option<String>) -> (r: Response)
    ensures
        r@ == match token {
            Some(t) => login_granted(t@),
            None => token_failed(),
        },
{
    match token {
        Some(t) => {
            let mut body = String::from_str(TOKEN_BODY_PREFIX);
            body.append(t.as_str());
            body.append(TOKEN_BODY_SUFFIX);
            let r = Response {
                status: 200,
                headers: ResponseHeaders {
                    allow_origin: AllowOrigin::Value(String::from_str(CORS_TRUSTED_ORIGIN)),
                    content_type_json: true,
                    allow_credentials: true,
                    allow_headers: Vec::new(),
                    allow_methods: Vec::new(),
                },
                body: Some(body),
            };
            assert(r@.headers.allow_headers =~= Seq::<Seq<char>>::empty());
            assert(r@.headers.allow_methods =~= Seq::<Method>::empty());
            r
        },
        None => base_response(500, None),
    }
}

/// Answers a login: the credentials "test" / "test" get a token signed with
/// `AUTH_SECRET` whose subject is the e-mail; any others are refused.
pub fn login(credentials: &UserLogin) -> (r: Response)
    ensures
        !(credentials.email@ == USER_EMAIL@ && credentials.password@ == USER_PASSWORD@) ==> r@
            == login_refused(),
        (credentials.email@ == USER_EMAIL@ && credentials.password@ == USER_PASSWORD@) ==> r@
            == login_granted(hs256_jwt(credentials.email@, AUTH_SECRET.spec_bytes())),
{
    if same_text(credentials.email.as_str(), USER_EMAIL) && same_text(
        credentials.password.as_str(),
        USER_PASSWORD,
    ) {
        let token = sign_subject(credentials.email.as_str(), AUTH_SECRET.as_bytes());
        token_response(token)
    } else {
        base_response(403, Some(String::from_str(LOGIN_FAILED_BODY)))
    }
}

/// Endpoint of the local Bitcoin Core node's JSON-RPC interface (the node's
/// default RPC port).
pub const BITCOIN_NODE_URL: &'static str = "http://127.0.0.1:8332/";

/// State of the server: where it keeps its data, its administrator account and
/// its connection to the Bitcoin Core node.
pub struct KeepmeCore {
    pub config_dir: String,
    pub admin_account: Account,
    pub btc_wallet: BitcoinCoreWallet,
}

impl KeepmeCore {
    /// The server state for data kept under `config_dir`: the test account as
    /// administrator and a connection to the node at `BITCOIN_NODE_URL`.
    /// `None` where the test account's random key draw is not a valid secret
    /// or the node URL does not parse.
    pub fn new(config_dir: String) -> (r: Option<KeepmeCore>)
        ensures
            parsed_url(BITCOIN_NODE_URL@) is None ==> r is None,
            r is Some <==> parsed_url(BITCOIN_NODE_URL@) is Some,
            r matches Some(k) ==> {
                &&& k.config_dir@ == config_dir@
                &&& exists|secret: Seq<u8>| is_account_for(k.admin_account, "test"@, "test"@, secret)
                &&& is_wallet_for(k.btc_wallet, BITCOIN_NODE_URL@)
            },
            r matches Some(k) ==> {
                &&& k.admin_account.username@ == "test"@
                &&& k.admin_account.password_hash@ == sha256(encode_utf8("test"@))
                &&& k.btc_wallet.node_url@ == parsed_url(BITCOIN_NODE_URL@)->0
                &&& k.btc_wallet.rpc_user@ == RPC_USER@
                &&& k.btc_wallet.rpc_pass@ == RPC_PASSWORD@
            },
    {
        let admin_account = match Account::test() {
            Some(a) => a,
            None => return None,
        };
        let btc_wallet = match BitcoinCoreWallet::try_new(BITCOIN_NODE_URL) {
            Some(w) => w,
            None => return None,
        };
        Some(KeepmeCore { config_dir, admin_account, btc_wallet })
    }
}

/// Every answer the server gives, routed or to a login, declares JSON content.
pub proof fn lemma_answers_are_json(method: Method, path: Option<Seq<char>>, token: Seq<char>)
    ensures
        route(method, path) matches ActionView::Respond(r) ==> r.headers.content_type_json,
        login_granted(token).headers.content_type_json,
        login_refused().headers.content_type_json,
        token_failed().headers.content_type_json,
{
}

/// Credentials are allowed only towards the trusted front-end origin: any
/// answer that allows them names that origin.
pub proof fn lemma_credentials_only_for_trusted_origin(
    method: Method,
    path: Option<Seq<char>>,
    token: Seq<char>,
)
    ensures
        route(method, path) matches ActionView::Respond(r) ==> (r.headers.allow_credentials
            ==> r.headers.origin == Some(CORS_TRUSTED_ORIGIN@)),
        login_granted(token).headers.origin == Some(CORS_TRUSTED_ORIGIN@),
        !login_refused().headers.allow_credentials,
        !token_failed().headers.allow_credentials,
{
}

/// A request body is read only for a login: a `POST` to the login endpoint.
pub proof fn lemma_body_read_only_for_login(method: Method, path: Option<Seq<char>>)
    ensures
        route(method, path) is Login <==> (method == Method::Post && path == Some(LOGIN_PATH@)),
{
}

/// Every CORS preflight that is answered (an `OPTIONS` request answered
/// `200 OK`) allows the methods `GET` and `POST` and the request headers
/// `accept` and `content-type`.
pub proof fn lemma_preflight_allows_get_and_post(method: Method, path: Option<Seq<char>>)
    ensures
        route(method, path) matches ActionView::Respond(r) ==> (method == Method::Options
            && r.status == 200 ==> {
            &&& r.headers.allow_methods == seq![Method::Get, Method::Post]
            &&& r.headers.allow_headers == seq!["accept"@, "content-type"@]
        }),
{
}

/// Every path whose `POST` the server reads as a login has a preflight answer
/// that lets the trusted front end send it: `200 OK`, the trusted origin with
/// credentials, `POST` among the allowed methods and `content-type` among the
/// allowed headers.
pub proof fn lemma_login_preflight_allows_post(path: Option<Seq<char>>)
    ensures
        route(Method::Post, path) is Login ==> route(Method::Options, path) is Respond,
        route(Method::Post, path) is Login ==> {
            let r = route(Method::Options, path)->Respond_0;
            &&& r.status == 200
            &&& r.headers.origin == Some(CORS_TRUSTED_ORIGIN@)
            &&& r.headers.allow_credentials
            &&& r.headers.allow_methods.contains(Method::Post)
            &&& r.headers.allow_headers.contains("content-type"@)
        },
{
    reveal_strlit("/account");
    reveal_strlit("/api/auth/login");
    if route(Method::Post, path) is Login {
        assert(path == Some(LOGIN_PATH@));
        assert(LOGIN_PATH@ == "/api/auth/login"@);
        assert(LOGIN_PATH@.len() != "/account"@.len());
        let r = route(Method::Options, path)->Respond_0;
        assert(r.headers == preflight_headers(Some(CORS_TRUSTED_ORIGIN@), true));
        assert(r.headers.allow_methods[1] == Method::Post);
        assert(r.headers.allow_methods.contains(Method::Post));
        assert(r.headers.allow_headers[1] == "content-type"@);
        assert(r.headers.allow_headers.contains("content-type"@));
    }
}

/// The preflight answer of the login endpoint: `200 OK` for the trusted origin
/// with credentials, allowing `GET` and `POST` with the headers `accept` and
/// `content-type`, and an empty body.
pub proof fn lemma_login_endpoint_preflight()
    ensures
        route(Method::Options, Some(LOGIN_PATH@)) == ActionView::Respond(
            ResponseView {
                status: 200,
                headers: HeadersView {
                    origin: Some(CORS_TRUSTED_ORIGIN@),
                    content_type_json: true,
                    allow_credentials: true,
                    allow_headers: seq!["accept"@, "content-type"@],
                    allow_methods: seq![Method::Get, Method::Post],
                },
                body: Some(""@),
            },
        ),
{
    reveal_strlit("/account");
    reveal_strlit("/api/auth/login");
    assert(LOGIN_PATH@ == "/api/auth/login"@);
    assert(LOGIN_PATH@.len() != "/account"@.len());
}

/// Requests the routing table does not name are answered `404 Not Found`
/// without a body; those it names are answered `200 OK` or read as a login.
pub proof fn lemma_unrouted_not_found(method: Method, path: Option<Seq<char>>)
    ensures
        route(method, path) matches ActionView::Respond(r) ==> (r.status == 200 || r == not_found()),
        route(method, path) matches ActionView::Respond(r) ==> (r.status == 404 <==> !(
        path matches Some(p) && (
            (method == Method::Get && (p == "/"@ || p == "/account"@))
            || (method == Method::Options && (p == "/account"@ || p == LOGIN_PATH@))))),
{
}

} // verus!
