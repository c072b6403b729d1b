//! User accounts and the key pairs that identify them.
use vstd::prelude::*;
use vstd::utf8::*;

verus! {

/// The order of the secp256k1 group: a secret key is a non-zero scalar below it.
pub open spec fn secp256k1_order() -> nat {
    0xFFFF_FFFF_FFFF_FFFF_FFFF_FFFF_FFFF_FFFE_BAAE_DCE6_AF48_A03B_BFD2_5E8C_D036_4141nat
}

/// The number that `bytes` spell in big-endian order.
pub open spec fn be_value(bytes: Seq<u8>) -> nat
    decreases bytes.len(),
{
    if bytes.len() == 0 {
        0
    } else {
        be_value(bytes.drop_last()) * 256 + bytes.last() as nat
    }
}

/// `256` to the power `n`.
pub open spec fn pow256(n: nat) -> nat
    decreases n,
{
    if n == 0 {
        1
    } else {
        pow256((n - 1) as nat) * 256
    }
}

/// `len` bytes spell a number below `256^len`.
proof fn lemma_be_value_bound(bytes: Seq<u8>)
    ensures
        be_value(bytes) < pow256(bytes.len()),
    decreases bytes.len(),
{
    if bytes.len() > 0 {
        let d = bytes.drop_last();
        lemma_be_value_bound(d);
        let v = be_value(d);
        let p = pow256(d.len());
        let l = bytes.last() as nat;
        assert(v * 256 + l < p * 256) by (nonlinear_arith)
            requires
                v < p,
                l < 256,
        ;
    }
}

/// A leading zero byte does not change the number.
proof fn lemma_be_value_leading_zero(bytes: Seq<u8>)
    requires
        bytes.len() > 0,
        bytes[0] == 0,
    ensures
        be_value(bytes) == be_value(bytes.drop_first()),
    decreases bytes.len(),
{
    if bytes.len() == 1 {
        assert(bytes.drop_first() =~= Seq::<u8>::empty());
        assert(bytes.drop_last() =~= Seq::<u8>::empty());
    } else {
        let d = bytes.drop_last();
        lemma_be_value_leading_zero(d);
        assert(d.drop_first() =~= bytes.drop_first().drop_last());
        assert(bytes.drop_first().last() == bytes.last());
    }
}

/// 32 bytes that begin with a zero byte and end with a non-zero one form a
/// valid secp256k1 secret key.
proof fn lemma_small_secret_valid(bytes: Seq<u8>)
    requires
        bytes.len() == 32,
        bytes[0] == 0,
        bytes[31] != 0,
    ensures
        valid_secret_key(bytes),
{
    assert(bytes.last() == bytes[31]);
    lemma_be_value_leading_zero(bytes);
    lemma_be_value_bound(bytes.drop_first());
    assert(pow256(31) == 0x1_0000_0000_0000_0000_0000_0000_0000_0000_0000_0000_0000_0000_0000_0000_0000_0000nat / 256) by {
        reveal_with_fuel(pow256, 32);
    }
}

/// A secp256k1 secret key: 32 bytes whose big-endian value is in `1 .. order`.
pub open spec fn valid_secret_key(secret: Seq<u8>) -> bool {
    &&& secret.len() == 32
    &&& 0 < be_value(secret)
    &&& be_value(secret) < secp256k1_order()
}

/// The uncompressed secp256k1 public key (the 64 bytes of the point, without
/// the leading tag byte) of a secret key.
pub uninterp spec fn secp256k1_public_key(secret: Seq<u8>) -> Seq<u8>;

/// The Ethereum address of a public key: the last 20 bytes of its Keccak-256 hash.
pub uninterp spec fn ethereum_address(public: Seq<u8>) -> Seq<u8>;

/// The SHA-256 digest of `data`.
pub uninterp spec fn sha256(data: Seq<u8>) -> Seq<u8>;

/// `sha2::Sha256::digest`: the SHA-256 digest of `data`. Claimed: the digest is
/// a function of the data alone, named `sha256`, and is 32 bytes long (the
/// output size of `Sha256`).
#[verifier::external_body]
fn sha256_digest(data: &[u8]) -> (r: Vec<u8>)
    ensures
        r@ == sha256(data@),
        r@.len() == 32,
{
    <sha2::Sha256 as sha2::Digest>::digest(data).to_vec()
}

/// `rand::random::<[u8; 32]>()`: 32 bytes from the thread-local random
/// generator. Only their number is claimed.
#[verifier::external_body]
fn random_secret() -> (r: Vec<u8>)
    ensures
        r@.len() == 32,
{
    rand::random::<[u8; 32]>().to_vec()
}

/// `ethkey::SecretKey::from_raw`, then `SecretKey::public`, `PublicKey::bytes`
/// and `PublicKey::address`. Claimed: the secret is accepted exactly when it is
/// a valid secp256k1 secret key (its length is 32 and `secp256k1_ec_seckey_verify`
/// holds of it); the public key is then the 64-byte point of that secret and
/// the address the 20 bytes that `ethsign` derives from the public key.
#[verifier::external_body]
fn derive_key_pair(secret: &[u8]) -> (r: Option<(Vec<u8>, Vec<u8>)>)
    ensures
        r is Some <==> valid_secret_key(secret@),
        r matches Some(p) ==> {
            &&& p.0@ == secp256k1_public_key(secret@)
            &&& p.1@ == ethereum_address(p.0@)
            &&& p.0@.len() == 64
            &&& p.1@.len() == 20
        },
{
    match ethkey::SecretKey::from_raw(secret) {
        Ok(key) => {
            let public = key.public();
            Some((public.bytes().to_vec(), public.address().to_vec()))
        },
        Err(_) => None,
    }
}

/// A user account and the public part of its identity.
pub struct Account {
    /// Public key that identifies the account (64 bytes).
    pub master_key: Vec<u8>,
    /// Name used to log in.
    pub username: String,
    /// Password hash used for basic authentication (32 bytes).
    pub password_hash: Vec<u8>,
    /// Address for weak authorization by e-mail.
    pub email: Option<String>,
    /// Ethereum address of the master key.
    pub ethereum_address: Option<Vec<u8>>,
}

/// The secret part of an account, from which it can be recreated.
pub struct AccountSecret {
    /// The secp256k1 secret key (32 bytes).
    pub master_private_key: Vec<u8>,
}

/// `a` is the account that `Account::new` builds for `username` and `password`
/// around the key pair of `secret`.
pub open spec fn is_account_for(
    a: Account,
    username: Seq<char>,
    password: Seq<char>,
    secret: Seq<u8>,
) -> bool {
    &&& valid_secret_key(secret)
    &&& a.username@ == username
    &&& a.password_hash@ == sha256(encode_utf8(password))
    &&& a.password_hash@.len() == 32
    &&& a.email is None
    &&& a.master_key@ == secp256k1_public_key(secret)
    &&& a.master_key@.len() == 64
    &&& a.ethereum_address matches Some(addr) && addr@ == ethereum_address(a.master_key@)
        && addr@.len() == 20
}

/// An account built for a user keeps what it was built from: the user name
/// unchanged, the SHA-256 hash of the password's UTF-8 bytes, no e-mail, and
/// the public key and Ethereum address of its secret, which is a valid key.
pub proof fn lemma_account_keeps_inputs(
    a: Account,
    username: Seq<char>,
    password: Seq<char>,
    secret: Seq<u8>,
)
    requires
        is_account_for(a, username, password, secret),
    ensures
        a.username@ == username,
        a.password_hash@ == sha256(encode_utf8(password)),
        a.email is None,
        valid_secret_key(secret),
        a.master_key@ == secp256k1_public_key(secret),
        a.ethereum_address matches Some(addr) && addr@ == ethereum_address(
            secp256k1_public_key(secret),
        ),
{
}

/// Two accounts tell their users apart: accounts of different user names
/// carry different user names. Accounts built around the same secret share
/// public key and address whoever they are for, and the same password gives
/// the same hash.
pub proof fn lemma_accounts_compared(
    a1: Account,
    username1: Seq<char>,
    password1: Seq<char>,
    secret1: Seq<u8>,
    a2: Account,
    username2: Seq<char>,
    password2: Seq<char>,
    secret2: Seq<u8>,
)
    requires
        is_account_for(a1, username1, password1, secret1),
        is_account_for(a2, username2, password2, secret2),
    ensures
        username1 != username2 ==> a1.username@ != a2.username@,
        secret1 == secret2 ==> a1.master_key@ == a2.master_key@ && a1.ethereum_address->0@
            == a2.ethereum_address->0@,
        password1 == password2 ==> a1.password_hash@ == a2.password_hash@,
{
}

/// Makes a valid secret key of 32 drawn bytes that are not one: the first
/// byte is cleared and a zero last byte is set to one.
fn repair_secret(bytes: Vec<u8>) -> (r: Vec<u8>)
    requires
        bytes@.len() == 32,
    ensures
        valid_secret_key(r@),
{
    let mut r = bytes;
    r.set(0, 0u8);
    if r[31] == 0 {
        r.set(31, 1u8);
    }
    proof {
        lemma_small_secret_valid(r@);
    }
    r
}

impl Account {
    /// Builds the account of `username` around the key pair of `secret`, or
    /// `None` where `secret` is not a valid secp256k1 secret key. The password
    /// is kept as its SHA-256 hash (of its UTF-8 bytes).
    pub fn from_secret(username: String, password: String, secret: Vec<u8>) -> (r: Option<
        (Account, AccountSecret),
    >)
        ensures
            r is Some <==> valid_secret_key(secret@),
            r matches Some(p) ==> is_account_for(p.0, username@, password@, secret@)
                && p.1.master_private_key@ == secret@,
            r matches Some(p) ==> {
                &&& p.0.username@ == username@
                &&& p.0.password_hash@ == sha256(encode_utf8(password@))
                &&& p.0.email is None
                &&& p.0.master_key@ == secp256k1_public_key(secret@)
                &&& p.0.ethereum_address matches Some(addr) && addr@ == ethereum_address(
                    secp256k1_public_key(secret@),
                )
            },
    {
        match derive_key_pair(secret.as_slice()) {
            Some(pair) => {
                let (public, address) = pair;
                let hash = sha256_digest(password.as_str().as_bytes());
                let account = Account {
                    master_key: public,
                    username,
                    password_hash: hash,
                    email: None,
                    ethereum_address: Some(address),
                };
                Some((account, AccountSecret { master_private_key: secret }))
            },
            None => None,
        }
    }

    /// Creates an account with a freshly drawn random key pair. Up to eight
    /// draws are made until one is a valid secret key; should none be, the
    /// last draw is made valid by clearing its first byte (and setting a zero
    /// last byte to one).
    pub fn new(username: String, password: String) -> (r: Option<(Account, AccountSecret)>)
        ensures
            r is Some,
            r matches Some(p) ==> is_account_for(
                p.0,
                username@,
                password@,
                p.1.master_private_key@,
            ),
            r matches Some(p) ==> p.0.username@ == username@ && p.0.password_hash@ == sha256(
                encode_utf8(password@),
            ) && p.0.master_key@ == secp256k1_public_key(p.1.master_private_key@)
                && valid_secret_key(p.1.master_private_key@),
    {
        let mut attempt: usize = 0;
        while attempt < 8
            invariant
                attempt <= 8,
            decreases 8 - attempt,
        {
            let secret = random_secret();
            match Account::from_secret(username.clone(), password.clone(), secret) {
                Some(p) => {
                    return Some(p);
                },
                None => {},
            }
            attempt = attempt + 1;
        }
        let secret = repair_secret(random_secret());
        Account::from_secret(username, password, secret)
    }

    /// The account that `new` creates for user "test" with password "test".
    pub fn test() -> (r: Option<Account>)
        ensures
            r is Some,
            r matches Some(a) ==> exists|secret: Seq<u8>| is_account_for(a, "test"@, "test"@, secret),
            r matches Some(a) ==> a.username@ == "test"@ && a.password_hash@ == sha256(
                encode_utf8("test"@),
            ) && a.email is None,
    {
        match Account::new(String::from_str("test"), String::from_str("test")) {
            Some(pair) => {
                let (a, _secret) = pair;
                Some(a)
            },
            None => None,
        }
    }
}

} // verus!
