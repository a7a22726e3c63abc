//! Request signing: HMAC-SHA256 over the request text, base64-encoded.
//!
//! REST requests sign `timestamp || METHOD || path || body`; the passphrase
//! travels signed (key version 2) or plain (version 1). The order channel's
//! URL authentication signs `api_key || timestamp` and always signs the
//! passphrase.
use vstd::prelude::*;
use vstd::utf8::encode_utf8;
use base64::Engine as _;
use hmac::{Hmac, Mac};
use sha2::Sha256;
use crate::text::{decimal, u64_text};

verus! {

/// The HMAC-SHA256 tag of `msg` under `key`.
pub uninterp spec fn hmac_sha256_of(key: Seq<u8>, msg: Seq<u8>) -> Seq<u8>;

/// The Unicode upper-case mapping of `s`.
pub uninterp spec fn upper_of(s: Seq<char>) -> Seq<char>;

/// The base64 alphabet of RFC 4648.
pub open spec fn b64_alphabet() -> Seq<char> {
    seq![
        'A', 'B', 'C', 'D', 'E', 'F', 'G', 'H', 'I', 'J', 'K', 'L', 'M', 'N', 'O', 'P',
        'Q', 'R', 'S', 'T', 'U', 'V', 'W', 'X', 'Y', 'Z', 'a', 'b', 'c', 'd', 'e', 'f',
        'g', 'h', 'i', 'j', 'k', 'l', 'm', 'n', 'o', 'p', 'q', 'r', 's', 't', 'u', 'v',
        'w', 'x', 'y', 'z', '0', '1', '2', '3', '4', '5', '6', '7', '8', '9', '+', '/'
    ]
}

pub open spec fn b64(v: int) -> char {
    b64_alphabet()[v]
}

/// Standard base64 with `=` padding: each 3 bytes become 4 characters.
pub open spec fn base64_spec(b: Seq<u8>) -> Seq<char>
    decreases b.len(),
{
    if b.len() == 0 {
        seq![]
    } else {
        let b0 = b[0] as int;
        let b1 = if b.len() > 1 {
            b[1] as int
        } else {
            0
        };
        let b2 = if b.len() > 2 {
            b[2] as int
        } else {
            0
        };
        if b.len() == 1 {
            seq![b64(b0 / 4), b64((b0 % 4) * 16), '=', '=']
        } else if b.len() == 2 {
            seq![b64(b0 / 4), b64((b0 % 4) * 16 + b1 / 16), b64((b1 % 16) * 4), '=']
        } else {
            seq![b64(b0 / 4), b64((b0 % 4) * 16 + b1 / 16), b64((b1 % 16) * 4 + b2 / 64), b64(b2 % 64)]
                + base64_spec(b.skip(3))
        }
    }
}

/// Base64 turns every 3 bytes (or final 1 or 2) into 4 characters.
pub proof fn lemma_base64_len(b: Seq<u8>)
    ensures
        base64_spec(b).len() == 4 * ((b.len() + 2) / 3),
    decreases b.len(),
{
    if b.len() > 2 {
        lemma_base64_len(b.skip(3));
    }
}

/// The base64 HMAC-SHA256 signature of `text` under `secret`.
pub open spec fn signature_of(secret: Seq<char>, text: Seq<char>) -> Seq<char> {
    base64_spec(hmac_sha256_of(encode_utf8(secret), encode_utf8(text)))
}

/// Relies on hmac's `Hmac<Sha256>` with sha2's `Sha256`: `new_from_slice`
/// accepts a key of any length (longer keys are hashed first), and
/// `finalize` yields the 32-byte HMAC-SHA256 tag of the bytes given to `update`.
#[verifier::external_body]
fn hmac_sha256(key: &str, msg: &str) -> (r: Vec<u8>)
    ensures
        r@ == hmac_sha256_of(encode_utf8(key@), encode_utf8(msg@)),
        r@.len() == 32,
{
    let mut mac = <Hmac<Sha256> as Mac>::new_from_slice(key.as_bytes()).expect("any key length");
    mac.update(msg.as_bytes());
    mac.finalize().into_bytes().to_vec()
}

/// Relies on base64's `STANDARD` engine `encode`: the RFC 4648 alphabet with
/// `=` padding.
#[verifier::external_body]
fn base64_encode(bytes: &Vec<u8>) -> (r: String)
    ensures
        r@ == base64_spec(bytes@),
{
    base64::engine::general_purpose::STANDARD.encode(bytes)
}

/// Relies on `str::to_uppercase`: the result depends on the characters alone.
#[verifier::external_body]
fn to_upper(s: &str) -> (r: String)
    ensures
        r@ == upper_of(s@),
{
    s.to_uppercase()
}

/// Relies on `SystemTime::now`: milliseconds since the Unix epoch (zero for
/// a clock set before it).
#[verifier::external_body]
fn now_millis() -> (r: u64) {
    std::time::SystemTime::now().duration_since(std::time::UNIX_EPOCH).unwrap_or_default().as_millis() as u64
}

/// Credentials and key version of an API key.
#[derive(Clone)]
pub struct KucoinAuth {
    api_key: String,
    api_secret: String,
    passphrase: String,
    use_v2: bool,
}

impl KucoinAuth {
    pub closed spec fn key_view(&self) -> Seq<char> {
        self.api_key@
    }

    pub closed spec fn secret_view(&self) -> Seq<char> {
        self.api_secret@
    }

    pub closed spec fn passphrase_view(&self) -> Seq<char> {
        self.passphrase@
    }

    pub closed spec fn v2(&self) -> bool {
        self.use_v2
    }

    /// The passphrase header: signed for key version 2, plain for version 1.
    pub open spec fn passphrase_header(&self) -> Seq<char> {
        if self.v2() {
            signature_of(self.secret_view(), self.passphrase_view())
        } else {
            self.passphrase_view()
        }
    }

    pub fn new(api_key: String, api_secret: String, passphrase: String, use_v2: bool) -> (r: KucoinAuth)
        ensures
            r.key_view() == api_key@,
            r.secret_view() == api_secret@,
            r.passphrase_view() == passphrase@,
            r.v2() == use_v2,
    {
        KucoinAuth { api_key, api_secret, passphrase, use_v2 }
    }

    pub fn api_key(&self) -> (r: &str)
        ensures
            r@ == self.key_view(),
    {
        self.api_key.as_str()
    }

    pub fn api_secret(&self) -> (r: &str)
        ensures
            r@ == self.secret_view(),
    {
        self.api_secret.as_str()
    }

    fn sign_text(&self, text: &str) -> (r: String)
        ensures
            r@ == signature_of(self.secret_view(), text@),
            r@.len() == 44,
    {
        let tag = hmac_sha256(self.api_secret.as_str(), text);
        proof {
            lemma_base64_len(tag@);
        }
        base64_encode(&tag)
    }

    fn passphrase_out(&self) -> (r: String)
        ensures
            r@ == self.passphrase_header(),
            self.v2() ==> r@.len() == 44,
    {
        if self.use_v2 {
            self.sign_text(self.passphrase.as_str())
        } else {
            self.passphrase.clone()
        }
    }

    /// The signature of an arbitrary message, such as the session message the
    /// order channel sends on connect.
    pub fn sign_message(&self, msg: &str) -> (r: String)
        ensures
            r@ == signature_of(self.secret_view(), msg@),
            r@.len() == 44,
    {
        self.sign_text(msg)
    }

    /// The current time in milliseconds since the Unix epoch, in decimal.
    pub fn timestamp_ms() -> (r: String)
        ensures
            exists|n: nat| r@ == decimal(n),
            r@.len() > 0,
    {
        let ms = now_millis();
        let r = u64_text(ms);
        assert(r@ == decimal(ms as nat));
        r
    }

    /// Sign a REST request at `timestamp`: (timestamp, signature, passphrase
    /// header, key version).
    pub fn sign_at(&self, timestamp: &str, method: &str, path: &str, body: &str) -> (r: (
        String,
        String,
        String,
        String,
    ))
        ensures
            r.0@ == timestamp@,
            r.1@ == signature_of(self.secret_view(), timestamp@ + upper_of(method@) + path@ + body@),
            r.1@.len() == 44,
            self.v2() ==> r.2@.len() == 44,
            r.2@ == self.passphrase_header(),
            r.3@ == (if self.v2() {
                "2"@
            } else {
                "1"@
            }),
    {
        let mut text = String::from_str(timestamp);
        let m = to_upper(method);
        text.append(m.as_str());
        text.append(path);
        text.append(body);
        let signature = self.sign_text(text.as_str());
        let passphrase = self.passphrase_out();
        let version = if self.use_v2 {
            String::from_str("2")
        } else {
            String::from_str("1")
        };
        (String::from_str(timestamp), signature, passphrase, version)
    }

    /// Sign a REST request now: (timestamp, signature, passphrase header, key
    /// version), the signature over `timestamp || METHOD || path || body`.
    pub fn sign(&self, method: &str, path: &str, body: &str) -> (r: (String, String, String, String))
        ensures
            exists|n: nat| r.0@ == decimal(n),
            r.0@.len() > 0,
            r.1@ == signature_of(self.secret_view(), r.0@ + upper_of(method@) + path@ + body@),
            r.1@.len() == 44,
            self.v2() ==> r.2@.len() == 44,
            r.2@ == self.passphrase_header(),
            r.3@ == (if self.v2() {
                "2"@
            } else {
                "1"@
            }),
    {
        let ts = Self::timestamp_ms();
        self.sign_at(ts.as_str(), method, path, body)
    }

    /// Sign the private-channel token request at `timestamp`:
    /// (timestamp, signature, passphrase header).
    pub fn sign_ws_at(&self, timestamp: &str) -> (r: (String, String, String))
        ensures
            r.0@ == timestamp@,
            r.1@ == signature_of(self.secret_view(), timestamp@ + "GET/api/v1/bullet-private"@),
            r.1@.len() == 44,
            self.v2() ==> r.2@.len() == 44,
            r.2@ == self.passphrase_header(),
    {
        let mut text = String::from_str(timestamp);
        text.append("GET/api/v1/bullet-private");
        let signature = self.sign_text(text.as_str());
        (String::from_str(timestamp), signature, self.passphrase_out())
    }

    /// Sign the private-channel token request now.
    pub fn sign_ws(&self) -> (r: (String, String, String))
        ensures
            exists|n: nat| r.0@ == decimal(n),
            r.0@.len() > 0,
            r.1@ == signature_of(self.secret_view(), r.0@ + "GET/api/v1/bullet-private"@),
            r.1@.len() == 44,
            self.v2() ==> r.2@.len() == 44,
            r.2@ == self.passphrase_header(),
    {
        let ts = Self::timestamp_ms();
        self.sign_ws_at(ts.as_str())
    }

    /// Sign the order channel's URL authentication at `timestamp`:
    /// (timestamp, signature of `api_key || timestamp`, signed passphrase).
    pub fn sign_ws_url_at(&self, timestamp: &str) -> (r: (String, String, String))
        ensures
            r.0@ == timestamp@,
            r.1@ == signature_of(self.secret_view(), self.key_view() + timestamp@),
            r.1@.len() == 44,
            r.2@.len() == 44,
            r.2@ == signature_of(self.secret_view(), self.passphrase_view()),
    {
        let mut text = self.api_key.clone();
        text.append(timestamp);
        let signature = self.sign_text(text.as_str());
        let passphrase = self.sign_text(self.passphrase.as_str());
        (String::from_str(timestamp), signature, passphrase)
    }

    /// Sign the order channel's URL authentication now.
    pub fn sign_ws_url(&self) -> (r: (String, String, String))
        ensures
            exists|n: nat| r.0@ == decimal(n),
            r.0@.len() > 0,
            r.1@ == signature_of(self.secret_view(), self.key_view() + r.0@),
            r.1@.len() == 44,
            r.2@.len() == 44,
            r.2@ == signature_of(self.secret_view(), self.passphrase_view()),
    {
        let ts = Self::timestamp_ms();
        self.sign_ws_url_at(ts.as_str())
    }
}

} // verus!
