use hmac::{Hmac, Mac};
use sha2::Sha256;
use vstd::prelude::*;

verus! {

/// An inbound email as the provider's webhook reports it.
pub struct MailgunEmailReceived {
    pub sender: String,
    pub from: String,
    pub subject: String,
    pub body_plain: String,
    pub timestamp: i64,
    pub token: String,
    pub signature: String,
    pub message_headers: String,
}

/// Failures of the provider's side of a request.
pub enum MailgunError {
    /// Data from the provider could not be decoded.
    JsonError(String),
    /// The webhook's signature does not match.
    HmacError(String),
    /// The provider refused a call, or a needed value is absent.
    MailgunError(String),
}

impl MailgunError {
    /// The HTTP status that reports this error: 400 for data that cannot be
    /// decoded or a bad signature, 500 for the rest.
    pub fn status_code(&self) -> (r: u16)
        ensures
            r == (if self is MailgunError { 500u16 } else { 400u16 }),
    {
        match self {
            MailgunError::JsonError(_) => 400,
            MailgunError::HmacError(_) => 400,
            MailgunError::MailgunError(_) => 500,
        }
    }

    /// The text carried by the error.
    pub fn message(&self) -> (r: String)
        ensures
            r@ == (match self {
                MailgunError::JsonError(m) => m@,
                MailgunError::HmacError(m) => m@,
                MailgunError::MailgunError(m) => m@,
            }),
    {
        match self {
            MailgunError::JsonError(m) => m.clone(),
            MailgunError::HmacError(m) => m.clone(),
            MailgunError::MailgunError(m) => m.clone(),
        }
    }
}

/// The credentials of the outbound email account.
#[derive(Clone)]
pub struct Mailgun {
    pub api_key: String,
    pub domain: String,
    pub from: String,
}

/// The HMAC-SHA256 tag of `msg` under `key`.
pub uninterp spec fn hmac_sha256_of(key: Seq<u8>, msg: Seq<u8>) -> Seq<u8>;

/// What a JSON text decodes to as a list of `[name, value]` string pairs, if it is one.
pub uninterp spec fn json_header_pairs(s: Seq<char>) -> Option<Seq<(Seq<char>, Seq<char>)>>;

/// Relies on `hmac::Hmac<sha2::Sha256>`: keyed with any number of bytes, it
/// yields the 32-byte HMAC-SHA256 tag of the message.
#[verifier::external_body]
fn hmac_sha256(key: &[u8], msg: &[u8]) -> (r: Vec<u8>)
    ensures
        r@ == hmac_sha256_of(key@, msg@),
        r@.len() == 32,
{
    let mut mac = <Hmac<Sha256> as Mac>::new_from_slice(key).expect("HMAC takes keys of any length");
    mac.update(msg);
    mac.finalize().into_bytes().to_vec()
}

/// Relies on `hex::encode`: two lower-case hexadecimal digits for each byte, in order.
#[verifier::external_body]
fn to_hex(b: &[u8]) -> (r: String)
    ensures
        r@ == hex_of(b@),
{
    hex::encode(b)
}

/// Relies on `serde_json::from_str` into `Vec<(String, String)>`: a JSON array
/// whose items are two-string arrays.
#[verifier::external_body]
fn parse_header_pairs(s: &str) -> (r: Option<Vec<(String, String)>>)
    ensures
        r matches Some(v) ==> json_header_pairs(s@) == Some(pairs_view(v@)),
        r is None ==> json_header_pairs(s@) is None,
{
    serde_json::from_str::<Vec<(String, String)>>(s).ok()
}

/// A string's pairs as pairs of character sequences.
pub open spec fn pairs_view(v: Seq<(String, String)>) -> Seq<(Seq<char>, Seq<char>)> {
    v.map_values(|p: (String, String)| (p.0@, p.1@))
}

/// The lower-case hexadecimal digit for `n`, below 16.
pub open spec fn hex_digit(n: int) -> char {
    seq!['0', '1', '2', '3', '4', '5', '6', '7', '8', '9', 'a', 'b', 'c', 'd', 'e', 'f'][n]
}

/// Each byte as two lower-case hexadecimal digits, high half first.
pub open spec fn hex_of(b: Seq<u8>) -> Seq<char>
    decreases b.len(),
{
    if b.len() == 0 {
        Seq::<char>::empty()
    } else {
        hex_of(b.drop_last()) + seq![hex_digit(b.last() as int / 16), hex_digit(b.last() as int % 16)]
    }
}

/// The ASCII decimal digits of `n`, with no leading zero.
pub open spec fn digits_of(n: nat) -> Seq<u8>
    decreases n,
{
    if n < 10 {
        seq![(48 + n) as u8]
    } else {
        digits_of(n / 10).push((48 + n % 10) as u8)
    }
}

/// `n` written in ASCII decimal, with a leading `-` when negative.
pub open spec fn decimal_of(n: int) -> Seq<u8> {
    if n < 0 {
        seq![45u8] + digits_of((-n) as nat)
    } else {
        digits_of(n as nat)
    }
}

/// The bytes the provider signs: the timestamp in decimal, then the token.
pub open spec fn signed_bytes(timestamp: i64, token: Seq<char>) -> Seq<u8> {
    decimal_of(timestamp as int) + vstd::utf8::encode_utf8(token)
}

/// The signature the provider gives a webhook under `key`.
pub open spec fn expected_signature(key: Seq<char>, timestamp: i64, token: Seq<char>) -> Seq<char> {
    hex_of(hmac_sha256_of(vstd::utf8::encode_utf8(key), signed_bytes(timestamp, token)))
}

/// Whether `signature` is the one the provider gives under `key`.
pub open spec fn signature_ok(
    key: Seq<char>,
    timestamp: i64,
    token: Seq<char>,
    signature: Seq<char>,
) -> bool {
    signature == expected_signature(key, timestamp, token)
}

/// The value of the first pair named `Message-Id`.
pub open spec fn first_message_id(ps: Seq<(Seq<char>, Seq<char>)>) -> Option<Seq<char>>
    decreases ps.len(),
{
    if ps.len() == 0 {
        None
    } else if ps[0].0 == "Message-Id"@ {
        Some(ps[0].1)
    } else {
        first_message_id(ps.drop_first())
    }
}

/// The `Message-Id` found in a JSON list of header pairs.
pub open spec fn message_id_of(headers: Seq<char>) -> Option<Seq<char>> {
    match json_header_pairs(headers) {
        Some(ps) => first_message_id(ps),
        None => None,
    }
}

/// `n` in ASCII decimal.
fn decimal_bytes(n: i64) -> (r: Vec<u8>)
    ensures
        r@ == decimal_of(n as int),
{
    let mut rest: u64 = if n < 0 {
        (-(n as i128)) as u64
    } else {
        n as u64
    };
    let ghost mag: nat = rest as nat;
    let mut acc: Vec<u8> = Vec::new();
    while rest >= 10
        invariant
            digits_of(mag) == digits_of(rest as nat) + acc@,
        decreases rest,
    {
        let d: u8 = (rest % 10) as u8;
        proof {
            assert(digits_of(rest as nat) == digits_of((rest / 10) as nat).push((48 + rest % 10) as u8));
            assert(digits_of((rest / 10) as nat).push((48 + d) as u8) + acc@ =~= digits_of((rest / 10) as nat) + seq![(48 + d) as u8].add(acc@));
        }
        acc.insert(0, 48 + d);
        rest = rest / 10;
    }
    let mut r: Vec<u8> = Vec::new();
    if n < 0 {
        r.push(45);
    }
    r.push(48 + rest as u8);
    proof {
        assert(digits_of(rest as nat) == seq![(48 + rest) as u8]);
    }
    let mut i: usize = 0;
    let ghost start = r@;
    while i < acc.len()
        invariant
            i <= acc@.len(),
            r@ == start + acc@.subrange(0, i as int),
        decreases acc@.len() - i,
    {
        r.push(acc[i]);
        proof {
            assert(acc@.subrange(0, i + 1) =~= acc@.subrange(0, i as int).push(acc@[i as int]));
        }
        i = i + 1;
    }
    proof {
        assert(acc@.subrange(0, acc@.len() as int) =~= acc@);
        if n < 0 {
            assert(start =~= seq![45u8] + seq![(48 + rest) as u8]);
            assert(r@ =~= seq![45u8] + (seq![(48 + rest) as u8] + acc@));
        } else {
            assert(start =~= seq![(48 + rest) as u8]);
        }
    }
    r
}

/// Finds the value of the first header named `Message-Id`.
pub fn find_message_id(pairs: &Vec<(String, String)>) -> (r: Option<String>)
    ensures
        r matches Some(v) ==> first_message_id(pairs_view(pairs@)) == Some(v@),
        r is None ==> first_message_id(pairs_view(pairs@)) is None,
{
    let name = String::from_str("Message-Id");
    let mut i: usize = 0;
    assert(pairs_view(pairs@).subrange(0, pairs@.len() as int) =~= pairs_view(pairs@));
    while i < pairs.len()
        invariant
            i <= pairs@.len(),
            name@ == "Message-Id"@,
            first_message_id(pairs_view(pairs@)) == first_message_id(
                pairs_view(pairs@).subrange(i as int, pairs@.len() as int),
            ),
        decreases pairs@.len() - i,
    {
        let ghost rest = pairs_view(pairs@).subrange(i as int, pairs@.len() as int);
        let found = pairs[i].0 == name;
        assert(pairs_view(pairs@)[i as int] == (pairs@[i as int].0@, pairs@[i as int].1@));
        assert(rest[0] == (pairs@[i as int].0@, pairs@[i as int].1@));
        assert(rest.len() > 0);
        if found {
            assert(first_message_id(rest) == Some(rest[0].1));
            return Some(pairs[i].1.clone());
        }
        assert(first_message_id(rest) == first_message_id(rest.drop_first()));
        assert(rest.drop_first() =~= pairs_view(pairs@).subrange(i + 1, pairs@.len() as int));
        i = i + 1;
    }
    assert(pairs_view(pairs@).subrange(i as int, pairs@.len() as int).len() == 0);
    None
}

impl Mailgun {
    /// Checks the webhook's signature: the hexadecimal HMAC-SHA256, keyed with
    /// the API key, of the timestamp in decimal followed by the token.
    pub fn verify_hmac(&self, email: &MailgunEmailReceived) -> (r: Result<(), MailgunError>)
        ensures
            r is Ok <==> signature_ok(self.api_key@, email.timestamp, email.token@, email.signature@),
            r is Err ==> r->Err_0 is HmacError,
    {
        let mut msg = decimal_bytes(email.timestamp);
        let tb = email.token.as_str().as_bytes();
        let mut i: usize = 0;
        let ghost start = msg@;
        while i < tb.len()
            invariant
                i <= tb@.len(),
                msg@ == start + tb@.subrange(0, i as int),
            decreases tb@.len() - i,
        {
            msg.push(tb[i]);
            proof {
                assert(tb@.subrange(0, i + 1) =~= tb@.subrange(0, i as int).push(tb@[i as int]));
            }
            i = i + 1;
        }
        proof {
            assert(tb@.subrange(0, tb@.len() as int) =~= tb@);
        }
        let tag = hmac_sha256(self.api_key.as_str().as_bytes(), msg.as_slice());
        let expected = to_hex(tag.as_slice());
        if expected == email.signature {
            Ok(())
        } else {
            Err(MailgunError::HmacError(String::from_str("Invalid signature on the inbound webhook")))
        }
    }
}

impl MailgunEmailReceived {
    /// The `Message-Id` header, read from the JSON list of header pairs. Headers
    /// that are no such list hold no message id either.
    pub fn get_message_id(&self) -> (r: Result<String, MailgunError>)
        ensures
            r is Ok <==> message_id_of(self.message_headers@) is Some,
            r matches Ok(v) ==> message_id_of(self.message_headers@) == Some(v@),
            r matches Err(e) ==> e is MailgunError,
    {
        match parse_header_pairs(self.message_headers.as_str()) {
            Some(pairs) => match find_message_id(&pairs) {
                Some(id) => Ok(id),
                None => Err(MailgunError::MailgunError(String::from_str("No Message-Id header found"))),
            },
            None => Err(MailgunError::MailgunError(String::from_str("No Message-Id found: message-headers is not a list of header pairs"))),
        }
    }
}

} // verus!
