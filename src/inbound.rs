use crate::mailgun::MailgunEmailReceived;
use vstd::prelude::*;

verus! {

/// A multipart webhook body that lacks a required field.
#[derive(Debug, PartialEq, Eq, Structural)]
pub enum MultipartError {
    MissingFields(),
}

impl MultipartError {
    /// The HTTP status that reports the error: 400, a bad request.
    pub fn status_code(&self) -> (r: u16)
        ensures
            r == 400,
    {
        400
    }

    /// The error's name.
    pub fn describe(&self) -> (r: String)
        ensures
            r@ == "MultipartError::MissingFields"@,
    {
        String::from_str("MultipartError::MissingFields")
    }
}

/// Whether every character of `s` is an ASCII digit.
pub open spec fn all_digits(s: Seq<char>) -> bool {
    forall|i: int| 0 <= i < s.len() ==> '0' <= #[trigger] s[i] && s[i] <= '9'
}

/// The number that the ASCII digits `s` write.
pub open spec fn digits_value(s: Seq<char>) -> int
    decreases s.len(),
{
    if s.len() == 0 {
        0
    } else {
        digits_value(s.drop_last()) * 10 + (s.last() as int - '0' as int)
    }
}

/// The integer that `s` writes: an optional `+` or `-`, then one or more ASCII digits.
pub open spec fn integer_text(s: Seq<char>) -> Option<int> {
    if s.len() > 1 && s[0] == '-' && all_digits(s.drop_first()) {
        Some(-digits_value(s.drop_first()))
    } else if s.len() > 1 && s[0] == '+' && all_digits(s.drop_first()) {
        Some(digits_value(s.drop_first()))
    } else if s.len() > 0 && all_digits(s) {
        Some(digits_value(s))
    } else {
        None
    }
}

/// The `i64` that `s` writes, if it writes one in range.
pub open spec fn i64_text(s: Seq<char>) -> Option<i64> {
    match integer_text(s) {
        Some(v) => if i64::MIN <= v && v <= i64::MAX {
            Some(v as i64)
        } else {
            None
        },
        None => None,
    }
}

/// Relies on `str::parse::<i64>`: an optional sign and ASCII digits, in range,
/// parse; any other text does not.
#[verifier::external_body]
fn parse_i64(s: &str) -> (r: Option<i64>)
    ensures
        r == i64_text(s@),
{
    s.parse::<i64>().ok()
}

fn text_eq(a: &str, b: &str) -> (r: bool)
    ensures
        r == (a@ == b@),
{
    String::from_str(a) == String::from_str(b)
}

/// The fields of a webhook body, gathered part by part.
pub struct MultipartFields {
    pub sender: Option<String>,
    pub from: Option<String>,
    pub subject: Option<String>,
    pub body_plain: Option<String>,
    pub timestamp: Option<i64>,
    pub token: Option<String>,
    pub signature: Option<String>,
    pub message_headers: Option<String>,
}

/// The view of an optional text.
pub open spec fn opt_view(v: Option<String>) -> Option<Seq<char>> {
    match v {
        Some(s) => Some(s@),
        None => None,
    }
}

/// Whether every required field is present.
pub open spec fn all_present(f: MultipartFields) -> bool {
    &&& f.sender is Some
    &&& f.from is Some
    &&& f.subject is Some
    &&& f.body_plain is Some
    &&& f.timestamp is Some
    &&& f.token is Some
    &&& f.signature is Some
    &&& f.message_headers is Some
}

impl MultipartFields {
    /// No field yet.
    pub fn new() -> (r: Self)
        ensures
            r.sender is None && r.from is None && r.subject is None && r.body_plain is None
                && r.timestamp is None && r.token is None && r.signature is None
                && r.message_headers is None,
    {
        MultipartFields {
            sender: None,
            from: None,
            subject: None,
            body_plain: None,
            timestamp: None,
            token: None,
            signature: None,
            message_headers: None,
        }
    }

    /// Takes the part `name`, whose text is `value` (`None` where it was not
    /// UTF-8). A later part of the same name replaces an earlier one; the
    /// timestamp is kept where it parses as an integer; unknown names and a
    /// timestamp that is not text leave the fields as they were.
    pub fn set_field(&mut self, name: &str, value: Option<String>)
        ensures
            final(self).sender == (if name@ == "sender"@ { value } else { old(self).sender }),
            final(self).from == (if name@ == "from"@ { value } else { old(self).from }),
            final(self).subject == (if name@ == "subject"@ { value } else { old(self).subject }),
            final(self).body_plain == (if name@ == "body-plain"@ { value } else { old(self).body_plain }),
            final(self).token == (if name@ == "token"@ { value } else { old(self).token }),
            final(self).signature == (if name@ == "signature"@ { value } else { old(self).signature }),
            final(self).message_headers == (if name@ == "message-headers"@ {
                value
            } else {
                old(self).message_headers
            }),
            final(self).timestamp == (match value {
                Some(v) => if name@ == "timestamp"@ { i64_text(v@) } else { old(self).timestamp },
                None => old(self).timestamp,
            }),
    {
        proof {
            reveal_strlit("sender");
            reveal_strlit("from");
            reveal_strlit("subject");
            reveal_strlit("body-plain");
            reveal_strlit("timestamp");
            reveal_strlit("token");
            reveal_strlit("signature");
            reveal_strlit("message-headers");
            assert("sender"@.len() == 6);
            assert("from"@.len() == 4);
            assert("subject"@.len() == 7);
            assert("body-plain"@.len() == 10);
            assert("timestamp"@.len() == 9);
            assert("token"@.len() == 5);
            assert("signature"@.len() == 9);
            assert("message-headers"@.len() == 15);
            assert("signature"@[0] != "timestamp"@[0]);
        }
        if text_eq(name, "sender") {
            self.sender = value;
        } else if text_eq(name, "from") {
            self.from = value;
        } else if text_eq(name, "subject") {
            self.subject = value;
        } else if text_eq(name, "body-plain") {
            self.body_plain = value;
        } else if text_eq(name, "timestamp") {
            if let Some(v) = value {
                self.timestamp = parse_i64(v.as_str());
            }
        } else if text_eq(name, "token") {
            self.token = value;
        } else if text_eq(name, "signature") {
            self.signature = value;
        } else if text_eq(name, "message-headers") {
            self.message_headers = value;
        }
    }

    /// The email, when all eight fields are present.
    pub fn into_email(self) -> (r: Result<MailgunEmailReceived, MultipartError>)
        ensures
            r is Ok <==> all_present(self),
            r matches Ok(e) ==> Some(e.sender@) == opt_view(self.sender) && Some(e.from@) == opt_view(
                self.from,
            ) && Some(e.subject@) == opt_view(self.subject) && Some(e.body_plain@) == opt_view(
                self.body_plain,
            ) && Some(e.timestamp) == self.timestamp && Some(e.token@) == opt_view(self.token)
                && Some(e.signature@) == opt_view(self.signature) && Some(e.message_headers@)
                == opt_view(self.message_headers),
    {
        match (
            self.sender,
            self.from,
            self.subject,
            self.body_plain,
            self.timestamp,
            self.token,
            self.signature,
            self.message_headers,
        ) {
            (
                Some(sender),
                Some(from),
                Some(subject),
                Some(body_plain),
                Some(timestamp),
                Some(token),
                Some(signature),
                Some(message_headers),
            ) => Ok(
                MailgunEmailReceived {
                    sender,
                    from,
                    subject,
                    body_plain,
                    timestamp,
                    token,
                    signature,
                    message_headers,
                },
            ),
            _ => Err(MultipartError::MissingFields()),
        }
    }
}

} // verus!
