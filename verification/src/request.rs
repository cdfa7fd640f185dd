//! What is sent to the service and how its answer is read: the endpoints, the
//! request for each, and what a status code means at each.

use vstd::prelude::*;
use vstd::utf8::encode_utf8;
use crate::error::HibpError;
use crate::hex::hex_digit_upper;
use crate::text::trimmed;

verus! {

/// One header of a request.
#[derive(Debug, Clone)]
pub struct Header {
    /// The header's name.
    pub name: String,
    /// The header's value.
    pub value: String,
}

impl View for Header {
    type V = (Seq<char>, Seq<char>);

    /// The name and the value.
    open spec fn view(&self) -> (Seq<char>, Seq<char>) {
        (self.name@, self.value@)
    }
}

impl DeepView for Header {
    type V = (Seq<char>, Seq<char>);

    open spec fn deep_view(&self) -> (Seq<char>, Seq<char>) {
        self@
    }
}

/// The operations of the service.
#[derive(Debug, Clone, Copy, PartialEq, Eq, Structural)]
pub enum Endpoint {
    /// All breaches that an account is in.
    BreachedAccount,
    /// All breaches in the system.
    Breaches,
    /// One breach, by its name.
    Breach,
    /// The breach added most recently.
    LatestBreach,
    /// The domains that the API key is subscribed to.
    SubscribedDomains,
    /// The state of the API key's subscription.
    SubscriptionStatus,
    /// All pastes that an account is in.
    PasteAccount,
    /// The addresses that stealer logs hold for a website domain.
    StealerLogEmails,
    /// The aliases that stealer logs hold for an email domain.
    StealerLogAliases,
    /// The website domains that stealer logs hold for an address.
    StealerLogDomains,
    /// The password hashes that start with a prefix.
    PasswordRange,
    /// The same, with decoy entries mixed in by the service.
    PasswordRangePadded,
}

/// What to do with the body of an answer.
#[derive(Debug, Clone, Copy, PartialEq, Eq, Structural)]
pub enum Disposition {
    /// The call succeeded: the body holds the result.
    Decode,
    /// The service holds nothing for the subject: the result is empty, whatever the body.
    Empty,
    /// The call failed, for this reason.
    Fail(HibpError),
}

/// Whether `status` is a success, a code from 200 to 299.
pub open spec fn is_success(status: u16) -> bool {
    200 <= status < 300
}

impl Endpoint {
    /// Whether the endpoint is one of the two range queries of the password service.
    pub open spec fn is_password_range(self) -> bool {
        self == Endpoint::PasswordRange || self == Endpoint::PasswordRangePadded
    }

    /// Whether the endpoint looks a subject up by an argument that becomes part of the path.
    pub open spec fn has_argument(self) -> bool {
        match self {
            Endpoint::BreachedAccount
            | Endpoint::Breach
            | Endpoint::PasteAccount
            | Endpoint::StealerLogEmails
            | Endpoint::StealerLogAliases
            | Endpoint::StealerLogDomains => true,
            _ => false,
        }
    }

    /// Whether the endpoint looks up what the service holds for an account or a
    /// domain, so that "not found" means that it holds nothing.
    pub open spec fn not_found_is_empty(self) -> bool {
        match self {
            Endpoint::BreachedAccount
            | Endpoint::PasteAccount
            | Endpoint::StealerLogEmails
            | Endpoint::StealerLogAliases
            | Endpoint::StealerLogDomains => true,
            _ => false,
        }
    }

    /// The path of the endpoint below the base URL, up to its argument.
    pub open spec fn spec_path(self) -> Seq<char> {
        match self {
            Endpoint::BreachedAccount => "/breachedaccount/"@,
            Endpoint::Breaches => "/breaches"@,
            Endpoint::Breach => "/breach/"@,
            Endpoint::LatestBreach => "/latestbreach"@,
            Endpoint::SubscribedDomains => "/subscribed"@,
            Endpoint::SubscriptionStatus => "/subscription/status"@,
            Endpoint::PasteAccount => "/pasteaccount/"@,
            Endpoint::StealerLogEmails => "/stealerlog/domain/"@,
            Endpoint::StealerLogAliases => "/stealerlog/alias/"@,
            Endpoint::StealerLogDomains => "/stealerlog/email/"@,
            Endpoint::PasswordRange | Endpoint::PasswordRangePadded => "/range/"@,
        }
    }

    /// What follows the argument in the URL.
    pub open spec fn spec_query(self) -> Seq<char> {
        match self {
            Endpoint::BreachedAccount => "?truncateResponse=false"@,
            _ => ""@,
        }
    }

    /// The URL of the endpoint for `argument`, below `base_url`. An argument
    /// is trimmed and percent-encoded, but for the hash prefix of a range
    /// query, which goes out as it is.
    pub open spec fn spec_url(self, base_url: Seq<char>, argument: Seq<char>) -> Seq<char> {
        if self.is_password_range() {
            base_url + self.spec_path() + argument
        } else if self.has_argument() {
            base_url + self.spec_path() + percent_encoded(encode_utf8(trimmed(argument)))
                + self.spec_query()
        } else {
            base_url + self.spec_path()
        }
    }

    /// What a `status` means at this endpoint: a success has a body to
    /// decode; 404 means an empty result where an account or a domain was
    /// looked up, and that the breach is not known where one was asked for by
    /// name; every other code, 404 elsewhere too, fails with that code.
    pub open spec fn spec_disposition(self, status: u16) -> Disposition {
        if is_success(status) {
            Disposition::Decode
        } else if status == 404 && self.not_found_is_empty() {
            Disposition::Empty
        } else if status == 404 && self == Endpoint::Breach {
            Disposition::Fail(HibpError::NotFound)
        } else {
            Disposition::Fail(HibpError::Status(status))
        }
    }

    /// The path of the endpoint below the base URL, up to its argument.
    pub fn path(self) -> (path: &'static str)
        ensures
            path@ == self.spec_path(),
    {
        match self {
            Endpoint::BreachedAccount => "/breachedaccount/",
            Endpoint::Breaches => "/breaches",
            Endpoint::Breach => "/breach/",
            Endpoint::LatestBreach => "/latestbreach",
            Endpoint::SubscribedDomains => "/subscribed",
            Endpoint::SubscriptionStatus => "/subscription/status",
            Endpoint::PasteAccount => "/pasteaccount/",
            Endpoint::StealerLogEmails => "/stealerlog/domain/",
            Endpoint::StealerLogAliases => "/stealerlog/alias/",
            Endpoint::StealerLogDomains => "/stealerlog/email/",
            Endpoint::PasswordRange | Endpoint::PasswordRangePadded => "/range/",
        }
    }

    /// What follows the argument in the URL.
    pub fn query(self) -> (query: &'static str)
        ensures
            query@ == self.spec_query(),
    {
        match self {
            Endpoint::BreachedAccount => "?truncateResponse=false",
            _ => "",
        }
    }

    /// What a `status` means at this endpoint.
    pub fn disposition(self, status: u16) -> (disposition: Disposition)
        ensures
            disposition == self.spec_disposition(status),
    {
        if 200 <= status && status < 300 {
            Disposition::Decode
        } else if status == 404 {
            match self {
                Endpoint::BreachedAccount
                | Endpoint::PasteAccount
                | Endpoint::StealerLogEmails
                | Endpoint::StealerLogAliases
                | Endpoint::StealerLogDomains => Disposition::Empty,
                Endpoint::Breach => Disposition::Fail(HibpError::NotFound),
                _ => Disposition::Fail(HibpError::Status(status)),
            }
        } else {
            Disposition::Fail(HibpError::Status(status))
        }
    }
}

/// A request to send: a GET of `url` with `headers`.
#[derive(Debug, Clone)]
pub struct Request {
    /// The operation that the request asks for.
    pub endpoint: Endpoint,
    /// The full URL.
    pub url: String,
    /// The headers, in the order in which they were added.
    pub headers: Vec<Header>,
}

/// A request as plain values.
pub ghost struct RequestView {
    pub endpoint: Endpoint,
    pub url: Seq<char>,
    pub headers: Seq<(Seq<char>, Seq<char>)>,
}

impl View for Request {
    type V = RequestView;

    open spec fn view(&self) -> RequestView {
        RequestView {
            endpoint: self.endpoint,
            url: self.url@,
            headers: self.headers.deep_view(),
        }
    }
}

/// Whether a byte can stand in a header's value: anything but a control
/// character, and the horizontal tab.
pub open spec fn is_header_value_byte(byte: u8) -> bool {
    (byte >= 32 && byte != 127) || byte == 9
}

/// Whether `bytes` can be sent as a header's value.
pub open spec fn is_header_value(bytes: Seq<u8>) -> bool {
    forall|i: int| 0 <= i < bytes.len() ==> is_header_value_byte(#[trigger] bytes[i])
}

/// `reqwest::header::HeaderValue::from_str`, asked only whether it accepts
/// `value`. It does when no byte of the text is a control character other
/// than the tab; bytes above 127 pass.
#[verifier::external_body]
pub(crate) fn header_value_accepted(value: &str) -> (accepted: bool)
    ensures
        accepted == is_header_value(encode_utf8(value@)),
{
    reqwest::header::HeaderValue::from_str(value).is_ok()
}

/// Whether a byte stands for itself in percent-encoded text: an ASCII
/// letter or digit, or one of `-`, `.`, `_`, `~`.
pub open spec fn is_unreserved(byte: u8) -> bool {
    ||| 0x30 <= byte <= 0x39
    ||| 0x41 <= byte <= 0x5A
    ||| 0x61 <= byte <= 0x7A
    ||| byte == 0x2D
    ||| byte == 0x2E
    ||| byte == 0x5F
    ||| byte == 0x7E
}

/// One byte, percent-encoded: itself, or `%` and its two upper-case
/// hexadecimal digits.
pub open spec fn percent_encoded_byte(byte: u8) -> Seq<char> {
    if is_unreserved(byte) {
        seq![byte as char]
    } else {
        seq!['%', hex_digit_upper(byte >> 4), hex_digit_upper(byte & 0x0f)]
    }
}

/// `bytes`, percent-encoded byte by byte.
pub open spec fn percent_encoded(bytes: Seq<u8>) -> Seq<char>
    decreases bytes.len(),
{
    if bytes.len() == 0 {
        Seq::empty()
    } else {
        percent_encoded(bytes.drop_last()) + percent_encoded_byte(bytes.last())
    }
}

/// `urlencoding::encode`: the UTF-8 bytes of `text`, each percent-encoded
/// unless it is unreserved.
#[verifier::external_body]
pub(crate) fn url_encode(text: &str) -> (encoded: String)
    ensures
        encoded@ == percent_encoded(encode_utf8(text@)),
{
    urlencoding::encode(text).into_owned()
}

/// "Not found" and "nothing there" are told apart: 404 from a lookup by
/// account or domain is an empty result, 404 from the lookup of one breach by
/// name is the error that the breach is not known, and at no endpoint is 404,
/// or any other code, both a failure and a result.
pub proof fn lemma_not_found_or_empty(endpoint: Endpoint, status: u16)
    ensures
        endpoint.not_found_is_empty() ==> endpoint.spec_disposition(404) == Disposition::Empty,
        endpoint == Endpoint::Breach ==> endpoint.spec_disposition(404) == Disposition::Fail(
            HibpError::NotFound,
        ),
        endpoint.spec_disposition(status) == Disposition::Decode <==> is_success(status),
        endpoint.spec_disposition(status) == Disposition::Empty <==> status == 404
            && endpoint.not_found_is_empty(),
        !is_success(status) && status != 404 ==> endpoint.spec_disposition(status)
            == Disposition::Fail(HibpError::Status(status)),
{
}

} // verus!
