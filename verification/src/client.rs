//! The client: its configuration, the headers every request carries, and the
//! request for each operation of the service.

use vstd::prelude::*;
use vstd::string::StringExecFns;
use vstd::utf8::encode_utf8;
use crate::error::HibpError;
use crate::rate_limit::{required_wait, RateLimiter};
use crate::request::{
    header_value_accepted, is_header_value, url_encode, Endpoint, Header, Request, RequestView,
};
use crate::text::trim;

verus! {

/// The user agent of a client that was given no other.
pub const DEFAULT_USER_AGENT: &'static str = "hibp-rs";

/// The base URL of the service.
pub const DEFAULT_BASE_URL: &'static str = "https://haveibeenpwned.com/api/v3";

/// The base URL of the password service, which answers range queries.
pub const PASSWORD_API_URL: &'static str = "https://api.pwnedpasswords.com";

/// The header that carries the API key.
pub const API_KEY_HEADER: &'static str = "hibp-api-key";

/// The header that carries the user agent.
pub const USER_AGENT_HEADER: &'static str = "user-agent";

/// The header that asks the password service for padding.
pub const PADDING_HEADER: &'static str = "Add-Padding";

/// The value that switches padding on.
pub const PADDING_ON: &'static str = "true";

/// A client of the service: what it sends with every request, and its pace.
#[derive(Debug)]
pub struct HaveIBeenPwned {
    /// The API key.
    pub api_key: String,
    /// The user agent sent with requests.
    pub user_agent: String,
    /// The base URL of the service.
    pub base_url: String,
    /// The pace of the client's requests; `None` for a client that is not paced.
    pub rate_limiter: Option<RateLimiter>,
}

impl HaveIBeenPwned {
    /// Whether the client's API key and user agent can both be sent as headers.
    pub open spec fn has_valid_headers(&self) -> bool {
        is_header_value(encode_utf8(self.api_key@)) && is_header_value(
            encode_utf8(self.user_agent@),
        )
    }

    /// The two headers that every request carries: the API key, then the user agent.
    pub open spec fn common_headers(&self) -> Seq<(Seq<char>, Seq<char>)> {
        seq![(API_KEY_HEADER@, self.api_key@), (USER_AGENT_HEADER@, self.user_agent@)]
    }

    /// The headers of a request to `endpoint`: the common ones, and for a
    /// padded range query the one that asks for padding.
    pub open spec fn headers_for(&self, endpoint: Endpoint) -> Seq<(Seq<char>, Seq<char>)> {
        if endpoint == Endpoint::PasswordRangePadded {
            self.common_headers().push((PADDING_HEADER@, PADDING_ON@))
        } else {
            self.common_headers()
        }
    }

    /// The base URL that `endpoint` lives under.
    pub open spec fn base_for(&self, endpoint: Endpoint) -> Seq<char> {
        if endpoint.is_password_range() {
            PASSWORD_API_URL@
        } else {
            self.base_url@
        }
    }

    /// Whether the client has `api_key` as its key and is otherwise as a new
    /// client is, its limiter aside.
    pub open spec fn has_defaults(&self, api_key: Seq<char>) -> bool {
        &&& self.api_key@ == api_key
        &&& self.user_agent@ == DEFAULT_USER_AGENT@
        &&& self.base_url@ == DEFAULT_BASE_URL@
    }

    /// Whether the client is paced at `rpm` requests per minute, with its last
    /// request at `last`.
    pub open spec fn is_paced(&self, rpm: int, last: int) -> bool {
        &&& self.rate_limiter is Some
        &&& self.rate_limiter->Some_0.rpm() == rpm
        &&& self.rate_limiter->Some_0.last_request() == last
    }

    /// How long a call that arrives at `now` has to wait: what the limiter
    /// asks for, and nothing in a client that is not paced.
    pub open spec fn pacing_wait(&self, now: int) -> int {
        match self.rate_limiter {
            Some(limiter) => required_wait(limiter.rpm(), limiter.last_request(), now),
            None => 0,
        }
    }

    /// The request that this client sends to `endpoint` for `argument`.
    pub open spec fn request_for(&self, endpoint: Endpoint, argument: Seq<char>) -> RequestView {
        RequestView {
            endpoint,
            url: endpoint.spec_url(self.base_for(endpoint), argument),
            headers: self.headers_for(endpoint),
        }
    }

    /// A client that is not paced.
    pub fn new(api_key: &str) -> (client: HaveIBeenPwned)
        ensures
            client.has_defaults(api_key@),
            client.rate_limiter is None,
    {
        HaveIBeenPwned {
            api_key: String::from_str(api_key),
            user_agent: String::from_str(DEFAULT_USER_AGENT),
            base_url: String::from_str(DEFAULT_BASE_URL),
            rate_limiter: None,
        }
    }

    /// A client paced at `rpm` requests per minute, made at `now`. A rate that
    /// is not positive is refused.
    pub fn new_with_rate_limit(api_key: &str, rpm: i32, now: u64) -> (client: Result<
        HaveIBeenPwned,
        HibpError,
    >)
        ensures
            rpm <= 0 ==> client is Err && client->Err_0 == HibpError::InvalidRateLimit,
            rpm > 0 ==> client is Ok && client->Ok_0.has_defaults(api_key@) && client->Ok_0.is_paced(
                rpm as int,
                now as int,
            ),
    {
        match RateLimiter::new(rpm, now) {
            Ok(limiter) => Ok(
                HaveIBeenPwned {
                    api_key: String::from_str(api_key),
                    user_agent: String::from_str(DEFAULT_USER_AGENT),
                    base_url: String::from_str(DEFAULT_BASE_URL),
                    rate_limiter: Some(limiter),
                },
            ),
            Err(e) => Err(e),
        }
    }

    /// The same client with `user_agent` as its user agent.
    pub fn with_user_agent(self, user_agent: &str) -> (client: HaveIBeenPwned)
        ensures
            client.user_agent@ == user_agent@,
            client.api_key == self.api_key,
            client.base_url == self.base_url,
            client.rate_limiter == self.rate_limiter,
    {
        let mut client = self;
        client.user_agent = String::from_str(user_agent);
        client
    }

    /// The configured rate in requests per minute, for a client that is paced.
    pub fn get_rpm(&self) -> (rpm: Option<i32>)
        ensures
            rpm is Some <==> self.rate_limiter is Some,
            rpm is Some ==> rpm->Some_0 == self.rate_limiter->Some_0.rpm() && rpm->Some_0 > 0,
    {
        match &self.rate_limiter {
            Some(limiter) => Some(limiter.get_rpm()),
            None => None,
        }
    }

    /// How many nanoseconds a call that arrives at `now` has to wait before its
    /// request may start: what the limiter says, and nothing for a client that
    /// is not paced.
    pub fn wait_if_needed(&self, now: u64) -> (wait: u64)
        ensures
            wait == self.pacing_wait(now as int),
    {
        match &self.rate_limiter {
            Some(limiter) => limiter.wait_if_needed(now),
            None => 0,
        }
    }

    /// Marks a request that starts at `now`. Changes nothing in a client that
    /// is not paced.
    pub fn mark_request(&mut self, now: u64)
        ensures
            final(self).api_key == old(self).api_key,
            final(self).user_agent == old(self).user_agent,
            final(self).base_url == old(self).base_url,
            old(self).rate_limiter is None ==> final(self).rate_limiter is None,
            old(self).rate_limiter is Some ==> final(self).is_paced(
                old(self).rate_limiter->Some_0.rpm(),
                now as int,
            ),
    {
        match &mut self.rate_limiter {
            Some(limiter) => {
                limiter.mark_request(now);
            },
            None => {},
        }
    }

    /// The two headers that every request carries. Fails when the API key or
    /// the user agent cannot be sent as a header's value.
    pub fn create_headers(&self) -> (headers: Result<Vec<Header>, HibpError>)
        ensures
            self.has_valid_headers() ==> headers is Ok && headers->Ok_0.deep_view()
                == self.common_headers(),
            !self.has_valid_headers() ==> headers is Err && headers->Err_0
                == HibpError::InvalidHeaderValue,
    {
        if !header_value_accepted(self.api_key.as_str()) {
            return Err(HibpError::InvalidHeaderValue);
        }
        if !header_value_accepted(self.user_agent.as_str()) {
            return Err(HibpError::InvalidHeaderValue);
        }
        let mut headers: Vec<Header> = Vec::new();
        headers.push(
            Header { name: String::from_str(API_KEY_HEADER), value: self.api_key.clone() },
        );
        headers.push(
            Header { name: String::from_str(USER_AGENT_HEADER), value: self.user_agent.clone() },
        );
        assert(headers.deep_view() =~= self.common_headers());
        Ok(headers)
    }

    /// The request that this client sends to `endpoint` for `argument`. Fails
    /// when the API key or the user agent cannot be sent as a header's value.
    pub(crate) fn request(&self, endpoint: Endpoint, argument: &str) -> (request: Result<
        Request,
        HibpError,
    >)
        ensures
            self.has_valid_headers() ==> request is Ok && request->Ok_0@ == self.request_for(
                endpoint,
                argument@,
            ),
            !self.has_valid_headers() ==> request is Err && request->Err_0
                == HibpError::InvalidHeaderValue,
    {
        let mut headers = match self.create_headers() {
            Ok(headers) => headers,
            Err(e) => {
                return Err(e);
            },
        };
        let mut url = String::new();
        match endpoint {
            Endpoint::PasswordRange | Endpoint::PasswordRangePadded => {
                url.append(PASSWORD_API_URL);
                url.append(endpoint.path());
                url.append(argument);
            },
            Endpoint::BreachedAccount
            | Endpoint::Breach
            | Endpoint::PasteAccount
            | Endpoint::StealerLogEmails
            | Endpoint::StealerLogAliases
            | Endpoint::StealerLogDomains => {
                let subject = trim(argument);
                let encoded = url_encode(subject.as_str());
                url.append(self.base_url.as_str());
                url.append(endpoint.path());
                url.append(encoded.as_str());
                url.append(endpoint.query());
            },
            _ => {
                url.append(self.base_url.as_str());
                url.append(endpoint.path());
            },
        }
        match endpoint {
            Endpoint::PasswordRangePadded => {
                headers.push(
                    Header {
                        name: String::from_str(PADDING_HEADER),
                        value: String::from_str(PADDING_ON),
                    },
                );
            },
            _ => {},
        }
        let request = Request { endpoint, url, headers };
        assert(request@.headers =~= self.headers_for(endpoint));
        assert(request@.url =~= endpoint.spec_url(self.base_for(endpoint), argument@));
        Ok(request)
    }
}

} // verus!
