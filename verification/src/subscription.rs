//! The subscription behind an API key: its state, its domains, and the
//! client paced by the rate that it allows.

use vstd::prelude::*;
use crate::client::HaveIBeenPwned;
use crate::error::HibpError;
use crate::request::{Endpoint, Request};

verus! {

/// The state of a subscription, as the service describes it.
#[derive(Debug, Clone)]
pub struct SubscriptionStatus {
    /// Name of the subscription.
    pub subscription_name: String,
    /// Description of the subscription.
    pub description: String,
    /// Date until which the subscription is valid.
    pub subscribed_until: String,
    /// The rate that the subscription allows, in requests per minute.
    pub rpm: i32,
    /// The size of the largest domain that the subscription can search.
    pub domain_search_max_breached_accounts: i32,
    /// Whether the subscription includes stealer logs.
    pub includes_stealer_logs: bool,
}

/// A domain that an API key is subscribed to.
#[derive(Debug, Clone)]
pub struct SubscribedDomain {
    /// The domain name.
    pub domain_name: String,
    /// The date the domain was added.
    pub date_added: String,
    /// The date the domain subscription expires.
    pub date_expires: String,
}

impl HaveIBeenPwned {
    /// The request for the state of the subscription. The answer holds one
    /// subscription status.
    pub fn get_subscription_status(&self) -> (request: Result<Request, HibpError>)
        ensures
            self.has_valid_headers() ==> request is Ok && request->Ok_0@ == self.request_for(
                Endpoint::SubscriptionStatus,
                Seq::empty(),
            ),
            !self.has_valid_headers() ==> request is Err && request->Err_0
                == HibpError::InvalidHeaderValue,
    {
        let request = self.request(Endpoint::SubscriptionStatus, "");
        assert(self.request_for(Endpoint::SubscriptionStatus, ""@) == self.request_for(
            Endpoint::SubscriptionStatus,
            Seq::empty(),
        ));
        request
    }

    /// The request for all domains that the API key is subscribed to. The
    /// answer holds a list of domains.
    pub fn get_all_subscribed_domains(&self) -> (request: Result<Request, HibpError>)
        ensures
            self.has_valid_headers() ==> request is Ok && request->Ok_0@ == self.request_for(
                Endpoint::SubscribedDomains,
                Seq::empty(),
            ),
            !self.has_valid_headers() ==> request is Err && request->Err_0
                == HibpError::InvalidHeaderValue,
    {
        let request = self.request(Endpoint::SubscribedDomains, "");
        assert(self.request_for(Endpoint::SubscribedDomains, ""@) == self.request_for(
            Endpoint::SubscribedDomains,
            Seq::empty(),
        ));
        request
    }

    /// A client paced at the rate that `status` allows, made at `now`: `status`
    /// is what the service answered a client without a limiter that asked for
    /// the subscription's state. A rate that is not positive is refused.
    pub fn new_with_auto_rate_limit(api_key: &str, status: &SubscriptionStatus, now: u64) -> (client:
        Result<HaveIBeenPwned, HibpError>)
        ensures
            status.rpm <= 0 ==> client is Err && client->Err_0 == HibpError::InvalidRateLimit,
            status.rpm > 0 ==> client is Ok && client->Ok_0.has_defaults(api_key@)
                && client->Ok_0.is_paced(status.rpm as int, now as int),
    {
        HaveIBeenPwned::new_with_rate_limit(api_key, status.rpm, now)
    }
}

} // verus!
