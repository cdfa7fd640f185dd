//! Breaches: the record of one, and the requests that ask for them.

use vstd::prelude::*;
use crate::client::HaveIBeenPwned;
use crate::error::HibpError;
use crate::request::{Endpoint, Request};

verus! {

/// A breach, as the service describes it.
#[derive(Debug, Clone)]
pub struct Breach {
    /// Name of the breach.
    pub name: String,
    /// Title of the breach.
    pub title: String,
    /// Domain associated with the breach.
    pub domain: String,
    /// Date the breach occurred.
    pub breach_date: String,
    /// Date the breach was added to the service.
    pub added_date: String,
    /// Date the breach was last modified.
    pub modified_date: String,
    /// Number of accounts affected.
    pub pwn_count: u64,
    /// Description of the breach.
    pub description: String,
    /// Path to the breach logo.
    pub logo_path: String,
    /// Data classes compromised in the breach.
    pub data_classes: Vec<String>,
    /// Whether the breach is verified.
    pub is_verified: bool,
    /// Whether the breach is fabricated.
    pub is_fabricated: bool,
    /// Whether the breach is sensitive.
    pub is_sensitive: bool,
    /// Whether the breach is retired.
    pub is_retired: bool,
    /// Whether the breach is a spam list.
    pub is_spam_list: bool,
    /// Whether the breach is related to malware.
    pub is_malware: bool,
    /// Whether the breach is a stealer log.
    pub is_stealer_log: bool,
    /// Whether the breach is subscription-free.
    pub is_subscription_free: bool,
}

impl HaveIBeenPwned {
    /// The request for all breaches that `account`, an email address, is in.
    /// The answer holds a list of breaches; 404 stands for an empty list.
    pub fn get_breaches_for_account(&self, account: &str) -> (request: Result<Request, HibpError>)
        ensures
            self.has_valid_headers() ==> request is Ok && request->Ok_0@ == self.request_for(
                Endpoint::BreachedAccount,
                account@,
            ),
            !self.has_valid_headers() ==> request is Err && request->Err_0
                == HibpError::InvalidHeaderValue,
    {
        self.request(Endpoint::BreachedAccount, account)
    }

    /// The request for all breaches in the system. The answer holds a list of
    /// breaches.
    pub fn get_all_breaches(&self) -> (request: Result<Request, HibpError>)
        ensures
            self.has_valid_headers() ==> request is Ok && request->Ok_0@ == self.request_for(
                Endpoint::Breaches,
                Seq::empty(),
            ),
            !self.has_valid_headers() ==> request is Err && request->Err_0
                == HibpError::InvalidHeaderValue,
    {
        let request = self.request(Endpoint::Breaches, "");
        assert(self.request_for(Endpoint::Breaches, ""@) == self.request_for(
            Endpoint::Breaches,
            Seq::empty(),
        ));
        request
    }

    /// The request for the breach called `name`. The answer holds one breach;
    /// 404 means that the service knows none of that name.
    pub fn get_breach_by_name(&self, name: &str) -> (request: Result<Request, HibpError>)
        ensures
            self.has_valid_headers() ==> request is Ok && request->Ok_0@ == self.request_for(
                Endpoint::Breach,
                name@,
            ),
            !self.has_valid_headers() ==> request is Err && request->Err_0
                == HibpError::InvalidHeaderValue,
    {
        self.request(Endpoint::Breach, name)
    }

    /// The request for the breach added most recently. The answer holds one
    /// breach.
    pub fn get_latest_breach(&self) -> (request: Result<Request, HibpError>)
        ensures
            self.has_valid_headers() ==> request is Ok && request->Ok_0@ == self.request_for(
                Endpoint::LatestBreach,
                Seq::empty(),
            ),
            !self.has_valid_headers() ==> request is Err && request->Err_0
                == HibpError::InvalidHeaderValue,
    {
        let request = self.request(Endpoint::LatestBreach, "");
        assert(self.request_for(Endpoint::LatestBreach, ""@) == self.request_for(
            Endpoint::LatestBreach,
            Seq::empty(),
        ));
        request
    }
}

} // verus!
