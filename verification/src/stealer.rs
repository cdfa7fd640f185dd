//! Stealer logs: what they hold for a domain or an address, and the requests
//! that ask for it.

use vstd::prelude::*;
use crate::client::HaveIBeenPwned;
use crate::error::HibpError;
use crate::request::{Endpoint, Request};

verus! {

/// An email address found in stealer logs.
#[derive(Debug, Clone)]
pub struct StealerLogEmail {
    /// The email address.
    pub email: String,
}

/// An email alias found in stealer logs.
#[derive(Debug, Clone)]
pub struct StealerLogAlias {
    /// The alias.
    pub alias: String,
}

/// A website domain found in stealer logs for an email address.
#[derive(Debug, Clone)]
pub struct StealerLogDomain {
    /// The domain.
    pub domain: String,
}

impl HaveIBeenPwned {
    /// The request for the email addresses that stealer logs hold for the
    /// website `domain`. The answer holds a list of addresses; 404 stands for an
    /// empty list.
    pub fn get_stealer_log_emails_for_domain(&self, domain: &str) -> (request: Result<
        Request,
        HibpError,
    >)
        ensures
            self.has_valid_headers() ==> request is Ok && request->Ok_0@ == self.request_for(
                Endpoint::StealerLogEmails,
                domain@,
            ),
            !self.has_valid_headers() ==> request is Err && request->Err_0
                == HibpError::InvalidHeaderValue,
    {
        self.request(Endpoint::StealerLogEmails, domain)
    }

    /// The request for the aliases that stealer logs hold for the email
    /// `domain`. The answer holds a list of aliases; 404 stands for an empty
    /// list.
    pub fn get_stealer_log_aliases_for_domain(&self, domain: &str) -> (request: Result<
        Request,
        HibpError,
    >)
        ensures
            self.has_valid_headers() ==> request is Ok && request->Ok_0@ == self.request_for(
                Endpoint::StealerLogAliases,
                domain@,
            ),
            !self.has_valid_headers() ==> request is Err && request->Err_0
                == HibpError::InvalidHeaderValue,
    {
        self.request(Endpoint::StealerLogAliases, domain)
    }

    /// The request for the website domains that stealer logs hold for the
    /// address `email`. The answer holds a list of domains; 404 stands for an
    /// empty list.
    pub fn get_stealer_log_domains_for_email(&self, email: &str) -> (request: Result<
        Request,
        HibpError,
    >)
        ensures
            self.has_valid_headers() ==> request is Ok && request->Ok_0@ == self.request_for(
                Endpoint::StealerLogDomains,
                email@,
            ),
            !self.has_valid_headers() ==> request is Err && request->Err_0
                == HibpError::InvalidHeaderValue,
    {
        self.request(Endpoint::StealerLogDomains, email)
    }
}

} // verus!
