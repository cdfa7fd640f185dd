//! Pastes: the record of one, and the request that asks for them.

use vstd::prelude::*;
use crate::client::HaveIBeenPwned;
use crate::error::HibpError;
use crate::request::{Endpoint, Request};

verus! {

/// A paste, as the service describes it.
#[derive(Debug, Clone)]
pub struct Paste {
    /// Source of the paste, such as "Pastebin".
    pub source: String,
    /// ID of the paste.
    pub id: String,
    /// Title of the paste, if available.
    pub title: Option<String>,
    /// Date the paste was posted, if available.
    pub date: Option<String>,
    /// Number of emails found in the paste.
    pub email_count: u64,
}

impl HaveIBeenPwned {
    /// The request for all pastes that `account`, an email address, is in. The
    /// answer holds a list of pastes; 404 stands for an empty list.
    pub fn get_pastes_for_account(&self, account: &str) -> (request: Result<Request, HibpError>)
        ensures
            self.has_valid_headers() ==> request is Ok && request->Ok_0@ == self.request_for(
                Endpoint::PasteAccount,
                account@,
            ),
            !self.has_valid_headers() ==> request is Err && request->Err_0
                == HibpError::InvalidHeaderValue,
    {
        self.request(Endpoint::PasteAccount, account)
    }
}

} // verus!
