//! A sans-I/O core for clients of the Have I Been Pwned breach-notification
//! service.
//!
//! The crate sends nothing, reads no clock and never sleeps. It says which
//! request to make for each operation of the service, what the answer's status
//! means, what the body of a password range holds, and how long a paced client
//! has to wait before its next request. Whoever drives it does the transport
//! and the waiting.

pub mod breach;
pub mod client;
pub mod error;
pub mod hex;
pub mod password;
pub mod paste;
pub mod rate_limit;
pub mod request;
pub mod stealer;
pub mod subscription;
pub mod text;

pub use breach::Breach;
pub use client::HaveIBeenPwned;
pub use error::HibpError;
pub use password::{PasswordCheck, PwnedPassword};
pub use paste::Paste;
pub use rate_limit::RateLimiter;
pub use request::{Disposition, Endpoint, Header, Request};
pub use stealer::{StealerLogAlias, StealerLogDomain, StealerLogEmail};
pub use subscription::{SubscribedDomain, SubscriptionStatus};
