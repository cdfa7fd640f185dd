use hibp_rs::{Disposition, Endpoint, HaveIBeenPwned, HibpError, Request};

const ALL: [Endpoint; 12] = [
    Endpoint::BreachedAccount,
    Endpoint::Breaches,
    Endpoint::Breach,
    Endpoint::LatestBreach,
    Endpoint::SubscribedDomains,
    Endpoint::SubscriptionStatus,
    Endpoint::PasteAccount,
    Endpoint::StealerLogEmails,
    Endpoint::StealerLogAliases,
    Endpoint::StealerLogDomains,
    Endpoint::PasswordRange,
    Endpoint::PasswordRangePadded,
];

const BY_ACCOUNT_OR_DOMAIN: [Endpoint; 5] = [
    Endpoint::BreachedAccount,
    Endpoint::PasteAccount,
    Endpoint::StealerLogEmails,
    Endpoint::StealerLogAliases,
    Endpoint::StealerLogDomains,
];

fn client() -> HaveIBeenPwned {
    HaveIBeenPwned::new("key").with_user_agent("agent")
}

fn has_common_headers(request: &Request) {
    assert_eq!(request.headers.len(), 2);
    assert_eq!(request.headers[0].name, "hibp-api-key");
    assert_eq!(request.headers[0].value, "key");
    assert_eq!(request.headers[1].name, "user-agent");
    assert_eq!(request.headers[1].value, "agent");
}

#[test]
fn test_not_active_breach_returns_no_breaches() {
    let hibp = client();
    let request = hibp
        .get_breaches_for_account("not-active-breach@hibp-integration-tests.com")
        .unwrap();
    assert_eq!(
        request.url,
        "https://haveibeenpwned.com/api/v3/breachedaccount/not-active-breach%40hibp-integration-tests.com?truncateResponse=false"
    );
    // the service answers 404 for an account that is in no active breach
    assert_eq!(request.endpoint.disposition(404), Disposition::Empty);
}

#[test]
fn breaches_for_account_request() {
    let request = client().get_breaches_for_account("test@example.com").unwrap();
    assert_eq!(request.endpoint, Endpoint::BreachedAccount);
    assert_eq!(
        request.url,
        "https://haveibeenpwned.com/api/v3/breachedaccount/test%40example.com?truncateResponse=false"
    );
    has_common_headers(&request);
}

#[test]
fn argument_is_trimmed_then_percent_encoded() {
    let request = client()
        .get_breaches_for_account(" account-exists@hibp-integration-tests.com \n")
        .unwrap();
    assert_eq!(
        request.url,
        "https://haveibeenpwned.com/api/v3/breachedaccount/account-exists%40hibp-integration-tests.com?truncateResponse=false"
    );
    let request = client().get_breach_by_name("\ta b/\u{e7}~_.-\u{a0}").unwrap();
    assert_eq!(request.url, "https://haveibeenpwned.com/api/v3/breach/a%20b%2F%C3%A7~_.-");
    let request = client().get_breach_by_name("  ").unwrap();
    assert_eq!(request.url, "https://haveibeenpwned.com/api/v3/breach/");
}

#[test]
fn percent_encoding_keeps_only_unreserved_bytes() {
    let request = client()
        .get_pastes_for_account("AZaz09-._~ !\"#$%&'()*+,/:;<=>?@[\\]^`{|}\u{7f}")
        .unwrap();
    assert_eq!(
        request.url,
        "https://haveibeenpwned.com/api/v3/pasteaccount/AZaz09-._~%20%21%22%23%24%25%26%27%28%29%2A%2B%2C%2F%3A%3B%3C%3D%3E%3F%40%5B%5C%5D%5E%60%7B%7C%7D%7F"
    );
    let request = client().get_pastes_for_account("\u{20ac}\u{1f600}").unwrap();
    assert_eq!(
        request.url,
        "https://haveibeenpwned.com/api/v3/pasteaccount/%E2%82%AC%F0%9F%98%80"
    );
}

#[test]
fn all_breaches_request() {
    let request = client().get_all_breaches().unwrap();
    assert_eq!(request.endpoint, Endpoint::Breaches);
    assert_eq!(request.url, "https://haveibeenpwned.com/api/v3/breaches");
    has_common_headers(&request);
}

#[test]
fn breach_by_name_request() {
    let request = client().get_breach_by_name("Adobe").unwrap();
    assert_eq!(request.endpoint, Endpoint::Breach);
    assert_eq!(request.url, "https://haveibeenpwned.com/api/v3/breach/Adobe");
    has_common_headers(&request);
}

#[test]
fn latest_breach_request() {
    let request = client().get_latest_breach().unwrap();
    assert_eq!(request.endpoint, Endpoint::LatestBreach);
    assert_eq!(request.url, "https://haveibeenpwned.com/api/v3/latestbreach");
    has_common_headers(&request);
}

#[test]
fn subscribed_domains_request() {
    let request = client().get_all_subscribed_domains().unwrap();
    assert_eq!(request.endpoint, Endpoint::SubscribedDomains);
    assert_eq!(request.url, "https://haveibeenpwned.com/api/v3/subscribed");
    has_common_headers(&request);
}

#[test]
fn subscription_status_request() {
    let request = client().get_subscription_status().unwrap();
    assert_eq!(request.endpoint, Endpoint::SubscriptionStatus);
    assert_eq!(request.url, "https://haveibeenpwned.com/api/v3/subscription/status");
    has_common_headers(&request);
}

#[test]
fn pastes_for_account_request() {
    let request = client().get_pastes_for_account("test@example.com").unwrap();
    assert_eq!(request.endpoint, Endpoint::PasteAccount);
    assert_eq!(
        request.url,
        "https://haveibeenpwned.com/api/v3/pasteaccount/test%40example.com"
    );
    has_common_headers(&request);
}

#[test]
fn stealer_log_requests() {
    let request = client().get_stealer_log_emails_for_domain("example.com").unwrap();
    assert_eq!(request.endpoint, Endpoint::StealerLogEmails);
    assert_eq!(request.url, "https://haveibeenpwned.com/api/v3/stealerlog/domain/example.com");
    has_common_headers(&request);

    let request = client().get_stealer_log_aliases_for_domain("example.com").unwrap();
    assert_eq!(request.endpoint, Endpoint::StealerLogAliases);
    assert_eq!(request.url, "https://haveibeenpwned.com/api/v3/stealerlog/alias/example.com");
    has_common_headers(&request);

    let request = client().get_stealer_log_domains_for_email("test@example.com").unwrap();
    assert_eq!(request.endpoint, Endpoint::StealerLogDomains);
    assert_eq!(
        request.url,
        "https://haveibeenpwned.com/api/v3/stealerlog/email/test%40example.com"
    );
    has_common_headers(&request);
}

#[test]
fn requests_follow_the_base_url() {
    let mut hibp = client();
    hibp.base_url = String::from("http://localhost:8080");
    assert_eq!(hibp.get_all_breaches().unwrap().url, "http://localhost:8080/breaches");
    assert_eq!(
        hibp.get_breach_by_name("Adobe").unwrap().url,
        "http://localhost:8080/breach/Adobe"
    );
    // the password service has an address of its own
    assert_eq!(
        hibp.search_password_range("CBFDA").unwrap().url,
        "https://api.pwnedpasswords.com/range/CBFDA"
    );
}

#[test]
fn every_request_fails_on_a_key_that_is_no_header_value() {
    let hibp = HaveIBeenPwned::new("bad\nkey");
    let made = [
        hibp.get_breaches_for_account("a"),
        hibp.get_all_breaches(),
        hibp.get_breach_by_name("a"),
        hibp.get_latest_breach(),
        hibp.get_all_subscribed_domains(),
        hibp.get_subscription_status(),
        hibp.get_pastes_for_account("a"),
        hibp.get_stealer_log_emails_for_domain("a"),
        hibp.get_stealer_log_aliases_for_domain("a"),
        hibp.get_stealer_log_domains_for_email("a"),
        hibp.search_password_range("CBFDA"),
        hibp.search_password_range_padded("CBFDA"),
    ];
    for request in made {
        assert_eq!(request.unwrap_err(), HibpError::InvalidHeaderValue);
    }
    assert_eq!(hibp.check_password("a").unwrap_err(), HibpError::InvalidHeaderValue);
    assert_eq!(hibp.check_password_padded("a").unwrap_err(), HibpError::InvalidHeaderValue);
}

#[test]
fn success_is_decoded_at_every_endpoint() {
    for endpoint in ALL {
        for status in [200u16, 201, 204, 299] {
            assert_eq!(endpoint.disposition(status), Disposition::Decode);
        }
    }
}

#[test]
fn not_found_is_empty_for_lookups_by_account_or_domain() {
    for endpoint in BY_ACCOUNT_OR_DOMAIN {
        assert_eq!(endpoint.disposition(404), Disposition::Empty);
    }
}

#[test]
fn not_found_is_an_error_for_a_breach_by_name() {
    assert_eq!(
        Endpoint::Breach.disposition(404),
        Disposition::Fail(HibpError::NotFound)
    );
}

#[test]
fn not_found_is_a_failed_status_elsewhere() {
    for endpoint in [
        Endpoint::Breaches,
        Endpoint::LatestBreach,
        Endpoint::SubscribedDomains,
        Endpoint::SubscriptionStatus,
        Endpoint::PasswordRange,
        Endpoint::PasswordRangePadded,
    ] {
        assert_eq!(
            endpoint.disposition(404),
            Disposition::Fail(HibpError::Status(404))
        );
    }
}

#[test]
fn other_codes_fail_with_the_code_at_every_endpoint() {
    for endpoint in ALL {
        for status in [0u16, 100, 199, 300, 301, 400, 401, 403, 405, 429, 500, 503, 999, u16::MAX] {
            assert_eq!(
                endpoint.disposition(status),
                Disposition::Fail(HibpError::Status(status))
            );
        }
    }
}

#[test]
fn paths_and_queries() {
    assert_eq!(Endpoint::BreachedAccount.path(), "/breachedaccount/");
    assert_eq!(Endpoint::BreachedAccount.query(), "?truncateResponse=false");
    assert_eq!(Endpoint::Breach.path(), "/breach/");
    assert_eq!(Endpoint::Breach.query(), "");
    assert_eq!(Endpoint::PasswordRange.path(), "/range/");
    assert_eq!(Endpoint::PasswordRangePadded.path(), "/range/");
    assert_eq!(Endpoint::SubscriptionStatus.path(), "/subscription/status");
}
