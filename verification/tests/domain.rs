use mail_forwarder::domain::{root_domain, root_or_invalid};
use mail_forwarder::error::ForwardError;

#[test]
fn root_of_a_subdomain() {
    assert_eq!(root_domain("mail.example.com"), Ok("example.com".to_string()));
}

#[test]
fn root_of_an_ip_literal_is_refused() {
    assert_eq!(root_domain("203.0.113.5"), Err(ForwardError::InvalidDomain));
}

#[test]
fn root_of_a_root_is_itself() {
    assert_eq!(root_domain("example.com"), Ok("example.com".to_string()));
}

#[test]
fn root_under_a_two_part_suffix() {
    assert_eq!(root_domain("imap.mail.example.co.uk"), Ok("example.co.uk".to_string()));
}

#[test]
fn a_bare_suffix_has_no_root() {
    assert_eq!(root_domain("com"), Err(ForwardError::InvalidDomain));
    assert_eq!(root_domain("co.uk"), Err(ForwardError::InvalidDomain));
}

#[test]
fn malformed_host_names_are_refused() {
    assert_eq!(root_domain(""), Err(ForwardError::InvalidDomain));
    assert_eq!(root_domain("mail..example.com"), Err(ForwardError::InvalidDomain));
    assert_eq!(root_domain("not a host"), Err(ForwardError::InvalidDomain));
    assert_eq!(root_domain("-bad-.example.com"), Err(ForwardError::InvalidDomain));
}

#[test]
fn the_root_is_not_the_host_name_handed_back() {
    let host = "a.b.c.example.org";
    let root = root_domain(host).unwrap();
    assert_ne!(root, host);
    assert_eq!(root, "example.org");
}

#[test]
fn a_lookup_without_result_is_an_invalid_domain() {
    assert_eq!(root_or_invalid(None), Err(ForwardError::InvalidDomain));
    assert_eq!(root_or_invalid(Some("example.com".to_string())), Ok("example.com".to_string()));
}
