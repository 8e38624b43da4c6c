//! The registrable root of a host name.

use crate::error::{ErrorView, ForwardError};
use vstd::prelude::*;

verus! {

/// The registrable root of `hostname`, as the `addr` crate finds it: what
/// `addr::domain::Name::root` returns for the name that
/// `addr::parse_domain_name` makes of `hostname`, by the public suffix list.
/// There is none where the parser refuses `hostname` as a domain name, and
/// none where `hostname` is nothing but a public suffix.
pub uninterp spec fn registrable_root(hostname: Seq<char>) -> Option<Seq<char>>;

/// The text of an optional string.
pub open spec fn optional_text(s: Option<String>) -> Option<Seq<char>> {
    match s {
        Some(text) => Some(text@),
        None => None,
    }
}

/// Parses `hostname` with `addr::parse_domain_name` and asks the parsed name
/// for its `root()`. Trusted: the result is none where the parser refuses the
/// host name, and else whatever `root()` gives, copied into a `String`.
#[verifier::external_body]
fn lookup_root(hostname: &str) -> (root: Option<String>)
    ensures
        optional_text(root) == registrable_root(hostname@),
{
    match addr::parse_domain_name(hostname) {
        Ok(name) => match name.root() {
            Some(root) => Some(root.to_string()),
            None => None,
        },
        Err(_) => None,
    }
}

/// What a lookup of the root means for the cycle: the root where one was
/// found, and `InvalidDomain` where none was.
pub fn root_or_invalid(found: Option<String>) -> (r: Result<String, ForwardError>)
    ensures
        match found {
            Some(root) => r matches Ok(text) && text@ == root@,
            None => r matches Err(e) && e@ == ErrorView::InvalidDomain,
        },
{
    match found {
        Some(root) => Ok(root),
        None => Err(ForwardError::InvalidDomain),
    }
}

/// The registrable root domain of `hostname`, such as `example.com` for
/// `mail.example.com`. Fails with `InvalidDomain` where `hostname` is no
/// syntactically valid domain name (an IP address is none), and where it has
/// no registrable root.
pub fn root_domain(hostname: &str) -> (r: Result<String, ForwardError>)
    ensures
        match r {
            Ok(root) => registrable_root(hostname@) == Some(root@),
            Err(e) => registrable_root(hostname@) is None && e@ == ErrorView::InvalidDomain,
        },
{
    root_or_invalid(lookup_root(hostname))
}

} // verus!
