//! What this library takes on trust from the crates `url` and `linkify`.
//!
//! Nothing here is proved. Each result gets a name, and the contracts of the
//! library speak of the results by these names.

use linkify::LinkFinder;
use url::{Host, Url};
use vstd::prelude::*;

verus! {

/// The host of the URL that `url` is read as, where that host is a domain
/// name. It is `None` where `url` is not read as an absolute URL, where the
/// URL has no host, and where its host is an IP address.
pub uninterp spec fn url_domain(url: Seq<char>) -> Option<Seq<char>>;

/// The links that are found in `text`, in the order in which they stand
/// there.
pub uninterp spec fn links_in(text: Seq<char>) -> Seq<Seq<char>>;

/// Parses `url` with `url::Url::parse` and asks the URL for its host with
/// `url::Url::host`. A failed parse, a URL without a host and a host that is
/// an IPv4 or IPv6 address all give `None`; a domain name is handed out as
/// the parser wrote it. The contract claims only that the outcome is the one
/// named [`url_domain`], which is to say that it depends on `url` alone.
#[verifier::external_body]
pub(crate) fn domain_of(url: &str) -> (host: Option<String>)
    ensures
        host.deep_view() == url_domain(url@),
{
    match Url::parse(url) {
        Ok(parsed) => match parsed.host() {
            Some(Host::Domain(name)) => Some(name.to_owned()),
            Some(Host::Ipv4(_)) => None,
            Some(Host::Ipv6(_)) => None,
            None => None,
        },
        Err(_) => None,
    }
}

/// Scans `text` with `linkify::LinkFinder::links`, on a finder made by
/// `linkify::LinkFinder::new`, and copies out the text of each link with
/// `linkify::Link::as_str`. The contract claims only that the outcome is the
/// one named [`links_in`], which is to say that it depends on `text` alone.
#[verifier::external_body]
pub(crate) fn find_links(text: &str) -> (links: Vec<String>)
    ensures
        links.deep_view() == links_in(text@),
{
    LinkFinder::new().links(text).map(|link| link.as_str().to_owned()).collect()
}

} // verus!
