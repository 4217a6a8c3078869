//! The look-alike policy: which protected domain, if any, a host name
//! imitates.

use crate::distance::{edit_distance, levenshtein_distance};
use crate::edits::{edit_chain, lemma_chain_is_long_enough, lemma_chain_of_distance};
use crate::metric::{lemma_distance_to_self, lemma_distance_zero};
use crate::trusted::{domain_of, url_domain};
use vstd::prelude::*;
use vstd::utf8::{encode_utf8, encode_utf8_decode_utf8};

verus! {

/// The domains that are protected unless the caller names others.
///
/// A list of sites is read in its order and never changed. Its entries are
/// compared byte by byte with a host as the URL parser wrote it, so each
/// should be a host name in lower case, without scheme or path.
pub const SITES: [&'static str; 4] = ["www.reddit.com", "discord.com", "www.youtube.com", "discord.gift"];

/// A host this many edits or more away from a site is too different from it
/// to be taken for it.
pub const TOO_FAR: usize = 4;

/// The policy on a distance: a name is a near miss of another where at least
/// one edit lies between them and fewer than [`TOO_FAR`].
pub open spec fn near_miss(distance: nat) -> bool {
    0 < distance < TOO_FAR
}

/// Tells whether `distance` is that of a near miss.
pub fn is_near_miss(distance: usize) -> (yes: bool)
    ensures
        yes == near_miss(distance as nat),
{
    distance != 0 && distance < TOO_FAR
}

/// `host` is close to `site` without being `site`: the distance between
/// their bytes is that of a near miss.
pub open spec fn resembles(host: Seq<char>, site: Seq<char>) -> bool {
    near_miss(edit_distance(encode_utf8(host), encode_utf8(site)))
}

/// The first of `sites` that `host` resembles, if there is one.
pub open spec fn first_lookalike(host: Seq<char>, sites: Seq<Seq<char>>) -> Option<Seq<char>>
    decreases sites.len(),
{
    if sites.len() == 0 {
        None
    } else if resembles(host, sites.first()) {
        Some(sites.first())
    } else {
        first_lookalike(host, sites.drop_first())
    }
}

/// Scans `sites` in order for one that `host` resembles and returns the first.
pub fn find_lookalike(host: &str, sites: &[&str]) -> (verdict: Option<String>)
    ensures
        verdict.deep_view() == first_lookalike(host@, sites.deep_view()),
{
    let ghost all = sites.deep_view();
    assert(all.skip(0) == all);
    let mut i: usize = 0;
    while i < sites.len()
        invariant
            i <= sites.len(),
            all == sites.deep_view(),
            first_lookalike(host@, all) == first_lookalike(host@, all.skip(i as int)),
        decreases sites.len() - i,
    {
        let site: &str = sites[i];
        let dist = levenshtein_distance(host.as_bytes(), site.as_bytes());
        proof {
            assert(all.skip(i as int).first() == site@);
            assert(all.skip(i as int).drop_first() == all.skip(i + 1));
        }
        if is_near_miss(dist) {
            return Some(site.to_owned());
        }
        i += 1;
    }
    None
}

/// What a scan of `sites` reports of `url`: the first site that the host of
/// `url` resembles, and nothing where `url` has no domain name for a host.
pub open spec fn url_verdict(url: Seq<char>, sites: Seq<Seq<char>>) -> Option<Seq<char>> {
    match url_domain(url) {
        Some(host) => first_lookalike(host, sites),
        None => None,
    }
}

/// Tells whether `url` imitates one of `sites`, and which.
///
/// Text that is no URL, a URL without a host and a URL whose host is an IP
/// address imitate nothing. The verdict is a function of `url` and `sites`.
pub fn check_pishing(url: &str, sites: &[&str]) -> (verdict: Option<String>)
    ensures
        verdict.deep_view() == url_verdict(url@, sites.deep_view()),
{
    match domain_of(url) {
        Some(host) => find_lookalike(host.as_str(), sites),
        None => None,
    }
}

/// The verdict of a scan is the first of the sites that the host resembles,
/// and there is none only where the host resembles none of them.
pub proof fn lemma_first_lookalike(host: Seq<char>, sites: Seq<Seq<char>>)
    ensures
        match first_lookalike(host, sites) {
            Some(site) => exists|i: int|
                {
                    &&& 0 <= i < sites.len()
                    &&& #[trigger] sites[i] == site
                    &&& resembles(host, site)
                    &&& forall|j: int| 0 <= j < i ==> !resembles(host, #[trigger] sites[j])
                },
            None => forall|j: int| 0 <= j < sites.len() ==> !resembles(host, #[trigger] sites[j]),
        },
    decreases sites.len(),
{
    if sites.len() > 0 && !resembles(host, sites.first()) {
        let rest = sites.drop_first();
        lemma_first_lookalike(host, rest);
        match first_lookalike(host, rest) {
            Some(site) => {
                let i = choose|i: int|
                    {
                        &&& 0 <= i < rest.len()
                        &&& #[trigger] rest[i] == site
                        &&& resembles(host, site)
                        &&& forall|j: int| 0 <= j < i ==> !resembles(host, #[trigger] rest[j])
                    };
                assert(sites[i + 1] == site);
                assert forall|j: int| 0 <= j < i + 1 implies !resembles(
                    host,
                    #[trigger] sites[j],
                ) by {
                    if j > 0 {
                        assert(sites[j] == rest[j - 1]);
                    }
                }
            },
            None => {
                assert forall|j: int| 0 <= j < sites.len() implies !resembles(
                    host,
                    #[trigger] sites[j],
                ) by {
                    if j > 0 {
                        assert(sites[j] == rest[j - 1]);
                    }
                }
            },
        }
    } else if sites.len() > 0 {
        assert(sites[0] == sites.first());
    }
}

/// Two names are at distance zero only where they are one name: the bytes
/// of a name tell which name it is.
pub proof fn lemma_distance_zero_is_same_name(host: Seq<char>, site: Seq<char>)
    ensures
        edit_distance(encode_utf8(host), encode_utf8(site)) == 0 <==> host == site,
{
    lemma_distance_zero(encode_utf8(host), encode_utf8(site));
    encode_utf8_decode_utf8(host);
    encode_utf8_decode_utf8(site);
}

/// A host resembles a site where it is another name and one, two or three
/// edits lead from its bytes to those of the site.
pub proof fn lemma_resembles_is_few_edits(host: Seq<char>, site: Seq<char>)
    ensures
        resembles(host, site) <==> host != site && exists|steps: Seq<Seq<u8>>|
            steps.len() <= TOO_FAR && #[trigger] edit_chain(
                steps,
                encode_utf8(host),
                encode_utf8(site),
            ),
{
    let from = encode_utf8(host);
    let to = encode_utf8(site);
    lemma_distance_zero_is_same_name(host, site);
    if resembles(host, site) {
        let steps = lemma_chain_of_distance(from, to);
        assert(steps.len() <= TOO_FAR && edit_chain(steps, from, to));
    }
    if exists|steps: Seq<Seq<u8>>| steps.len() <= TOO_FAR && #[trigger] edit_chain(steps, from, to) {
        let steps = choose|steps: Seq<Seq<u8>>|
            steps.len() <= TOO_FAR && #[trigger] edit_chain(steps, from, to);
        lemma_chain_is_long_enough(steps, from, to);
    }
}

/// No name resembles itself: at distance zero there is nothing to warn of.
pub proof fn lemma_same_name_is_no_lookalike(host: Seq<char>)
    ensures
        !resembles(host, host),
{
    lemma_distance_to_self(encode_utf8(host));
}

/// A host that is one of the sites is not flagged, unless it resembles
/// another of them.
pub proof fn lemma_protected_host_passes(host: Seq<char>, sites: Seq<Seq<char>>)
    requires
        sites.contains(host),
        forall|j: int|
            0 <= j < sites.len() && sites[j] != host ==> !resembles(host, #[trigger] sites[j]),
    ensures
        first_lookalike(host, sites) is None,
{
    lemma_first_lookalike(host, sites);
    lemma_same_name_is_no_lookalike(host);
}

/// A host that is four edits or more away from each of the sites is not
/// flagged.
pub proof fn lemma_distant_host_passes(host: Seq<char>, sites: Seq<Seq<char>>)
    requires
        forall|j: int|
            0 <= j < sites.len() ==> edit_distance(
                encode_utf8(host),
                encode_utf8(#[trigger] sites[j]),
            ) >= TOO_FAR,
    ensures
        first_lookalike(host, sites) is None,
{
    lemma_first_lookalike(host, sites);
}

/// Text that has no domain name for a host imitates nothing, whatever the
/// sites are.
pub proof fn lemma_no_domain_no_verdict(url: Seq<char>, sites: Seq<Seq<char>>)
    requires
        url_domain(url) is None,
    ensures
        url_verdict(url, sites) is None,
{
}

/// Scanning the same URL against the same sites again gives the same
/// verdict.
pub proof fn lemma_same_scan_same_verdict(
    url: &str,
    sites: &[&str],
    first: Option<String>,
    second: Option<String>,
)
    requires
        call_ensures(check_pishing, (url, sites), first),
        call_ensures(check_pishing, (url, sites), second),
    ensures
        first.deep_view() == second.deep_view(),
{
}

} // verus!
