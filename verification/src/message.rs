//! What to say about a chat message: one warning for each of its links that
//! imitates a protected site.

use crate::detector::{check_pishing, url_verdict};
use crate::trusted::{find_links, links_in};
use vstd::prelude::*;
use vstd::string::StringExecFns;

verus! {

/// A link that imitates a protected site.
#[derive(Debug, PartialEq, Eq)]
pub struct Warning {
    /// The link as it stood in the message.
    pub link: String,
    /// The protected site that the host of the link resembles.
    pub site: String,
}

impl View for Warning {
    type V = (Seq<char>, Seq<char>);

    /// The link and the site, in this order.
    open spec fn view(&self) -> (Seq<char>, Seq<char>) {
        (self.link@, self.site@)
    }
}

impl DeepView for Warning {
    type V = (Seq<char>, Seq<char>);

    open spec fn deep_view(&self) -> (Seq<char>, Seq<char>) {
        self@
    }
}

impl Clone for Warning {
    fn clone(&self) -> (copy: Self)
        ensures
            copy@ == self@,
    {
        Warning { link: self.link.clone(), site: self.site.clone() }
    }
}

/// The sentence that warns of `link`, which looks like `site`.
pub open spec fn warning_text(link: Seq<char>, site: Seq<char>) -> Seq<char> {
    "Warning, "@ + link + " is not "@ + site
}

impl Warning {
    /// The warning as a sentence for the people in the channel.
    pub fn text(&self) -> (text: String)
        ensures
            text@ == warning_text(self.link@, self.site@),
    {
        let mut text = "Warning, ".to_owned();
        text.append(self.link.as_str());
        text.append(" is not ");
        text.append(self.site.as_str());
        text
    }
}

/// The links among `links` that imitate one of `sites`, each with the site
/// it imitates, in the order of `links`.
pub open spec fn flagged(links: Seq<Seq<char>>, sites: Seq<Seq<char>>) -> Seq<
    (Seq<char>, Seq<char>),
>
    decreases links.len(),
{
    if links.len() == 0 {
        Seq::empty()
    } else {
        let earlier = flagged(links.drop_last(), sites);
        match url_verdict(links.last(), sites) {
            Some(site) => earlier.push((links.last(), site)),
            None => earlier,
        }
    }
}

/// What a message with the text `content` calls for: nothing where a bot
/// wrote it, else a warning for each link in it that imitates one of `sites`.
pub open spec fn message_warnings(content: Seq<char>, from_bot: bool, sites: Seq<Seq<char>>) -> Seq<
    (Seq<char>, Seq<char>),
> {
    if from_bot {
        Seq::empty()
    } else {
        flagged(links_in(content), sites)
    }
}

/// Checks each of `links` against `sites` and returns a warning for each
/// that imitates one of them.
pub fn flag_links(links: &[String], sites: &[&str]) -> (warnings: Vec<Warning>)
    ensures
        warnings.deep_view() == flagged(links.deep_view(), sites.deep_view()),
{
    let ghost all = links.deep_view();
    let mut warnings: Vec<Warning> = Vec::new();
    let mut i: usize = 0;
    while i < links.len()
        invariant
            i <= links.len(),
            all == links.deep_view(),
            warnings.deep_view() == flagged(all.take(i as int), sites.deep_view()),
        decreases links.len() - i,
    {
        let ghost before = warnings.deep_view();
        proof {
            assert(all.take(i + 1).drop_last() == all.take(i as int));
            assert(all.take(i + 1).last() == links[i as int]@);
        }
        match check_pishing(links[i].as_str(), sites) {
            Some(site) => {
                warnings.push(Warning { link: links[i].clone(), site });
                assert(warnings.deep_view() == before.push((links[i as int]@, site@)));
            },
            None => {},
        }
        i += 1;
    }
    assert(all.take(links.len() as int) == all);
    warnings
}

/// Finds the links in a message and returns the warnings that the message
/// calls for. Messages that bots wrote are not looked at.
pub fn scan_message(content: &str, from_bot: bool, sites: &[&str]) -> (warnings: Vec<Warning>)
    ensures
        warnings.deep_view() == message_warnings(content@, from_bot, sites.deep_view()),
{
    if from_bot {
        return Vec::new();
    }
    let links = find_links(content);
    flag_links(links.as_slice(), sites)
}

} // verus!
