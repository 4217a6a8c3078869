use lookalike::detector::SITES;
use lookalike::message::{flag_links, scan_message, Warning};

fn warning(link: &str, site: &str) -> Warning {
    Warning { link: link.to_owned(), site: site.to_owned() }
}

#[test]
fn message_with_a_lookalike_link_gets_a_warning() {
    let warnings = scan_message("free nitro at https://dizcord.com/nitro today", false, &SITES);
    assert_eq!(warnings, vec![warning("https://dizcord.com/nitro", "discord.com")]);
}

#[test]
fn message_from_a_bot_is_skipped() {
    let warnings = scan_message("free nitro at https://dizcord.com/nitro today", true, &SITES);
    assert_eq!(warnings, vec![]);
}

#[test]
fn message_without_links_gets_no_warning() {
    assert_eq!(scan_message("", false, &SITES), vec![]);
    assert_eq!(scan_message("nothing to see here", false, &SITES), vec![]);
    assert_eq!(scan_message("dizcord.com has no scheme", false, &SITES), vec![]);
}

#[test]
fn message_with_honest_links_gets_no_warning() {
    let text = "see https://discord.com/channels and https://www.youtube.com/watch?v=1";
    assert_eq!(scan_message(text, false, &SITES), vec![]);
    assert_eq!(scan_message("docs at https://example.com/", false, &SITES), vec![]);
}

#[test]
fn warnings_come_in_the_order_of_the_links() {
    let text = "a https://www.redit.com/r b https://discord.com/ c https://discord.gifts/x d http://dizcord.com";
    assert_eq!(
        scan_message(text, false, &SITES),
        vec![
            warning("https://www.redit.com/r", "www.reddit.com"),
            warning("https://discord.gifts/x", "discord.gift"),
            warning("http://dizcord.com", "discord.com"),
        ]
    );
}

#[test]
fn link_that_occurs_twice_is_warned_of_twice() {
    let text = "https://dizcord.com/ https://dizcord.com/";
    assert_eq!(
        scan_message(text, false, &SITES),
        vec![warning("https://dizcord.com/", "discord.com"), warning("https://dizcord.com/", "discord.com")]
    );
}

#[test]
fn mail_address_is_not_a_url() {
    assert_eq!(scan_message("write to admin@dizcord.com", false, &SITES), vec![]);
}

#[test]
fn message_is_checked_against_the_given_sites() {
    let text = "try https://exampel.org/ or https://dizcord.com/";
    assert_eq!(
        scan_message(text, false, &["example.org"]),
        vec![warning("https://exampel.org/", "example.org")]
    );
    assert_eq!(scan_message(text, false, &[]), vec![]);
}

#[test]
fn links_are_judged_one_by_one() {
    let links = vec![
        "https://dizcord.com/".to_owned(),
        "not a url".to_owned(),
        "https://discord.com/".to_owned(),
        "http://192.0.2.1/".to_owned(),
        "https://www.youtubee.com/".to_owned(),
    ];
    assert_eq!(
        flag_links(&links, &SITES),
        vec![
            warning("https://dizcord.com/", "discord.com"),
            warning("https://www.youtubee.com/", "www.youtube.com"),
        ]
    );
    assert_eq!(flag_links(&[], &SITES), vec![]);
}

#[test]
fn warning_text_names_the_link_and_the_site() {
    let w = warning("https://dizcord.com/nitro", "discord.com");
    assert_eq!(w.text(), "Warning, https://dizcord.com/nitro is not discord.com");
    assert_eq!(warning("", "").text(), "Warning,  is not ");
}

#[test]
fn warning_text_of_a_scanned_message() {
    let warnings = scan_message("https://dizcord.com", false, &SITES);
    assert_eq!(warnings.len(), 1);
    assert_eq!(warnings[0].link, "https://dizcord.com");
    assert_eq!(warnings[0].site, "discord.com");
    assert_eq!(warnings[0].text(), "Warning, https://dizcord.com is not discord.com");
}

#[test]
fn warning_can_be_copied() {
    let w = warning("https://dizcord.com/", "discord.com");
    assert_eq!(w.clone(), w);
}
