//! Which hosts belong to the hub, which are outside services, and which can sign a user in
//! through the system browser.

use vstd::prelude::*;

use crate::text::{self, ends_with, join, same_text, to_ascii_lowercase, trim_end_matches};

verus! {

/// The form in which hosts are compared: no dots at the end, ASCII letters in lower case.
pub open spec fn host_key(host: Seq<char>) -> Seq<char> {
    text::lower(text::trim_end(host, '.'))
}

/// `key` is `domain` itself or one of its subdomains.
pub open spec fn in_domain(key: Seq<char>, domain: Seq<char>) -> bool {
    key == domain || ("."@ + domain).is_suffix_of(key)
}

/// Hosts of the outside services: Personio, Spendesk and Qwiki.
pub open spec fn external(host: Seq<char>) -> bool {
    let key = host_key(host);
    ||| in_domain(key, "personio.com"@)
    ||| in_domain(key, "spendesk.com"@)
    ||| in_domain(key, "qwikinow.de"@)
}

/// Hosts of the apps that hand a browser sign-in over to the desktop app.
pub open spec fn desktop_auth(host: Seq<char>) -> bool {
    let key = host_key(host);
    ||| key == "note.planet-a-foods.com"@
    ||| key == "feedback.planet-a-foods.com"@
    ||| key == "commodity.planet-a-foods.com"@
    ||| key == "coa.planet-a-foods.com"@
    ||| key == "analytics.planet-a-foods.com"@
}

/// Hosts of the hub itself: `planet-a-foods.com` and its subdomains.
pub open spec fn own(host: Seq<char>) -> bool {
    in_domain(host_key(host), "planet-a-foods.com"@)
}

fn key_of(host: &str) -> (r: String)
    ensures
        r@ == host_key(host@),
{
    to_ascii_lowercase(&trim_end_matches(host, '.'))
}

fn belongs(key: &str, domain: &str) -> (r: bool)
    ensures
        r == in_domain(key@, domain@),
{
    same_text(key, domain) || ends_with(key, &join(".", domain))
}

/// Whether `host` should be handed to the system browser instead of loading in the window.
pub fn is_external_host(host: &str) -> (r: bool)
    ensures
        r == external(host@),
{
    let key = key_of(host);
    belongs(&key, "personio.com") || belongs(&key, "spendesk.com") || belongs(&key, "qwikinow.de")
}

/// Whether `host` exposes the endpoints that hand a sign-in over to the desktop app.
pub fn supports_desktop_auth(host: &str) -> (r: bool)
    ensures
        r == desktop_auth(host@),
{
    let key = key_of(host);
    same_text(&key, "note.planet-a-foods.com") || same_text(&key, "feedback.planet-a-foods.com")
        || same_text(&key, "commodity.planet-a-foods.com") || same_text(
        &key,
        "coa.planet-a-foods.com",
    ) || same_text(&key, "analytics.planet-a-foods.com")
}

/// Whether `host` is one of the hub's own.
pub fn is_own_host(host: &str) -> (r: bool)
    ensures
        r == own(host@),
{
    belongs(&key_of(host), "planet-a-foods.com")
}

/// A host in a domain ends as the domain does.
proof fn lemma_in_domain_ending(key: Seq<char>, domain: Seq<char>, back: int)
    requires
        in_domain(key, domain),
        1 <= back <= domain.len(),
    ensures
        key.len() >= domain.len(),
        key[key.len() - back] == domain[domain.len() - back],
{
    let dotted = "."@ + domain;
    if dotted.is_suffix_of(key) {
        let tail = key.subrange(key.len() - dotted.len(), key.len() as int);
        assert(tail[dotted.len() - back] == dotted[dotted.len() - back]);
        assert(key[key.len() - back] == tail[dotted.len() - back]);
    }
}

/// The hub's own hosts are never handed to the system browser as outside services.
pub proof fn law_own_hosts_are_not_external(host: Seq<char>)
    ensures
        own(host) ==> !external(host),
{
    reveal_strlit("planet-a-foods.com");
    reveal_strlit("personio.com");
    reveal_strlit("spendesk.com");
    reveal_strlit("qwikinow.de");
    let key = host_key(host);
    if own(host) {
        lemma_in_domain_ending(key, "planet-a-foods.com"@, 5);
        lemma_in_domain_ending(key, "planet-a-foods.com"@, 1);
        if in_domain(key, "personio.com"@) {
            lemma_in_domain_ending(key, "personio.com"@, 5);
        }
        if in_domain(key, "spendesk.com"@) {
            lemma_in_domain_ending(key, "spendesk.com"@, 5);
        }
        if in_domain(key, "qwikinow.de"@) {
            lemma_in_domain_ending(key, "qwikinow.de"@, 1);
        }
    }
}

/// Every host that can sign a user in for the desktop app is one of the hub's own, so what it
/// hands over may be redeemed and its pages stay in the window.
pub proof fn law_desktop_auth_hosts_are_own(host: Seq<char>)
    ensures
        desktop_auth(host) ==> own(host) && !external(host),
{
    reveal_strlit(".");
    reveal_strlit("planet-a-foods.com");
    reveal_strlit("note.planet-a-foods.com");
    reveal_strlit("feedback.planet-a-foods.com");
    reveal_strlit("commodity.planet-a-foods.com");
    reveal_strlit("coa.planet-a-foods.com");
    reveal_strlit("analytics.planet-a-foods.com");
    let dotted = "."@ + "planet-a-foods.com"@;
    let key = host_key(host);
    if desktop_auth(host) {
        assert(dotted =~= key.subrange(key.len() - dotted.len(), key.len() as int));
        law_own_hosts_are_not_external(host);
    }
}

/// Making a string lower-case twice changes nothing more.
proof fn lemma_lower_again(s: Seq<char>)
    ensures
        text::lower(text::lower(s)) == text::lower(s),
{
    assert(text::lower(text::lower(s)) =~= text::lower(s));
}

/// Trimming dots and making lower-case may be done in either order.
proof fn lemma_trim_lower(s: Seq<char>)
    ensures
        text::trim_end(text::lower(s), '.') == text::lower(
            text::trim_end(s, '.'),
        ),
    decreases s.len(),
{
    if s.len() > 0 && s.last() == '.' {
        lemma_trim_lower(s.drop_last());
        assert(text::lower(s).drop_last() =~= text::lower(s.drop_last()));
    }
}

/// The case of ASCII letters in a host does not matter.
pub proof fn law_host_case_is_ignored(host: Seq<char>)
    ensures
        external(text::lower(host)) == external(host),
        desktop_auth(text::lower(host)) == desktop_auth(host),
        own(text::lower(host)) == own(host),
{
    lemma_trim_lower(host);
    lemma_lower_again(text::trim_end(host, '.'));
}

/// A dot at the end of a host does not matter.
pub proof fn law_final_dot_is_ignored(host: Seq<char>)
    ensures
        external(host.push('.')) == external(host),
        desktop_auth(host.push('.')) == desktop_auth(host),
        own(host.push('.')) == own(host),
{
    assert(host.push('.').drop_last() =~= host);
}

/// Dots are trimmed off the last label only.
proof fn lemma_trim_behind(front: Seq<char>, s: Seq<char>)
    requires
        text::trim_end(s, '.').len() > 0,
    ensures
        text::trim_end(front + s, '.') == front + text::trim_end(s, '.'),
    decreases s.len(),
{
    if s.last() == '.' {
        lemma_trim_behind(front, s.drop_last());
        assert((front + s).drop_last() =~= front + s.drop_last());
    }
}

/// The key of a subdomain is its own labels before the key of the domain.
proof fn lemma_subdomain_key(sub: Seq<char>, host: Seq<char>)
    requires
        host_key(host).len() > 0,
    ensures
        host_key(sub + "."@ + host) == text::lower(sub) + "."@ + host_key(host),
{
    reveal_strlit(".");
    lemma_trim_behind(sub + "."@, host);
    assert(host_key(sub + "."@ + host) =~= text::lower(sub) + "."@ + host_key(host));
}

/// A subdomain of something in a domain is in the domain.
proof fn lemma_subdomain_in_domain(sub: Seq<char>, key: Seq<char>, domain: Seq<char>)
    requires
        in_domain(key, domain),
    ensures
        in_domain(sub + "."@ + key, domain),
{
    let whole = sub + "."@ + key;
    let dotted = "."@ + domain;
    if key == domain {
        assert(dotted =~= whole.subrange(whole.len() - dotted.len(), whole.len() as int));
    } else {
        let tail = key.subrange(key.len() - dotted.len(), key.len() as int);
        assert(tail =~= whole.subrange(whole.len() - dotted.len(), whole.len() as int));
    }
}

/// What holds of a host holds of its subdomains: those of an outside service are outside too,
/// those of the hub are the hub's.
pub proof fn law_subdomains_follow(sub: Seq<char>, host: Seq<char>)
    ensures
        external(host) ==> external(sub + "."@ + host),
        own(host) ==> own(sub + "."@ + host),
{
    reveal_strlit("planet-a-foods.com");
    reveal_strlit("personio.com");
    reveal_strlit("spendesk.com");
    reveal_strlit("qwikinow.de");
    let key = host_key(host);
    let front = text::lower(sub);
    if external(host) || own(host) {
        lemma_subdomain_key(sub, host);
        if in_domain(key, "personio.com"@) {
            lemma_subdomain_in_domain(front, key, "personio.com"@);
        }
        if in_domain(key, "spendesk.com"@) {
            lemma_subdomain_in_domain(front, key, "spendesk.com"@);
        }
        if in_domain(key, "qwikinow.de"@) {
            lemma_subdomain_in_domain(front, key, "qwikinow.de"@);
        }
        if own(host) {
            lemma_subdomain_in_domain(front, key, "planet-a-foods.com"@);
        }
    }
}

} // verus!
