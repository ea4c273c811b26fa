use paf_desktop::auth::{
    browser_login_active, exchange_url, handle_deep_link, open_browser_login, open_in_browser,
    read_handoff, redeem, redeem_at, redeem_into_app, start_browser_login, user_agent, Handoff,
    VERSION,
};
use paf_desktop::effect::Effect;
use paf_desktop::loopback::handle_loopback;
use paf_desktop::tabs::TabManager;
use paf_desktop::weburl::{can_parse, pairs_of, room_for_pair, WebUrl};

fn web(text: &str) -> WebUrl {
    let url = url::Url::parse(text).unwrap();
    WebUrl {
        href: url.as_str().to_string(),
        scheme: url.scheme().to_string(),
        host: url.host_str().map(str::to_string),
        path: url.path().to_string(),
        query: url.query().map(str::to_string),
        fragment: url.fragment().map(str::to_string),
    }
}

fn one_tab() -> TabManager {
    let mut tabs = TabManager::default();
    tabs.new_tab(true);
    tabs.webview_added(0, true);
    tabs
}

fn pair(key: &str, value: &str) -> (String, String) {
    (key.to_string(), value.to_string())
}

fn redeemed(href: &str) -> Vec<Effect> {
    vec![
        Effect::RaiseWindow,
        Effect::Eval {
            label: "content-0".to_string(),
            script: format!("window.location.replace(\"{href}\");"),
        },
    ]
}

fn handoff(token: &str, origin: &str) -> Option<Handoff> {
    Some(Handoff { token: token.to_string(), origin: origin.to_string() })
}

#[test]
fn the_login_page_is_told_where_to_report_back() {
    let url = open_browser_login("feedback.planet-a-foods.com", 8080).unwrap();
    assert_eq!(
        url.href,
        "https://feedback.planet-a-foods.com/desktop-login?cb=http%3A%2F%2F127.0.0.1%3A8080%2Fcallback"
    );
    assert_eq!(url.host.as_deref(), Some("feedback.planet-a-foods.com"));
    assert_eq!(url.path, "/desktop-login");
    assert_eq!(pairs_of(&url), vec![pair("cb", "http://127.0.0.1:8080/callback")]);
}

#[test]
fn without_a_port_the_login_page_is_opened_as_it_is() {
    let url = open_browser_login("COA.planet-a-foods.com", 0).unwrap();
    assert_eq!(url.href, "https://coa.planet-a-foods.com/desktop-login");
    assert_eq!(url.query, None);
    assert_eq!(pairs_of(&url), vec![]);
}

#[test]
fn a_bad_host_opens_nothing() {
    assert_eq!(open_browser_login("a b", 0), None);
    assert_eq!(open_browser_login("a b", 1), None);
    assert_eq!(start_browser_login("a b", 1), vec![]);
    assert_eq!(open_in_browser(None), vec![]);
}

#[test]
fn the_menu_signs_in_on_the_app_in_the_tab() {
    let at = |host: &str| Effect::OpenUrl {
        url: format!("https://{host}/desktop-login?cb=http%3A%2F%2F127.0.0.1%3A99%2Fcallback"),
    };
    let login = |host: &str| browser_login_active(Some(host.to_string()), 99);
    assert_eq!(login("coa.planet-a-foods.com"), vec![at("coa.planet-a-foods.com")]);
    assert_eq!(login("hub.planet-a-foods.com"), vec![at("note.planet-a-foods.com")]);
    assert_eq!(browser_login_active(None, 99), vec![at("note.planet-a-foods.com")]);
}

#[test]
fn the_last_token_and_origin_count() {
    assert_eq!(read_handoff(&vec![]), None);
    assert_eq!(read_handoff(&vec![pair("origin", "https://a")]), None);
    assert_eq!(
        read_handoff(&vec![pair("token", "t")]),
        handoff("t", "https://note.planet-a-foods.com")
    );
    assert_eq!(
        read_handoff(&vec![
            pair("token", "1"),
            pair("origin", "x"),
            pair("Token", "2"),
            pair("token", "3"),
            pair("origin", ""),
        ]),
        handoff("3", "")
    );
}

#[test]
fn a_token_survives_the_exchange_url() {
    for token in ["abc", "a b+c&d=e%20#?", "Ünï©ode/\"quote\"", "", "line\nnul\0"] {
        let url = exchange_url(token, "https://coa.planet-a-foods.com///").unwrap();
        assert_eq!(url.path, "/api/desktop-auth/exchange");
        assert_eq!(pairs_of(&url), vec![pair("token", token)]);
    }
    let url = exchange_url("a b/~*", "https://note.planet-a-foods.com").unwrap();
    assert_eq!(url.query.as_deref(), Some("token=a+b%2F%7E*"));
    assert_eq!(
        url.href,
        "https://note.planet-a-foods.com/api/desktop-auth/exchange?token=a+b%2F%7E*"
    );
}

#[test]
fn a_token_goes_behind_what_the_query_holds() {
    let url = exchange_url("é", "https://a.example/?x=1&y#frag").unwrap();
    assert_eq!(url.href, "https://a.example/?x=1&y&token=%C3%A9#frag/api/desktop-auth/exchange");
    assert_eq!(url.fragment.as_deref(), Some("frag/api/desktop-auth/exchange"));
    assert_eq!(pairs_of(&url), vec![pair("x", "1"), pair("y", ""), pair("token", "é")]);
    let url = exchange_url("é", "https://a.example/?x=1&y").unwrap();
    assert_eq!(
        url.href,
        "https://a.example/?x=1&y/api/desktop-auth/exchange&token=%C3%A9"
    );
    assert_eq!(
        pairs_of(&url),
        vec![pair("x", "1"), pair("y/api/desktop-auth/exchange", ""), pair("token", "é")]
    );
}

#[test]
fn origins_that_make_no_url_redeem_nothing() {
    assert_eq!(exchange_url("t", ""), None);
    assert_eq!(exchange_url("t", "note.planet-a-foods.com"), None);
    assert_eq!(redeem(&one_tab(), handoff("t", "not an origin")), vec![]);
    assert_eq!(redeem(&one_tab(), None), vec![]);
}

#[test]
fn redeeming_leads_the_active_tab_to_the_exchange() {
    let href = "https://note.planet-a-foods.com/api/desktop-auth/exchange?token=t%22";
    let tabs = one_tab();
    assert_eq!(redeem_into_app(&tabs, "t\"", "https://note.planet-a-foods.com/"), redeemed(href));
    assert_eq!(redeem(&tabs, handoff("t\"", "https://note.planet-a-foods.com")), redeemed(href));
    assert_eq!(
        redeem_into_app(&TabManager::default(), "t", "https://note.planet-a-foods.com"),
        vec![Effect::RaiseWindow]
    );
}

#[test]
fn only_own_hosts_over_https_are_redeemed_against() {
    let tabs = one_tab();
    for origin in [
        "http://note.planet-a-foods.com",
        "https://evilplanet-a-foods.com",
        "https://planet-a-foods.com.evil.example",
        "https://planet-a-foods.com@evil.example",
        "https://evil.example/planet-a-foods.com",
        "data:planet-a-foods.com",
        "planetafoods://planet-a-foods.com",
    ] {
        assert_eq!(redeem(&tabs, handoff("t", origin)), vec![], "{origin}");
    }
    for origin in ["https://planet-a-foods.com", "https://X.Y.planet-a-foods.com.:8443"] {
        assert_eq!(redeem(&tabs, handoff("t", origin)).len(), 2, "{origin}");
    }
}

#[test]
fn the_script_holds_the_url_as_a_string() {
    let url = WebUrl {
        href: "q\"b\\ \u{8}\t\n\u{c}\r\u{1}\u{1f}\u{7f}é".to_string(),
        scheme: "https".to_string(),
        host: Some("planet-a-foods.com".to_string()),
        path: String::new(),
        query: None,
        fragment: None,
    };
    assert_eq!(
        redeem_at(Some(3), Some(url)),
        vec![
            Effect::RaiseWindow,
            Effect::Eval {
                label: "content-3".to_string(),
                script: "window.location.replace(\"q\\\"b\\\\ \\b\\t\\n\\f\\r\\u0001\\u001f\u{7f}é\");"
                    .to_string(),
            },
        ]
    );
    assert_eq!(redeem_at(Some(3), None), vec![]);
}

#[test]
fn deep_links_are_redeemed() {
    let tabs = one_tab();
    let href = "https://coa.planet-a-foods.com/api/desktop-auth/exchange?token=a%2Bb+c";
    assert_eq!(
        handle_deep_link(
            &tabs,
            &web("planetafoods://auth?token=x&token=a%2Bb+c&origin=https%3A%2F%2Fcoa.planet-a-foods.com")
        ),
        redeemed(href)
    );
    assert_eq!(
        handle_deep_link(&tabs, &web("planetafoods://auth?token=t")),
        redeemed("https://note.planet-a-foods.com/api/desktop-auth/exchange?token=t")
    );
    for text in [
        "planetafoods://auth",
        "planetafoods://auth?origin=https%3A%2F%2Fcoa.planet-a-foods.com",
        "planetafoods://other?token=t",
        "planetafoods:auth?token=t",
        "https://auth?token=t",
    ] {
        assert_eq!(handle_deep_link(&tabs, &web(text)), vec![], "{text}");
    }
}

#[test]
fn ordinary_texts_can_be_parsed() {
    for text in [
        "",
        "no url",
        "https://note.planet-a-foods.com/desktop-login",
        " \u{1}HT\ttp:/\\//user@host:1?#",
        "https:",
        "http",
        "planetafoods://auth?token=t",
    ] {
        assert!(can_parse(text), "{text}");
    }
}

#[test]
fn what_a_query_encodes_is_decoded_again() {
    let link = web("planetafoods://auth?a=\"<'>%2&b=%27#c=d");
    assert_eq!(link.query.as_deref(), Some("a=%22%3C'%3E%2&b=%27"));
    assert_eq!(pairs_of(&link), vec![pair("a", "\"<'>%2"), pair("b", "'")]);
    let page = web("https://a.example/?a=\"<'>%2");
    assert_eq!(page.query.as_deref(), Some("a=%22%3C%27%3E%2"));
    assert_eq!(pairs_of(&page), vec![pair("a", "\"<'>%2")]);
}

#[test]
fn ordinary_urls_have_room() {
    assert!(room_for_pair("https://note.planet-a-foods.com/?q", "token", "a b/é"));
    assert!(room_for_pair("https://note.planet-a-foods.com/#f", "token", "a b/é"));
    assert!(room_for_pair("https://note.planet-a-foods.com/?#", "", ""));
    assert!(room_for_pair("https://note.planet-a-foods.com/", "token", "t"));
    assert!(room_for_pair("no url", "token", "t"));
}

#[test]
fn the_user_agent_carries_the_version() {
    assert_eq!(
        user_agent(VERSION),
        "Mozilla/5.0 (Macintosh; Intel Mac OS X 10_15_7) AppleWebKit/605.1.15 (KHTML, like Gecko) PlanetAFoodsDesktop/0.2.1"
    );
}

#[test]
fn empty_queries_and_fragments_are_told_from_missing_ones() {
    let url = exchange_url("t", "https://a.example/?#").unwrap();
    assert_eq!(url.href, "https://a.example/?token=t#/api/desktop-auth/exchange");
    let url = exchange_url("t", "https://a.example/?").unwrap();
    assert_eq!(url.href, "https://a.example/?/api/desktop-auth/exchange&token=t");
    assert_eq!(url.fragment, None);
    let url = open_browser_login("a.example/x?#", 0).unwrap();
    assert_eq!(url.query.as_deref(), Some(""));
    assert_eq!(url.fragment.as_deref(), Some("/desktop-login"));
}

#[test]
fn both_ways_back_redeem_alike() {
    let tabs = one_tab();
    for query in [
        "token=t",
        "token=a%20b&origin=https%3A%2F%2Fcoa.planet-a-foods.com",
        "origin=https://coa.planet-a-foods.com/&token=x+y&token=z~!$*",
        "token=it's<\"quoted\">%2",
        "token=t#origin=x",
        "origin=https%3A%2F%2Fevil.example&token=t",
        "token",
        "origin=x",
        "",
    ] {
        let reply = handle_loopback(format!("GET /callback?{query} HTTP/1.1\r\n\r\n").as_bytes());
        let link = web(&format!("planetafoods://auth?{query}"));
        assert_eq!(redeem(&tabs, reply.handoff), handle_deep_link(&tabs, &link), "{query}");
    }
}
