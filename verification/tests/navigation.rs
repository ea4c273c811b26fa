use paf_desktop::effect::Effect;
use paf_desktop::navigation::{on_navigation, open_new_window_request, Navigation};
use paf_desktop::tabs::TabManager;
use paf_desktop::weburl::WebUrl;

const AGENT: &str = "Mozilla/5.0 (Macintosh; Intel Mac OS X 10_15_7) AppleWebKit/605.1.15 (KHTML, like Gecko) PlanetAFoodsDesktop/0.2.1";

fn web(text: &str) -> WebUrl {
    let url = url::Url::parse(text).unwrap();
    WebUrl {
        href: url.as_str().to_string(),
        scheme: url.scheme().to_string(),
        host: url.host_str().map(str::to_string),
        path: url.path().to_string(),
        query: url.query().map(str::to_string),
        fragment: url.fragment().map(str::to_string),
    }
}

fn stays() -> Navigation {
    Navigation { allow: true, effects: vec![] }
}

fn opened(url: &str) -> Navigation {
    Navigation { allow: false, effects: vec![Effect::OpenUrl { url: url.to_string() }] }
}

#[test]
fn own_pages_stay() {
    for text in [
        "https://hub.planet-a-foods.com/",
        "http://note.planet-a-foods.com/page?x=1#y",
        "https://note.planet-a-foods.com/signin/",
        "https://hub.planet-a-foods.com/signin",
        "https://example.org/signin",
        "about:blank",
        "data:text/html,personio.com",
        "planetafoods://personio.com/",
    ] {
        assert_eq!(on_navigation(&web(text), 4000), stays(), "{text}");
    }
}

#[test]
fn outside_pages_open_in_the_browser() {
    for text in [
        "https://paf.personio.com/login?a=b#c",
        "http://app.spendesk.com/",
        "https://QWIKINOW.de/signin",
    ] {
        let url = web(text);
        assert_eq!(on_navigation(&url, 0), opened(&url.href), "{text}");
    }
}

#[test]
fn sign_in_pages_start_a_browser_login() {
    let nav = on_navigation(&web("https://note.planet-a-foods.com/signin?next=%2Fp"), 51234);
    assert_eq!(
        nav,
        opened(
            "https://note.planet-a-foods.com/desktop-login?cb=http%3A%2F%2F127.0.0.1%3A51234%2Fcallback"
        )
    );
    let nav = on_navigation(&web("http://COA.planet-a-foods.com/desktop-login"), 0);
    assert_eq!(nav, opened("https://coa.planet-a-foods.com/desktop-login"));
}

#[test]
fn a_final_dot_of_the_host_stays_in_the_login_page() {
    let url = WebUrl {
        href: "https://note.planet-a-foods.com./signin".to_string(),
        scheme: "https".to_string(),
        host: Some("note.planet-a-foods.com.".to_string()),
        path: "/signin".to_string(),
        query: None,
        fragment: None,
    };
    assert_eq!(
        on_navigation(&url, 0),
        opened("https://note.planet-a-foods.com./desktop-login")
    );
}

#[test]
fn links_for_a_new_window() {
    let mut tabs = TabManager::default();
    let effects = open_new_window_request(&mut tabs, &web("https://paf.personio.com/x"), true);
    assert_eq!(effects, vec![Effect::OpenUrl { url: "https://paf.personio.com/x".to_string() }]);
    assert_eq!(tabs.snapshot().tabs.len(), 0);

    let effects = open_new_window_request(&mut tabs, &web("https://example.org/a?b#c"), true);
    assert_eq!(
        effects,
        vec![Effect::AddWebview {
            id: 0,
            label: "content-0".to_string(),
            url: "https://example.org/a?b#c".to_string(),
            user_agent: AGENT.to_string(),
        }]
    );
    assert_eq!(tabs.snapshot().tabs.len(), 1);

    assert_eq!(open_new_window_request(&mut tabs, &web("mailto:a@personio.com"), false), vec![]);
    assert_eq!(tabs.snapshot().tabs.len(), 1);
}
