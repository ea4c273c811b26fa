//! Signing in through the system browser: where the browser is sent, what it hands back, and
//! how that is redeemed in the active tab.

use vstd::prelude::*;

use crate::effect::{no_effects, one_effect, Effect, EffectModel};
use crate::hosts::{self, is_own_host, supports_desktop_auth};
use crate::lists::and_one;
use crate::tabs::{self, content_label, TabManager};
use crate::text::{self, join, join3, same_text, to_decimal, trim_end_matches};
use crate::weburl::{
    self, append_query_pair, can_parse, pairs_of, parse_url, room_for_pair, UrlModel, WebUrl,
};

verus! {

/// The origin that a handoff is redeemed against when it names none.
pub const DEFAULT_ORIGIN: &'static str = "https://note.planet-a-foods.com";

/// The host whose sign-in is opened when the active tab shows none of the apps.
pub const DEFAULT_LOGIN_HOST: &'static str = "note.planet-a-foods.com";

/// The version of the app, as in `Cargo.toml`.
pub const VERSION: &'static str = "0.2.1";

/// The user agent of the content webviews, up to the version. Its last word is what the apps'
/// sign-in pages look for.
pub const USER_AGENT_STEM: &'static str =
    "Mozilla/5.0 (Macintosh; Intel Mac OS X 10_15_7) AppleWebKit/605.1.15 (KHTML, like Gecko) PlanetAFoodsDesktop/";

/// The user agent of the content webviews of version `version`.
pub fn user_agent(version: &str) -> (r: String)
    ensures
        r@ == USER_AGENT_STEM@ + version@,
{
    join(USER_AGENT_STEM, version)
}

// ---- Sending the browser to sign in ----

/// The page that starts a sign-in on `host`.
pub open spec fn login_page(host: Seq<char>) -> Seq<char> {
    "https://"@ + host + "/desktop-login"@
}

/// Where the browser reports back to, when the app listens on `port`.
pub open spec fn callback(port: u16) -> Seq<char> {
    "http://127.0.0.1:"@ + text::decimal(port as nat) + "/callback"@
}

/// The page to open for a sign-in on `host`: with the callback while the app listens on a port,
/// and without one while it does not, which is what port 0 stands for.
pub open spec fn login_url(host: Seq<char>, port: u16) -> Option<UrlModel> {
    if port == 0 {
        weburl::url_parse(login_page(host))
    } else {
        weburl::extended(login_page(host), "cb"@, callback(port))
    }
}

/// The page for a sign-in on `host` can be parsed, and the callback, if there is one, fits in.
pub open spec fn login_has_room(host: Seq<char>, port: u16) -> bool {
    if port == 0 {
        weburl::countable(login_page(host))
    } else {
        weburl::has_room(login_page(host), "cb"@, callback(port))
    }
}

/// Opening a URL in the system browser, where there is one to open.
pub open spec fn opening_in_browser(url: Option<UrlModel>) -> Seq<EffectModel> {
    match url {
        Some(url) => seq![EffectModel::OpenUrl { url: url.href }],
        None => seq![],
    }
}

/// Starting a sign-in on `host`. Nothing is opened where the page is beyond what a `Url` can hold.
pub open spec fn logging_in(host: Seq<char>, port: u16) -> Seq<EffectModel> {
    if login_has_room(host, port) {
        opening_in_browser(login_url(host, port))
    } else {
        seq![]
    }
}

/// The host to sign in on when the active tab shows `current`.
pub open spec fn login_host(current: Option<Seq<char>>) -> Seq<char> {
    match current {
        Some(host) => if hosts::desktop_auth(host) {
            host
        } else {
            DEFAULT_LOGIN_HOST@
        },
        None => DEFAULT_LOGIN_HOST@,
    }
}

/// Opens `url`, where there is one, in the system browser.
pub fn open_in_browser(url: Option<WebUrl>) -> (effects: Vec<Effect>)
    ensures
        effects.deep_view() == opening_in_browser(url.deep_view()),
{
    match url {
        Some(url) => one_effect(Effect::OpenUrl { url: url.href }),
        None => no_effects(),
    }
}

/// The page to open in the system browser for a sign-in on `host`; `None` where `host` does not
/// make a URL. While the app listens on `port` the page is told where to report back: that
/// address is the one pair that it reads out of its query beyond those of the page itself.
pub fn open_browser_login(host: &str, port: u16) -> (r: Option<WebUrl>)
    requires
        login_has_room(host@, port),
    ensures
        r.deep_view() == login_url(host@, port),
        r matches Some(url) ==> port != 0 ==> weburl::form_pairs(url.deep_view().query_text())
            == weburl::form_pairs(weburl::url_parse(login_page(host@))->0.query_text()).push(
            ("cb"@, callback(port)),
        ),
        r matches Some(url) ==> port != 0 ==> last_value(
            weburl::form_pairs(url.deep_view().query_text()),
            "cb"@,
        ) == Some(callback(port)),
{
    let page = join3("https://", host, "/desktop-login");
    if port == 0 {
        parse_url(&page)
    } else {
        let address = join3("http://127.0.0.1:", &to_decimal(port as u64), "/callback");
        append_query_pair(&page, "cb", &address)
    }
}

/// Starts a sign-in on `host` in the system browser.
pub fn start_browser_login(host: &str, port: u16) -> (effects: Vec<Effect>)
    ensures
        effects.deep_view() == logging_in(host@, port),
{
    let page = join3("https://", host, "/desktop-login");
    let address = join3("http://127.0.0.1:", &to_decimal(port as u64), "/callback");
    let fits = if port == 0 {
        can_parse(&page)
    } else {
        room_for_pair(&page, "cb", &address)
    };
    if fits {
        open_in_browser(open_browser_login(host, port))
    } else {
        no_effects()
    }
}

/// Starts a sign-in for the app in the active tab, whose page is on `current`, or on the first
/// of the apps if the tab shows none of them.
pub fn browser_login_active(current: Option<String>, port: u16) -> (effects: Vec<Effect>)
    ensures
        effects.deep_view() == logging_in(login_host(current.deep_view()), port),
{
    match current {
        Some(host) => if supports_desktop_auth(&host) {
            start_browser_login(&host, port)
        } else {
            start_browser_login(DEFAULT_LOGIN_HOST, port)
        },
        None => start_browser_login(DEFAULT_LOGIN_HOST, port),
    }
}

// ---- What the browser hands back ----

/// What the browser hands back after a sign-in: a one-time token, and the origin that minted it.
#[derive(Debug, PartialEq, Eq)]
pub struct Handoff {
    pub token: String,
    pub origin: String,
}

/// The model of [`Handoff`].
pub struct HandoffModel {
    pub token: Seq<char>,
    pub origin: Seq<char>,
}

impl DeepView for Handoff {
    type V = HandoffModel;

    open spec fn deep_view(&self) -> HandoffModel {
        HandoffModel { token: self.token@, origin: self.origin@ }
    }
}

/// The value of the last pair that is named `key`.
pub open spec fn last_value(pairs: Seq<(Seq<char>, Seq<char>)>, key: Seq<char>) -> Option<
    Seq<char>,
>
    decreases pairs.len(),
{
    if pairs.len() == 0 {
        None
    } else if pairs.last().0 == key {
        Some(pairs.last().1)
    } else {
        last_value(pairs.drop_last(), key)
    }
}

/// The handoff in a query: its token, without which there is none, and its origin.
pub open spec fn handoff_in(pairs: Seq<(Seq<char>, Seq<char>)>) -> Option<HandoffModel> {
    match last_value(pairs, "token"@) {
        Some(token) => Some(
            HandoffModel {
                token,
                origin: match last_value(pairs, "origin"@) {
                    Some(origin) => origin,
                    None => DEFAULT_ORIGIN@,
                },
            },
        ),
        None => None,
    }
}

/// The handoff in a query as it was written, up to the fragment.
pub open spec fn written_handoff(query: Seq<char>) -> Option<HandoffModel> {
    handoff_in(weburl::form_pairs(weburl::before_fragment(query)))
}

/// The handoff that a deep link carries: `planetafoods://auth` with the handoff in its query.
pub open spec fn deep_link_handoff(url: UrlModel) -> Option<HandoffModel> {
    if url.scheme == "planetafoods"@ && url.host == Some("auth"@) {
        handoff_in(weburl::form_pairs(url.query_text()))
    } else {
        None
    }
}

fn value_of(pairs: &Vec<(String, String)>, key: &str) -> (r: Option<String>)
    ensures
        r.deep_view() == last_value(pairs.deep_view(), key@),
{
    let ghost all = pairs.deep_view();
    let mut found: Option<String> = None;
    let mut i: usize = 0;
    while i < pairs.len()
        invariant
            i <= pairs@.len(),
            all == pairs.deep_view(),
            found.deep_view() == last_value(all.take(i as int), key@),
        decreases pairs@.len() - i,
    {
        assert(all.take(i + 1).drop_last() =~= all.take(i as int));
        assert(all[i as int] == pairs@[i as int].deep_view());
        if same_text(&pairs[i].0, key) {
            found = Some(pairs[i].1.clone());
        }
        i += 1;
    }
    assert(all.take(i as int) =~= all);
    found
}

/// The handoff in the pairs of a query, if they hold one.
pub fn read_handoff(pairs: &Vec<(String, String)>) -> (r: Option<Handoff>)
    ensures
        r.deep_view() == handoff_in(pairs.deep_view()),
{
    match value_of(pairs, "token") {
        Some(token) => {
            let origin = match value_of(pairs, "origin") {
                Some(origin) => origin,
                None => DEFAULT_ORIGIN.to_owned(),
            };
            Some(Handoff { token, origin })
        },
        None => None,
    }
}

// ---- Redeeming it ----

/// The address that redeems a handoff from `origin`.
pub open spec fn exchange_page(origin: Seq<char>) -> Seq<char> {
    text::trim_end(origin, '/') + "/api/desktop-auth/exchange"@
}

/// The URL that redeems `token` at `origin`.
pub open spec fn exchange(token: Seq<char>, origin: Seq<char>) -> Option<UrlModel> {
    weburl::extended(exchange_page(origin), "token"@, token)
}

/// The URL that redeems the token can be parsed, and the token fits in.
pub open spec fn exchange_has_room(token: Seq<char>, origin: Seq<char>) -> bool {
    weburl::has_room(exchange_page(origin), "token"@, token)
}

/// A URL that may be redeemed against: over https, on one of the hub's own hosts.
pub open spec fn redeemable(url: UrlModel) -> bool {
    &&& url.scheme == "https"@
    &&& url.host matches Some(host) && hosts::own(host)
}

/// How a character stands in a JSON string.
pub open spec fn json_char(c: char) -> Seq<char> {
    let u = c as u32;
    if c == '"' {
        seq!['\\', '"']
    } else if c == '\\' {
        seq!['\\', '\\']
    } else if u == 0x08 {
        seq!['\\', 'b']
    } else if u == 0x09 {
        seq!['\\', 't']
    } else if u == 0x0a {
        seq!['\\', 'n']
    } else if u == 0x0c {
        seq!['\\', 'f']
    } else if u == 0x0d {
        seq!['\\', 'r']
    } else if u < 0x20 {
        seq!['\\', 'u', '0', '0', hex_lower(u as int / 16), hex_lower(u as int % 16)]
    } else {
        seq![c]
    }
}

/// The hexadecimal digit for `d`, where `d < 16`, in lower case.
pub open spec fn hex_lower(d: int) -> char {
    if d < 10 {
        (48 + d) as char
    } else {
        (87 + d) as char
    }
}

/// The characters of `s` as they stand in a JSON string.
pub open spec fn json_chars(s: Seq<char>) -> Seq<char>
    decreases s.len(),
{
    if s.len() == 0 {
        Seq::empty()
    } else {
        json_chars(s.drop_last()) + json_char(s.last())
    }
}

/// `s` as a JSON string.
pub open spec fn json_string(s: Seq<char>) -> Seq<char> {
    seq!['"'] + json_chars(s) + seq!['"']
}

/// The script that leads a webview to `href` without leaving the page it was on in the history.
pub open spec fn replace_script(href: Seq<char>) -> Seq<char> {
    "window.location.replace("@ + json_string(href) + ");"@
}

/// Redeeming at `url`: where it may be redeemed against, the window comes to the front and the
/// active tab, if there is one, is led there.
pub open spec fn redeeming_at(active: Option<u32>, url: Option<UrlModel>) -> Seq<EffectModel> {
    match url {
        Some(url) => if redeemable(url) {
            match active {
                Some(id) => seq![
                    EffectModel::RaiseWindow,
                    EffectModel::Eval {
                        label: tabs::label_of(id),
                        script: replace_script(url.href),
                    },
                ],
                None => seq![EffectModel::RaiseWindow],
            }
        } else {
            seq![]
        },
        None => seq![],
    }
}

/// Redeeming a handoff. Nothing happens where the URL is beyond what a `Url` can hold.
pub open spec fn redeeming(active: Option<u32>, handoff: Option<HandoffModel>) -> Seq<
    EffectModel,
> {
    match handoff {
        Some(handoff) => if exchange_has_room(handoff.token, handoff.origin) {
            redeeming_at(active, exchange(handoff.token, handoff.origin))
        } else {
            seq![]
        },
        None => seq![],
    }
}

/// `serde_json::to_string` on a string: the string in double quotes, with the double quote, the
/// backslash and the control characters below U+0020 escaped. It does not fail on a string.
#[verifier::external_body]
fn to_json(s: &str) -> (r: Option<String>)
    ensures
        r.deep_view() == Some(json_string(s@)),
{
    serde_json::to_string(s).ok()
}

/// The URL that redeems `token` at `origin`; `None` where `origin` does not make a URL. The
/// token, unchanged, is the one pair that is read out of the URL's query beyond those that the
/// origin itself brings, and it is the token that counts.
pub fn exchange_url(token: &str, origin: &str) -> (r: Option<WebUrl>)
    requires
        exchange_has_room(token@, origin@),
    ensures
        r.deep_view() == exchange(token@, origin@),
        r matches Some(url) ==> weburl::form_pairs(url.deep_view().query_text())
            == weburl::form_pairs(weburl::url_parse(exchange_page(origin@))->0.query_text()).push(
            ("token"@, token@),
        ),
        r matches Some(url) ==> last_value(
            weburl::form_pairs(url.deep_view().query_text()),
            "token"@,
        ) == Some(token@),
        r matches Some(url) ==> url.deep_view().laid_out(),
{
    let page = join(&trim_end_matches(origin, '/'), "/api/desktop-auth/exchange");
    append_query_pair(&page, "token", token)
}

/// Leads the active tab to `url`, if it may be redeemed against.
pub fn redeem_at(active: Option<u32>, url: Option<WebUrl>) -> (effects: Vec<Effect>)
    ensures
        effects.deep_view() == redeeming_at(active, url.deep_view()),
{
    let url = match url {
        Some(url) => url,
        None => {
            return no_effects();
        },
    };
    let host_ok = match &url.host {
        Some(host) => is_own_host(host),
        None => false,
    };
    if !same_text(&url.scheme, "https") || !host_ok {
        return no_effects();
    }
    let effects = one_effect(Effect::RaiseWindow);
    match active {
        Some(id) => match to_json(&url.href) {
            Some(target) => {
                let script = join3("window.location.replace(", &target, ");");
                let effects = and_one(effects, Effect::Eval { label: content_label(id), script });
                assert(effects.deep_view() =~= redeeming_at(active, Some(url.deep_view())));
                effects
            },
            None => effects,
        },
        None => effects,
    }
}

/// Redeems `token`, minted by `origin`, in the active tab.
pub fn redeem_into_app(tabs: &TabManager, token: &str, origin: &str) -> (effects: Vec<Effect>)
    requires
        exchange_has_room(token@, origin@),
    ensures
        effects.deep_view() == redeeming_at(tabs@.active, exchange(token@, origin@)),
{
    redeem_at(tabs.active(), exchange_url(token, origin))
}

/// Redeems a handoff, where there is one, in the active tab.
pub fn redeem(tabs: &TabManager, handoff: Option<Handoff>) -> (effects: Vec<Effect>)
    ensures
        effects.deep_view() == redeeming(tabs@.active, handoff.deep_view()),
{
    match handoff {
        Some(handoff) => {
            let page = join(
                &trim_end_matches(&handoff.origin, '/'),
                "/api/desktop-auth/exchange",
            );
            if room_for_pair(&page, "token", &handoff.token) {
                redeem_into_app(tabs, &handoff.token, &handoff.origin)
            } else {
                no_effects()
            }
        },
        None => no_effects(),
    }
}

/// Redeems what the deep link `url` carries. Nothing happens if it is not a sign-in link or
/// carries no token. From a sign-in link that was written with a query of printable ASCII, the
/// handoff in that query is redeemed.
pub fn handle_deep_link(tabs: &TabManager, url: &WebUrl) -> (effects: Vec<Effect>)
    ensures
        effects.deep_view() == redeeming(tabs@.active, deep_link_handoff(url.deep_view())),
        forall|query: Seq<char>, web: bool|
            weburl::printable(query) && url.deep_view().query == Some(
                #[trigger] weburl::kept_query(query, web),
            ) && url.scheme@ == "planetafoods"@ && url.host.deep_view() == Some("auth"@)
                ==> effects.deep_view() == redeeming(tabs@.active, written_handoff(query)),
{
    let is_auth = match &url.host {
        Some(host) => same_text(host, "auth"),
        None => false,
    };
    if !same_text(&url.scheme, "planetafoods") || !is_auth {
        return no_effects();
    }
    redeem(tabs, read_handoff(&pairs_of(url)))
}

/// A handoff does something only where it is redeemed over https on one of the hub's own hosts;
/// the one script that is run then leads the active tab to the URL that redeems it.
pub proof fn law_redeem_only_on_own_hosts(active: Option<u32>, handoff: HandoffModel, i: int)
    requires
        0 <= i < redeeming(active, Some(handoff)).len(),
    ensures
        exchange(handoff.token, handoff.origin) matches Some(url) && redeemable(url) && match (
        redeeming(active, Some(handoff))[i]) {
            EffectModel::RaiseWindow => true,
            EffectModel::Eval { label, script } => active matches Some(id) && label
                == tabs::label_of(id) && script == replace_script(url.href),
            _ => false,
        },
{
}

/// The text of a URL that is redeemed against starts with `https:`.
pub proof fn law_redeemed_text_is_https(url: UrlModel)
    requires
        url.laid_out(),
        redeemable(url),
    ensures
        "https:"@.is_prefix_of(url.href),
{
    reveal_strlit("https");
    reveal_strlit(":");
    reveal_strlit("https:");
    let middle = choose|middle: Seq<char>| url.spelled(middle);
    assert("https:"@ =~= "https"@ + ":"@);
    assert(url.href.subrange(0, 6) =~= "https"@ + ":"@);
}

/// Slashes at the end of an origin do not matter.
pub proof fn law_final_slash_of_origin_is_ignored(token: Seq<char>, origin: Seq<char>)
    ensures
        exchange(token, origin.push('/')) == exchange(token, origin),
        exchange_has_room(token, origin.push('/')) == exchange_has_room(token, origin),
{
    assert(origin.push('/').drop_last() =~= origin);
}

/// Of several pairs with one name the last counts, and pairs with other names do not matter.
pub proof fn law_last_pair_counts(
    pairs: Seq<(Seq<char>, Seq<char>)>,
    key: Seq<char>,
    name: Seq<char>,
    value: Seq<char>,
)
    ensures
        last_value(pairs.push((name, value)), key) == if name == key {
            Some(value)
        } else {
            last_value(pairs, key)
        },
{
    assert(pairs.push((name, value)).drop_last() =~= pairs);
}

/// A sign-in that the app starts by itself is one on a host that can hand it over.
pub proof fn law_login_host_supports_desktop_auth(current: Option<Seq<char>>)
    ensures
        hosts::desktop_auth(login_host(current)),
{
    reveal_strlit("note.planet-a-foods.com");
    let key = hosts::host_key(DEFAULT_LOGIN_HOST@);
    assert(key =~= DEFAULT_LOGIN_HOST@);
}

} // verus!
