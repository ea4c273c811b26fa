//! Where a link leads: into the window, into a tab of its own, or into the system browser.

use vstd::prelude::*;

use crate::auth::{self, start_browser_login};
use crate::effect::{no_effects, one_effect, Effect, EffectModel};
use crate::hosts::{self, is_external_host, supports_desktop_auth};
use crate::tabs::{HubModel, TabManager};
use crate::text::same_text;
use crate::weburl::{UrlModel, WebUrl};

verus! {

/// What becomes of a navigation: whether the webview may go on with it, and what to do.
#[derive(Debug, PartialEq, Eq)]
pub struct Navigation {
    pub allow: bool,
    pub effects: Vec<Effect>,
}

/// The model of [`Navigation`].
pub struct NavigationModel {
    pub allow: bool,
    pub effects: Seq<EffectModel>,
}

impl DeepView for Navigation {
    type V = NavigationModel;

    open spec fn deep_view(&self) -> NavigationModel {
        NavigationModel { allow: self.allow, effects: self.effects.deep_view() }
    }
}

/// A page of the web, as opposed to a local file or some other kind of link.
pub open spec fn is_web(url: UrlModel) -> bool {
    url.scheme == "http"@ || url.scheme == "https"@
}

/// A page of one of the outside services.
pub open spec fn is_external_page(url: UrlModel) -> bool {
    is_web(url) && (url.host matches Some(host) && hosts::external(host))
}

/// A page on which one of the apps would ask the user to sign in.
pub open spec fn is_sign_in_page(url: UrlModel) -> bool {
    &&& is_web(url)
    &&& url.host matches Some(host) && hosts::desktop_auth(host)
    &&& url.path == "/signin"@ || url.path == "/desktop-login"@
}

/// What becomes of a navigation to `url` while the app listens on `port`.
pub open spec fn navigating(url: UrlModel, port: u16) -> NavigationModel {
    if is_external_page(url) {
        NavigationModel { allow: false, effects: seq![EffectModel::OpenUrl { url: url.href }] }
    } else if is_sign_in_page(url) {
        NavigationModel { allow: false, effects: auth::logging_in(url.host->0, port) }
    } else {
        NavigationModel { allow: true, effects: seq![] }
    }
}

/// What becomes of a link that asks for a window of its own.
pub open spec fn requesting_window(hub: HubModel, url: UrlModel, window_open: bool) -> (
    HubModel,
    Seq<EffectModel>,
) {
    if is_external_page(url) {
        (hub, seq![EffectModel::OpenUrl { url: url.href }])
    } else {
        hub.opening(url.href, window_open)
    }
}

fn is_web_page(url: &WebUrl) -> (r: bool)
    ensures
        r == is_web(url.deep_view()),
{
    same_text(&url.scheme, "http") || same_text(&url.scheme, "https")
}

/// Whether `url` is a page of one of the outside services.
pub fn opens_outside(url: &WebUrl) -> (r: bool)
    ensures
        r == is_external_page(url.deep_view()),
{
    is_web_page(url) && match &url.host {
        Some(host) => is_external_host(host),
        None => false,
    }
}

/// Decides on a navigation in a content webview. The outside services open in the system
/// browser. So does a sign-in, which an embedded webview cannot complete. Everything else stays
/// in the window.
pub fn on_navigation(url: &WebUrl, port: u16) -> (r: Navigation)
    ensures
        r.deep_view() == navigating(url.deep_view(), port),
{
    if opens_outside(url) {
        let effects = one_effect(Effect::OpenUrl { url: url.href.clone() });
        return Navigation { allow: false, effects };
    }
    if is_web_page(url) {
        if let Some(host) = &url.host {
            if supports_desktop_auth(host) && (same_text(&url.path, "/signin") || same_text(
                &url.path,
                "/desktop-login",
            )) {
                return Navigation { allow: false, effects: start_browser_login(host, port) };
            }
        }
    }
    Navigation { allow: true, effects: no_effects() }
}

/// Handles a link that asks for a window of its own. The outside services open in the system
/// browser, everything else in a new tab.
pub fn open_new_window_request(tabs: &mut TabManager, url: &WebUrl, window_open: bool) -> (effects:
    Vec<Effect>)
    requires
        old(tabs)@.wf(),
        window_open && !is_external_page(url.deep_view()) ==> old(tabs)@.can_open(),
    ensures
        final(tabs)@.wf(),
        (final(tabs)@, effects.deep_view()) == requesting_window(
            old(tabs)@,
            url.deep_view(),
            window_open,
        ),
{
    if opens_outside(url) {
        return one_effect(Effect::OpenUrl { url: url.href.clone() });
    }
    tabs.create_tab(&url.href, window_open)
}

/// A page of an outside service never loads in the window: its navigation is cancelled and it
/// opens in the system browser, and so does a link to it that asks for a window of its own,
/// without touching the tabs.
pub proof fn law_external_pages_open_in_browser(
    hub: HubModel,
    url: UrlModel,
    port: u16,
    window_open: bool,
)
    requires
        is_external_page(url),
    ensures
        !navigating(url, port).allow,
        navigating(url, port).effects == seq![EffectModel::OpenUrl { url: url.href }],
        requesting_window(hub, url, window_open) == (
            hub,
            seq![EffectModel::OpenUrl { url: url.href }],
        ),
{
}

/// The hub's own pages stay in the window, apart from those that ask the user to sign in, and a
/// link to one that asks for a window of its own gets a tab.
pub proof fn law_own_pages_stay_in_window(
    hub: HubModel,
    url: UrlModel,
    host: Seq<char>,
    port: u16,
    window_open: bool,
)
    requires
        url.host == Some(host),
        hosts::own(host),
    ensures
        !is_sign_in_page(url) ==> navigating(url, port) == (NavigationModel {
            allow: true,
            effects: seq![],
        }),
        requesting_window(hub, url, window_open) == hub.opening(url.href, window_open),
{
    hosts::law_own_hosts_are_not_external(host);
}

/// A sign-in page never loads in the window; the sign-in starts in the system browser instead.
pub proof fn law_sign_in_goes_to_browser(url: UrlModel, port: u16)
    requires
        is_sign_in_page(url),
    ensures
        navigating(url, port) == (NavigationModel {
            allow: false,
            effects: auth::logging_in(url.host->0, port),
        }),
{
    hosts::law_desktop_auth_hosts_are_own(url.host->0);
}

/// A navigation is cancelled only for an outside service or a sign-in.
pub proof fn law_other_pages_are_allowed(url: UrlModel, port: u16)
    requires
        !navigating(url, port).allow,
    ensures
        is_external_page(url) || is_sign_in_page(url),
{
}

} // verus!
