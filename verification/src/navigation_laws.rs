//! Where links lead, told from the parts of their URLs alone.

use vstd::prelude::*;

use crate::auth;
use crate::effect::EffectModel;
use crate::hosts;
use crate::navigation;
use crate::tabs::{HubModel, TabModel};
use crate::text;
use crate::weburl::UrlModel;

verus! {

/// A page on one of the hub's own hosts loads in the window, and nothing else happens, whatever
/// its path is: only `/signin` and `/desktop-login` are another matter.
pub proof fn law_own_pages_load(url: UrlModel, host: Seq<char>, port: u16)
    requires
        url.host == Some(host),
        hosts::own(host),
        url.path != "/signin"@,
        url.path != "/desktop-login"@,
    ensures
        navigation::navigating(url, port).allow,
        navigation::navigating(url, port).effects.len() == 0,
{
    hosts::law_own_hosts_are_not_external(host);
}

/// Pages on hosts that are neither an outside service nor one that hands a sign-in over load in
/// the window, the sign-in pages among them.
pub proof fn law_other_hosts_load(url: UrlModel, host: Seq<char>, port: u16)
    requires
        url.host == Some(host),
        !hosts::external(host),
        !hosts::desktop_auth(host),
    ensures
        navigation::navigating(url, port).allow,
        navigation::navigating(url, port).effects.len() == 0,
{
}

/// What is not a page of the web, or names no host, loads in the window.
pub proof fn law_other_schemes_load(url: UrlModel, port: u16)
    requires
        url.host is None || url.scheme != "http"@ && url.scheme != "https"@,
    ensures
        navigation::navigating(url, port).allow,
        navigation::navigating(url, port).effects.len() == 0,
        !navigation::is_external_page(url),
{
}

/// A web page of an outside service is cancelled and its whole URL opened in the browser.
pub proof fn law_outside_pages_leave(url: UrlModel, host: Seq<char>, port: u16)
    requires
        url.scheme == "http"@ || url.scheme == "https"@,
        url.host == Some(host),
        hosts::external(host),
    ensures
        !navigation::navigating(url, port).allow,
        navigation::navigating(url, port).effects.len() == 1,
        navigation::navigating(url, port).effects[0] == (EffectModel::OpenUrl { url: url.href }),
        navigation::is_external_page(url),
{
}

/// A web page at `/signin` or `/desktop-login` of an app that hands sign-ins over is cancelled, and
/// the sign-in on that very host starts, to come back on the port that the app listens on.
pub proof fn law_sign_in_pages_leave(url: UrlModel, host: Seq<char>, port: u16)
    requires
        url.scheme == "http"@ || url.scheme == "https"@,
        url.host == Some(host),
        hosts::desktop_auth(host),
        url.path == "/signin"@ || url.path == "/desktop-login"@,
    ensures
        !navigation::navigating(url, port).allow,
        navigation::navigating(url, port).effects == auth::logging_in(host, port),
{
    hosts::law_desktop_auth_hosts_are_own(host);
}

/// A link for a window of its own gets a tab with its whole URL, unless it is a web page of an
/// outside service, which is opened in the browser and leaves the tabs alone.
pub proof fn law_links_for_a_window(hub: HubModel, url: UrlModel)
    requires
        hub.can_open(),
    ensures
        ({
            let outside = (url.scheme == "http"@ || url.scheme == "https"@) && (
            url.host matches Some(host) && hosts::external(host));
            let (next, effects) = navigation::requesting_window(hub, url, true);
            &&& navigation::is_external_page(url) == outside
            &&& effects.len() == 1
            &&& outside ==> next == hub && effects[0] == (EffectModel::OpenUrl { url: url.href })
            &&& !outside ==> next.tabs == hub.tabs.push(
                TabModel { id: hub.next_id, title: "New Tab"@ },
            ) && next.active == hub.active && next.next_id == hub.next_id + 1 && effects[0] == (
            EffectModel::AddWebview {
                id: hub.next_id,
                label: "content-"@ + text::decimal(hub.next_id as nat),
                url: url.href,
                user_agent:
                    "Mozilla/5.0 (Macintosh; Intel Mac OS X 10_15_7) AppleWebKit/605.1.15 (KHTML, like Gecko) PlanetAFoodsDesktop/"@
                    + "0.2.1"@,
            })
        }),
{
}

/// Without a window such a link does nothing, but for an outside service.
pub proof fn law_links_without_a_window(hub: HubModel, url: UrlModel)
    ensures
        ({
            let outside = (url.scheme == "http"@ || url.scheme == "https"@) && (
            url.host matches Some(host) && hosts::external(host));
            let (next, effects) = navigation::requesting_window(hub, url, false);
            &&& next == hub
            &&& outside ==> effects == seq![EffectModel::OpenUrl { url: url.href }]
            &&& !outside ==> effects.len() == 0
        }),
{
}

} // verus!
