//! What a sign-in opens, what is read out of what comes back, and what redeeming it does.

use vstd::prelude::*;

use crate::auth::{self, HandoffModel};
use crate::effect::EffectModel;
use crate::hosts;
use crate::text;
use crate::text_laws;
use crate::weburl::{self, UrlModel};

verus! {

/// A sign-in opens one page, `/desktop-login` of the host over https. While the app listens on a
/// port the page has the pair of `cb` and the address on that port behind its query, and while it
/// does not, the page is opened as it is.
pub proof fn law_sign_in_page(host: Seq<char>, port: u16, page: Seq<char>, back: Seq<char>)
    requires
        page == "https://"@ + host + "/desktop-login"@,
        back == "http://127.0.0.1:"@ + text::decimal(port as nat) + "/callback"@,
    ensures
        auth::callback(port) == back,
        port == 0 ==> auth::login_has_room(host, port) == weburl::countable(page),
        port != 0 ==> auth::login_has_room(host, port) == weburl::has_room(page, "cb"@, back),
        weburl::url_parse(page) is None ==> auth::login_url(host, port) is None,
        weburl::url_parse(page) matches Some(url) ==> auth::login_url(host, port) == Some(
            if port == 0 {
                url
            } else {
                url.with_pair("cb"@, back)
            },
        ),
        weburl::url_parse(page) is None ==> auth::logging_in(host, port).len() == 0,
        weburl::url_parse(page) matches Some(url) ==> port == 0 ==> weburl::countable(page)
            ==> auth::logging_in(host, port) == seq![EffectModel::OpenUrl { url: url.href }],
        weburl::url_parse(page) matches Some(url) ==> port != 0 ==> weburl::has_room(
            page,
            "cb"@,
            back,
        ) ==> auth::logging_in(host, port) == seq![
            EffectModel::OpenUrl { url: url.with_pair("cb"@, back).href },
        ],
{
}

/// Beyond what a URL can hold no sign-in is started.
pub proof fn law_sign_in_without_room(host: Seq<char>, port: u16, page: Seq<char>, back: Seq<char>)
    requires
        page == "https://"@ + host + "/desktop-login"@,
        back == "http://127.0.0.1:"@ + text::decimal(port as nat) + "/callback"@,
        !weburl::countable(page) || port != 0 && !weburl::has_room(page, "cb"@, back),
    ensures
        auth::logging_in(host, port).len() == 0,
{
}

/// Opening a URL in the browser opens all of it.
pub proof fn law_whole_url_is_opened(url: UrlModel)
    ensures
        auth::opening_in_browser(Some(url)).len() == 1,
        auth::opening_in_browser(Some(url))[0] == (EffectModel::OpenUrl { url: url.href }),
        auth::opening_in_browser(None).len() == 0,
{
}

/// A sign-in that is asked for goes to the host in the active tab if that hands sign-ins over, and
/// otherwise to the note app.
pub proof fn law_host_to_sign_in_on(host: Seq<char>)
    ensures
        hosts::desktop_auth(host) ==> auth::login_host(Some(host)) == host,
        !hosts::desktop_auth(host) ==> auth::login_host(Some(host)) == "note.planet-a-foods.com"@,
        auth::login_host(None) == "note.planet-a-foods.com"@,
{
}

/// The pair at `i` is the last one that is named `key`.
pub open spec fn last_named(pairs: Seq<(Seq<char>, Seq<char>)>, i: int, key: Seq<char>) -> bool {
    &&& 0 <= i < pairs.len()
    &&& pairs[i].0 == key
    &&& forall|j: int| i < j < pairs.len() ==> (#[trigger] pairs[j]).0 != key
}

/// No pair is named `key`.
pub open spec fn none_named(pairs: Seq<(Seq<char>, Seq<char>)>, key: Seq<char>) -> bool {
    forall|j: int| 0 <= j < pairs.len() ==> (#[trigger] pairs[j]).0 != key
}

proof fn lemma_last_value(pairs: Seq<(Seq<char>, Seq<char>)>, i: int, key: Seq<char>)
    ensures
        last_named(pairs, i, key) ==> auth::last_value(pairs, key) == Some(pairs[i].1),
        none_named(pairs, key) ==> auth::last_value(pairs, key) is None,
    decreases pairs.len(),
{
    if pairs.len() > 0 {
        let front = pairs.drop_last();
        if last_named(pairs, i, key) && i < pairs.len() - 1 {
            assert(pairs[pairs.len() - 1].0 != key);
            assert forall|j: int| i < j < front.len() implies (#[trigger] front[j]).0 != key by {
                assert(pairs[j].0 != key);
            }
            lemma_last_value(front, i, key);
        }
        if none_named(pairs, key) {
            assert(pairs[pairs.len() - 1].0 != key);
            assert forall|j: int| 0 <= j < front.len() implies (#[trigger] front[j]).0 != key by {
                assert(pairs[j].0 != key);
            }
            lemma_last_value(front, i, key);
        }
    }
}

/// The token of a handoff is the whole value of the last pair named `token`, whatever it is; the
/// origin is the whole value of the last pair named `origin`, and the note app's where no pair is
/// named so. Without a token there is no handoff.
pub proof fn law_handoff_is_read_whole(pairs: Seq<(Seq<char>, Seq<char>)>, i: int, j: int)
    ensures
        none_named(pairs, "token"@) ==> auth::handoff_in(pairs) is None,
        last_named(pairs, i, "token"@) ==> auth::handoff_in(pairs) is Some && auth::handoff_in(
            pairs,
        )->0.token == pairs[i].1,
        last_named(pairs, i, "token"@) && last_named(pairs, j, "origin"@) ==> auth::handoff_in(
            pairs,
        )->0.origin == pairs[j].1,
        last_named(pairs, i, "token"@) && none_named(pairs, "origin"@) ==> auth::handoff_in(
            pairs,
        )->0.origin == "https://note.planet-a-foods.com"@,
{
    lemma_last_value(pairs, i, "token"@);
    lemma_last_value(pairs, j, "origin"@);
}

/// A pair behind others: a token takes the place of the one before and leaves the origin, an origin
/// takes the place of the one before and leaves the token, and nothing else matters.
pub proof fn law_later_pairs_take_over(
    pairs: Seq<(Seq<char>, Seq<char>)>,
    name: Seq<char>,
    value: Seq<char>,
)
    ensures
        auth::handoff_in(pairs.push(("token"@, value))) is Some,
        auth::handoff_in(pairs.push(("token"@, value)))->0.token == value,
        auth::handoff_in(pairs) matches Some(handoff) ==> auth::handoff_in(
            pairs.push(("token"@, value)),
        ) == Some(HandoffModel { token: value, origin: handoff.origin }),
        auth::handoff_in(pairs) matches Some(handoff) ==> auth::handoff_in(
            pairs.push(("origin"@, value)),
        ) == Some(HandoffModel { token: handoff.token, origin: value }),
        name != "token"@ && name != "origin"@ ==> auth::handoff_in(pairs.push((name, value)))
            == auth::handoff_in(pairs),
{
    reveal_strlit("token");
    reveal_strlit("origin");
    assert("token"@.len() != "origin"@.len());
    auth::law_last_pair_counts(pairs, "token"@, "token"@, value);
    auth::law_last_pair_counts(pairs, "origin"@, "token"@, value);
    auth::law_last_pair_counts(pairs, "token"@, "origin"@, value);
    auth::law_last_pair_counts(pairs, "origin"@, "origin"@, value);
    auth::law_last_pair_counts(pairs, "token"@, name, value);
    auth::law_last_pair_counts(pairs, "origin"@, name, value);
}

/// A deep link carries what is read out of its query if it is `planetafoods` on `auth`, and
/// nothing if it is not.
pub proof fn law_deep_link(url: UrlModel)
    ensures
        url.scheme == "planetafoods"@ && url.host == Some("auth"@) ==> auth::deep_link_handoff(url)
            == auth::handoff_in(
            weburl::form_pairs(
                match url.query {
                    Some(query) => query,
                    None => Seq::empty(),
                },
            ),
        ),
        url.scheme != "planetafoods"@ || url.host != Some("auth"@) ==> auth::deep_link_handoff(
            url,
        ) is None,
{
}

/// A handoff is redeemed at its origin, without the slashes at the end, under
/// `/api/desktop-auth/exchange`, with the pair of `token` and the token, unchanged, behind the
/// query. Nothing else decides whether the URL has room.
pub proof fn law_exchange(origin: Seq<char>, slashes: nat, token: Seq<char>)
    requires
        origin.len() > 0 ==> origin.last() != '/',
    ensures
        ({
            let given = origin + Seq::new(slashes, |i: int| '/');
            let page = origin + "/api/desktop-auth/exchange"@;
            &&& auth::exchange_has_room(token, given) == weburl::has_room(page, "token"@, token)
            &&& weburl::url_parse(page) is None ==> auth::exchange(token, given) is None
            &&& weburl::url_parse(page) matches Some(url) ==> auth::exchange(token, given) == Some(
                url.with_pair("token"@, token),
            )
        }),
{
    text_laws::law_trim_undoes_padding(origin, '/', slashes);
}

/// At a URL over https on one of the hub's own hosts, the window comes to the front and then the
/// active tab, if there is one, is led to the whole URL, without a trace in its history.
pub proof fn law_redeeming_there(active: Option<u32>, url: UrlModel, host: Seq<char>)
    requires
        url.scheme == "https"@,
        url.host == Some(host),
        hosts::own(host),
    ensures
        ({
            let effects = auth::redeeming_at(active, Some(url));
            &&& effects.len() == if active is Some {
                2nat
            } else {
                1nat
            }
            &&& effects[0] == EffectModel::RaiseWindow
            &&& active matches Some(id) ==> effects[1] == (EffectModel::Eval {
                label: "content-"@ + text::decimal(id as nat),
                script: "window.location.replace("@ + auth::json_string(url.href) + ");"@,
            })
        }),
{
}

/// Anywhere else nothing is redeemed.
pub proof fn law_redeeming_elsewhere(active: Option<u32>, url: UrlModel)
    requires
        url.scheme != "https"@ || !(url.host matches Some(host) && hosts::own(host)),
    ensures
        auth::redeeming_at(active, Some(url)).len() == 0,
        auth::redeeming_at(active, None).len() == 0,
{
}

/// Redeeming a handoff is redeeming at the URL for it, token and origin as they are; without a
/// handoff, or without room for the token, nothing happens.
pub proof fn law_redeeming(active: Option<u32>, handoff: HandoffModel)
    ensures
        auth::exchange_has_room(handoff.token, handoff.origin) ==> auth::redeeming(
            active,
            Some(handoff),
        ) == auth::redeeming_at(active, auth::exchange(handoff.token, handoff.origin)),
        !auth::exchange_has_room(handoff.token, handoff.origin) ==> auth::redeeming(
            active,
            Some(handoff),
        ).len() == 0,
        auth::redeeming(active, None).len() == 0,
{
}

/// From the pairs to the tab: the token that counts is the token that the active tab redeems, at
/// the origin that counts.
pub proof fn law_token_arrives(
    pairs: Seq<(Seq<char>, Seq<char>)>,
    i: int,
    j: int,
    id: u32,
    url: UrlModel,
    host: Seq<char>,
)
    requires
        last_named(pairs, i, "token"@),
        last_named(pairs, j, "origin"@),
        pairs[j].1.len() > 0 ==> pairs[j].1.last() != '/',
        weburl::url_parse(pairs[j].1 + "/api/desktop-auth/exchange"@) == Some(url),
        weburl::has_room(
            pairs[j].1 + "/api/desktop-auth/exchange"@,
            "token"@,
            pairs[i].1,
        ),
        url.scheme == "https"@,
        url.host == Some(host),
        hosts::own(host),
    ensures
        ({
            let effects = auth::redeeming(Some(id), auth::handoff_in(pairs));
            &&& effects.len() == 2
            &&& effects[1] == (EffectModel::Eval {
                label: "content-"@ + text::decimal(id as nat),
                script: "window.location.replace("@ + auth::json_string(
                    url.with_pair("token"@, pairs[i].1).href,
                ) + ");"@,
            })
        }),
{
    law_handoff_is_read_whole(pairs, i, j);
    law_exchange(pairs[j].1, 0, pairs[i].1);
    assert(pairs[j].1 + Seq::new(0, |i: int| '/') =~= pairs[j].1);
    law_redeeming_there(Some(id), url.with_pair("token"@, pairs[i].1), host);
}

} // verus!
