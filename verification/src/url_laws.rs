//! What adding a pair does to a URL, and how much a URL can hold.

use vstd::prelude::*;

use crate::text;
use crate::weburl::{self, Stretch, UrlModel};

verus! {

/// A pair goes behind what the query holds, and the rest of the URL stays: what stands before the
/// query, and the fragment.
pub proof fn law_pair_goes_behind(url: UrlModel, key: Seq<char>, value: Seq<char>)
    ensures
        ({
            let next = url.with_pair(key, value);
            let pair = weburl::form_encode(key) + "="@ + weburl::form_encode(value);
            &&& next.scheme == url.scheme
            &&& next.host == url.host
            &&& next.path == url.path
            &&& next.fragment == url.fragment
            &&& url.query is None ==> next.query == Some(pair)
            &&& url.query matches Some(query) ==> next.query == Some(
                if query.len() == 0 {
                    pair
                } else {
                    query + "&"@ + pair
                },
            )
        }),
{
    let text = url.query_text();
    let pair = weburl::form_encode(key) + "="@ + weburl::form_encode(value);
    assert(text + "&"@ + weburl::form_encode(key) + "="@ + weburl::form_encode(value) =~= text
        + "&"@ + pair);
    assert(Seq::<char>::empty() + Seq::empty() + weburl::form_encode(key) + "="@
        + weburl::form_encode(value) =~= pair);
    if url.query matches Some(_) && text.len() == 0 {
        assert(text =~= Seq::empty());
    }
}

/// The text that comes before the query stays the front of the text, and the fragment its end.
pub proof fn law_pair_keeps_the_text(url: UrlModel, key: Seq<char>, value: Seq<char>, front: Seq<char>)
    requires
        url.href == front + url.tail(),
    ensures
        url.with_pair(key, value).href == front + "?"@ + url.query_with(key, value) + (
        match url.fragment {
            Some(fragment) => "#"@ + fragment,
            None => Seq::empty(),
        }),
{
    assert(url.stem() =~= front);
    let next = url.with_pair(key, value);
    assert(next.href =~= front + "?"@ + url.query_with(key, value) + (match url.fragment {
        Some(fragment) => "#"@ + fragment,
        None => Seq::empty(),
    }));
}

/// What is read as the query of a URL without one is nothing.
pub proof fn law_query_text(url: UrlModel)
    ensures
        url.query matches Some(query) ==> url.query_text() == query,
        url.query is None ==> url.query_text().len() == 0,
{
}

proof fn lemma_stretch_bounds(s: Seq<char>, i: int, stretch: Stretch)
    requires
        0 <= i <= s.len(),
    ensures
        i <= weburl::stretch_end(s, i, stretch) <= s.len(),
    decreases s.len() - i,
{
    if i < s.len() && weburl::in_stretch(s[i], stretch) {
        lemma_stretch_bounds(s, i + 1, stretch);
    }
}

proof fn lemma_read_is_no_longer(input: Seq<char>)
    ensures
        weburl::read_chars(input).len() <= input.len(),
    decreases input.len(),
{
    if input.len() > 0 {
        lemma_read_is_no_longer(input.drop_last());
    }
}

/// Whatever it holds, a text of at most 2147483647 characters can be parsed.
pub proof fn law_short_texts_can_be_parsed(input: Seq<char>)
    requires
        input.len() <= 2147483647,
    ensures
        weburl::countable(input),
{
    lemma_read_is_no_longer(input);
    let s = weburl::read_chars(input);
    let start = weburl::stretch_end(s, 0, Stretch::Blanks);
    lemma_stretch_bounds(s, 0, Stretch::Blanks);
    reveal_strlit("https:");
    reveal_strlit("http:");
    if let Some(n) = weburl::web_scheme_len(s.skip(start)) {
        let authority = weburl::stretch_end(s, start + n, Stretch::Slashes);
        lemma_stretch_bounds(s, start + n, Stretch::Slashes);
        lemma_stretch_bounds(s, authority, Stretch::Authority);
    }
}

proof fn lemma_stretch_over(s: Seq<char>, i: int, j: int, stretch: Stretch)
    requires
        0 <= i <= j <= s.len(),
        forall|k: int| i <= k < j ==> weburl::in_stretch(#[trigger] s[k], stretch),
        j < s.len() ==> !weburl::in_stretch(s[j], stretch),
    ensures
        weburl::stretch_end(s, i, stretch) == j,
    decreases j - i,
{
    if i < j {
        assert(weburl::in_stretch(s[i], stretch));
        lemma_stretch_over(s, i + 1, j, stretch);
    }
}

/// Of a web address only the part between `https://` and the next slash has to be short: it can
/// be parsed exactly if that has at most 2147483647 characters, however long what follows is.
pub proof fn law_web_addresses_can_be_parsed(authority: Seq<char>, rest: Seq<char>)
    requires
        authority.len() > 0,
        forall|i: int|
            0 <= i < authority.len() ==> #[trigger] authority[i] != '/' && authority[i] != '\\'
                && authority[i] != '?' && authority[i] != '#' && authority[i] != '\t'
                && authority[i] != '\n' && authority[i] != '\r',
    ensures
        weburl::countable("https://"@ + authority + "/"@ + rest) <==> authority.len()
            <= 2147483647,
{
    reveal_strlit("https://");
    reveal_strlit("https:");
    reveal_strlit("/");
    let front = "https://"@ + authority + "/"@;
    assert forall|i: int| 0 <= i < front.len() implies #[trigger] front[i] != '\t' && front[i]
        != '\n' && front[i] != '\r' by {
        if 8 <= i < 8 + authority.len() {
            assert(front[i] == authority[i - 8]);
        }
    }
    weburl::lemma_read_front(front, rest);
    let s = weburl::read_chars(front + rest);
    let end = 8 + authority.len() as int;
    assert(s[0] == 'h');
    lemma_stretch_over(s, 0, 0, Stretch::Blanks);
    assert(s.skip(0) =~= s);
    assert("https:"@ =~= text::lower(s).subrange(0, 6));
    assert(s[8] == authority[0]);
    lemma_stretch_over(s, 6, 8, Stretch::Slashes);
    assert forall|k: int| 8 <= k < end implies weburl::in_stretch(
        #[trigger] s[k],
        Stretch::Authority,
    ) by {
        assert(s[k] == authority[k - 8]);
    }
    assert(s[end] == '/');
    lemma_stretch_over(s, 8, end, Stretch::Authority);
}

/// A URL that can be parsed has room for a pair if its text with the pair, up to the fragment,
/// takes up at most 4294967295 bytes; one with a query and no fragment always has.
pub proof fn law_room_for_a_pair(base: Seq<char>, key: Seq<char>, value: Seq<char>)
    requires
        weburl::countable(base),
    ensures
        weburl::url_parse(base) is None ==> weburl::has_room(base, key, value),
        weburl::url_parse(base) matches Some(url) ==> ({
            let before = weburl::utf8_len(url.stem());
            let with_pair = weburl::utf8_len(url.stem() + "?"@ + url.query_with(key, value));
            &&& before <= 4294967295 && with_pair <= 4294967295 ==> weburl::has_room(
                base,
                key,
                value,
            )
            &&& url.query is Some && url.fragment is None ==> weburl::has_room(base, key, value)
            &&& before <= 4294967295 && url.fragment is None ==> weburl::has_room(base, key, value)
            &&& url.fragment is Some && with_pair > 4294967295 ==> !weburl::has_room(
                base,
                key,
                value,
            )
            &&& url.query is None && before > 4294967295 ==> !weburl::has_room(base, key, value)
        }),
{
}

/// What cannot be parsed has no room.
pub proof fn law_no_room_without_parsing(base: Seq<char>, key: Seq<char>, value: Seq<char>)
    requires
        !weburl::countable(base),
    ensures
        !weburl::has_room(base, key, value),
{
}

} // verus!
