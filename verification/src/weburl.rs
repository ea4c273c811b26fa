//! URLs, as far as the hub looks at them. Parsing them, extending their query and reading its
//! pairs is left to the `url` crate.

use vstd::prelude::*;

use crate::text::{self, chars_of, starts_with, text_of, to_ascii_lowercase};

verus! {

/// The parts of a URL that the hub looks at.
#[derive(Debug, PartialEq, Eq)]
pub struct WebUrl {
    /// The whole URL.
    pub href: String,
    pub scheme: String,
    pub host: Option<String>,
    pub path: String,
    /// What stands between `?` and `#`, without either.
    pub query: Option<String>,
    /// What stands behind `#`.
    pub fragment: Option<String>,
}

/// The model of [`WebUrl`].
pub struct UrlModel {
    pub href: Seq<char>,
    pub scheme: Seq<char>,
    pub host: Option<Seq<char>>,
    pub path: Seq<char>,
    pub query: Option<Seq<char>>,
    pub fragment: Option<Seq<char>>,
}

impl DeepView for WebUrl {
    type V = UrlModel;

    open spec fn deep_view(&self) -> UrlModel {
        UrlModel {
            href: self.href@,
            scheme: self.scheme@,
            host: self.host.deep_view(),
            path: self.path@,
            query: self.query.deep_view(),
            fragment: self.fragment.deep_view(),
        }
    }
}

/// The hexadecimal digit for `d`, where `d < 16`, in upper case.
pub open spec fn hex_upper(d: int) -> char {
    if d < 10 {
        (48 + d) as char
    } else {
        (55 + d) as char
    }
}

/// How a byte of a name or value stands in a query: letters, digits and `*-._` as they are, a
/// space as `+`, any other byte as `%` and two hexadecimal digits.
pub open spec fn form_byte(b: u8) -> Seq<char> {
    if (0x30 <= b <= 0x39) || (0x41 <= b <= 0x5a) || (0x61 <= b <= 0x7a) || b == 0x2a || b == 0x2d
        || b == 0x2e || b == 0x5f {
        seq![b as char]
    } else if b == 0x20 {
        seq!['+']
    } else {
        seq!['%', hex_upper(b as int / 16), hex_upper(b as int % 16)]
    }
}

/// How the bytes of a name or value stand in a query.
pub open spec fn form_bytes(bytes: Seq<u8>) -> Seq<char>
    decreases bytes.len(),
{
    if bytes.len() == 0 {
        Seq::empty()
    } else {
        form_bytes(bytes.drop_last()) + form_byte(bytes.last())
    }
}

/// How a name or value stands in a query.
pub open spec fn form_encode(s: Seq<char>) -> Seq<char> {
    form_bytes(vstd::utf8::encode_utf8(s))
}

/// The number of bytes that `s` takes up in UTF-8.
pub open spec fn utf8_len(s: Seq<char>) -> nat {
    vstd::utf8::encode_utf8(s).len()
}

impl UrlModel {
    /// The query, empty where there is none.
    pub open spec fn query_text(self) -> Seq<char> {
        match self.query {
            Some(query) => query,
            None => Seq::empty(),
        }
    }

    /// The query and the fragment, as they stand at the end of the URL.
    pub open spec fn tail(self) -> Seq<char> {
        let query = match self.query {
            Some(query) => "?"@ + query,
            None => Seq::empty(),
        };
        let fragment = match self.fragment {
            Some(fragment) => "#"@ + fragment,
            None => Seq::empty(),
        };
        query + fragment
    }

    /// The URL without its query and fragment.
    pub open spec fn stem(self) -> Seq<char> {
        self.href.take(self.href.len() - self.tail().len())
    }

    /// The text is made up of the scheme, a colon, `middle`, the query and the fragment.
    pub open spec fn spelled(self, middle: Seq<char>) -> bool {
        self.href == self.scheme + ":"@ + middle + self.tail()
    }

    /// The text starts with the scheme and a colon and ends with the query and the fragment.
    pub open spec fn laid_out(self) -> bool {
        exists|middle: Seq<char>| self.spelled(middle)
    }

    /// The query with the pair of `key` and `value` behind what it holds.
    pub open spec fn query_with(self, key: Seq<char>, value: Seq<char>) -> Seq<char> {
        let separator = if self.query_text().len() > 0 {
            "&"@
        } else {
            Seq::empty()
        };
        self.query_text() + separator + form_encode(key) + "="@ + form_encode(value)
    }

    /// The URL with the pair of `key` and `value` added to its query, the rest unchanged.
    pub open spec fn with_pair(self, key: Seq<char>, value: Seq<char>) -> UrlModel {
        let next = UrlModel { query: Some(self.query_with(key, value)), ..self };
        UrlModel { href: self.stem() + next.tail(), ..next }
    }
}

/// What `url::Url::parse` makes of a string: the parts of the URL, or nothing where it refuses
/// the string.
pub uninterp spec fn url_parse(input: Seq<char>) -> Option<UrlModel>;

/// The name and value pairs that `url::Url::query_pairs` reads out of a query.
pub uninterp spec fn form_pairs(query: Seq<char>) -> Seq<(Seq<char>, Seq<char>)>;

/// What becomes of the URL written `base` when a pair is added to its query.
pub open spec fn extended(base: Seq<char>, key: Seq<char>, value: Seq<char>) -> Option<UrlModel> {
    match url_parse(base) {
        Some(url) => Some(url.with_pair(key, value)),
        None => None,
    }
}

/// The characters of `input` that the parser of a [`url::Url`] reads: it passes over tabs and line
/// ends.
pub open spec fn read_chars(input: Seq<char>) -> Seq<char>
    decreases input.len(),
{
    if input.len() == 0 {
        Seq::empty()
    } else {
        let front = read_chars(input.drop_last());
        let c = input.last();
        if c == '\t' || c == '\n' || c == '\r' {
            front
        } else {
            front.push(c)
        }
    }
}

/// The stretches that a web address starts with.
#[derive(Clone, Copy)]
pub enum Stretch {
    /// Spaces and control characters before the scheme.
    Blanks,
    /// Slashes, either way round, behind the scheme.
    Slashes,
    /// The user, host and port: up to a slash, either way round, or the query or fragment.
    Authority,
}

/// `c` can stand in the stretch.
pub open spec fn in_stretch(c: char, stretch: Stretch) -> bool {
    match stretch {
        Stretch::Blanks => c <= ' ',
        Stretch::Slashes => c == '/' || c == '\\',
        Stretch::Authority => c != '/' && c != '\\' && c != '?' && c != '#',
    }
}

/// The end of the stretch that starts at `i`.
pub open spec fn stretch_end(s: Seq<char>, i: int, stretch: Stretch) -> int
    decreases s.len() - i,
{
    if 0 <= i < s.len() && in_stretch(s[i], stretch) {
        stretch_end(s, i + 1, stretch)
    } else {
        i
    }
}

/// The length of the scheme that `s` starts with, with its colon, where it is `https` or `http`.
pub open spec fn web_scheme_len(s: Seq<char>) -> Option<int> {
    if "https:"@.is_prefix_of(text::lower(s)) {
        Some(6)
    } else if "http:"@.is_prefix_of(text::lower(s)) {
        Some(5)
    } else {
        None
    }
}

/// `input` stays within what the parser of a [`url::Url`] counts up to. In a web address it counts
/// the slashes behind the scheme in an unsigned number of 32 bits, and the characters of the
/// authority in a signed one. With another scheme, the whole text is to be as short as that.
pub open spec fn countable(input: Seq<char>) -> bool {
    let s = read_chars(input);
    let start = stretch_end(s, 0, Stretch::Blanks);
    match web_scheme_len(s.skip(start)) {
        Some(n) => {
            let authority = stretch_end(s, start + n, Stretch::Slashes);
            &&& authority - (start + n) <= u32::MAX
            &&& stretch_end(s, authority, Stretch::Authority) - authority <= i32::MAX
        },
        None => s.len() <= i32::MAX,
    }
}

/// The URL written `base` can be parsed, and stays within the offsets of a [`url::Url`], which
/// have 32 bits, when a pair is added to its query: a query that is not there yet has to start
/// within them, and so has a fragment behind the longer query.
pub open spec fn has_room(base: Seq<char>, key: Seq<char>, value: Seq<char>) -> bool {
    &&& countable(base)
    &&& url_parse(base) matches Some(url) ==> {
        &&& url.query is None ==> utf8_len(url.stem()) <= u32::MAX
        &&& url.fragment is Some ==> utf8_len(
            url.stem() + "?"@ + url.query_with(key, value),
        ) <= u32::MAX
    }
}

/// The address of the loopback callback, up to its query.
pub open spec fn callback_front() -> Seq<char> {
    "http://127.0.0.1/callback?"@
}

/// Printable ASCII without a space.
pub open spec fn printable(query: Seq<char>) -> bool {
    forall|i: int| 0 <= i < query.len() ==> '!' <= #[trigger] query[i] && query[i] <= '~'
}

/// `query` up to a `#`, where the fragment starts.
pub open spec fn before_fragment(query: Seq<char>) -> Seq<char>
    decreases query.len(),
{
    if query.len() == 0 || query[0] == '#' {
        Seq::empty()
    } else {
        seq![query[0]] + before_fragment(query.skip(1))
    }
}

/// How a printable ASCII character stands in the query of a URL: `"`, `<` and `>` are encoded, and
/// in a web address so is `'`.
pub open spec fn query_char(c: char, web: bool) -> Seq<char> {
    if c == '"' {
        seq!['%', '2', '2']
    } else if c == '<' {
        seq!['%', '3', 'C']
    } else if c == '>' {
        seq!['%', '3', 'E']
    } else if c == '\'' && web {
        seq!['%', '2', '7']
    } else {
        seq![c]
    }
}

/// The query that a URL, in a web address or another, holds when it is written with `query`.
pub open spec fn kept_query(query: Seq<char>, web: bool) -> Seq<char>
    decreases query.len(),
{
    if query.len() == 0 || query[0] == '#' {
        Seq::empty()
    } else {
        query_char(query[0], web) + kept_query(query.skip(1), web)
    }
}

/// `query` can stand behind the address of the loopback callback: it is printable ASCII, and a
/// fragment in it starts within the offsets of a [`url::Url`], which have 32 bits.
pub open spec fn callback_query(query: Seq<char>) -> bool {
    &&& printable(query)
    &&& query.contains('#') ==> (callback_front() + kept_query(query, true)).len() <= u32::MAX
}

/// `url::Url::parse`, with the parts read by `as_str`, `scheme`, `host_str` and `path`, and the
/// query and fragment by slicing, which reaches every offset that a `Url` can have. The result
/// depends on the string alone; what it is for a given string is left to the crate, but for
/// this: the text of a URL starts with its scheme and a colon, and its query and fragment stand
/// at the end; and behind the address of the loopback callback a query of printable ASCII is
/// kept up to its fragment, with four characters encoded. The parser can overflow beyond what
/// [`countable`] admits.
#[verifier::external_body]
pub(crate) fn parse_url(input: &str) -> (r: Option<WebUrl>)
    requires
        countable(input@),
    ensures
        r.deep_view() == url_parse(input@),
        r matches Some(url) ==> url.deep_view().laid_out(),
        forall|query: Seq<char>| #[trigger]
            callback_query(query) && input@ == callback_front() + query ==> r.deep_view() is Some
                && r.deep_view()->0.query == Some(kept_query(query, true)),
{
    let url = url::Url::parse(input).ok()?;
    let query = &url[url::Position::AfterPath..url::Position::AfterQuery];
    let fragment = &url[url::Position::AfterQuery..];
    Some(WebUrl {
        href: url.as_str().to_owned(),
        scheme: url.scheme().to_owned(),
        host: url.host_str().map(str::to_owned),
        path: url.path().to_owned(),
        query: query.strip_prefix('?').map(str::to_owned),
        fragment: fragment.strip_prefix('#').map(str::to_owned),
    })
}

/// `append_pair` on `url::Url::query_pairs_mut`, for the URL written `base`. The pair is encoded
/// and put behind the query, after a `&` where that is not empty; scheme, host, path and
/// fragment stay. Reading the new query gives the pairs of the old one and then this pair, name
/// and value unchanged. Beyond what [`has_room`] admits the call can panic.
#[verifier::external_body]
pub(crate) fn append_query_pair(base: &str, key: &str, value: &str) -> (r: Option<WebUrl>)
    requires
        has_room(base@, key@, value@),
    ensures
        r.deep_view() == extended(base@, key@, value@),
        r matches Some(url) ==> form_pairs(url.deep_view().query_text()) == form_pairs(
            url_parse(base@)->0.query_text(),
        ).push((key@, value@)),
        r matches Some(url) ==> url.deep_view().laid_out(),
{
    let mut url = url::Url::parse(base).ok()?;
    url.query_pairs_mut().append_pair(key, value);
    let query = &url[url::Position::AfterPath..url::Position::AfterQuery];
    let fragment = &url[url::Position::AfterQuery..];
    Some(WebUrl {
        href: url.as_str().to_owned(),
        scheme: url.scheme().to_owned(),
        host: url.host_str().map(str::to_owned),
        path: url.path().to_owned(),
        query: query.strip_prefix('?').map(str::to_owned),
        fragment: fragment.strip_prefix('#').map(str::to_owned),
    })
}

/// `url::form_urlencoded::parse`, which is what `url::Url::query_pairs` calls on the query of a
/// URL, or on the empty string where it has none. The pairs depend on the query alone; which
/// they are is left to the crate. An empty query has none, and what a URL encodes in a query of
/// printable ASCII is decoded again: the pairs are those of the query as it was written.
#[verifier::external_body]
pub(crate) fn query_pairs(query: &str) -> (r: Vec<(String, String)>)
    ensures
        r.deep_view() == form_pairs(query@),
        query@.len() == 0 ==> r.deep_view().len() == 0,
        forall|written: Seq<char>, web: bool|
            printable(written) && query@ == #[trigger] kept_query(written, web) ==> r.deep_view()
                == form_pairs(before_fragment(written)),
{
    url::form_urlencoded::parse(query.as_bytes()).into_owned().collect()
}

/// Texts in a row take up the bytes of each.
proof fn lemma_utf8_len_adds(a: Seq<char>, b: Seq<char>)
    ensures
        utf8_len(a + b) == utf8_len(a) + utf8_len(b),
    decreases a.len(),
{
    if a.len() == 0 {
        assert(a + b =~= b);
    } else {
        assert((a + b).drop_first() =~= a.drop_first() + b);
        lemma_utf8_len_adds(a.drop_first(), b);
    }
}

/// What stands for bytes in a query is ASCII.
proof fn lemma_form_is_ascii(bytes: Seq<u8>)
    ensures
        vstd::utf8::is_ascii_chars(form_bytes(bytes)),
    decreases bytes.len(),
{
    if bytes.len() > 0 {
        lemma_form_is_ascii(bytes.drop_last());
        let front = form_bytes(bytes.drop_last());
        let last = form_byte(bytes.last());
        assert forall|i: int| 0 <= i < last.len() implies '\0' <= #[trigger] last[i]
            <= '\u{7f}' by {}
        assert forall|i: int| 0 <= i < (front + last).len() implies '\0' <= #[trigger] (front
            + last)[i] <= '\u{7f}' by {
            if i < front.len() {
                assert((front + last)[i] == front[i]);
            } else {
                assert((front + last)[i] == last[i - front.len()]);
            }
        }
    }
}

/// A separator takes up one byte.
proof fn lemma_separators()
    ensures
        utf8_len("?"@) == 1,
        utf8_len("#"@) == 1,
        utf8_len("&"@) == 1,
        utf8_len("="@) == 1,
        utf8_len(Seq::<char>::empty()) == 0,
{
    reveal_strlit("?");
    reveal_strlit("#");
    reveal_strlit("&");
    reveal_strlit("=");
    vstd::utf8::is_ascii_chars_encode_utf8("?"@);
    vstd::utf8::is_ascii_chars_encode_utf8("#"@);
    vstd::utf8::is_ascii_chars_encode_utf8("&"@);
    vstd::utf8::is_ascii_chars_encode_utf8("="@);
}

/// The number of bytes that `s` takes up as a name or value in a query.
fn form_len(s: &str) -> (r: u128)
    ensures
        r == utf8_len(form_encode(s@)),
        r <= 3 * utf8_len(s@),
        utf8_len(s@) <= usize::MAX,
{
    let bytes = s.as_bytes();
    let mut count: u128 = 0;
    let mut i: usize = 0;
    assert(bytes@.take(0) =~= Seq::empty());
    while i < bytes.len()
        invariant
            i <= bytes@.len(),
            count == form_bytes(bytes@.take(i as int)).len(),
            count <= 3 * i,
        decreases bytes@.len() - i,
    {
        let b: u8 = bytes[i];
        assert(bytes@.take(i + 1).drop_last() =~= bytes@.take(i as int));
        if (0x30 <= b && b <= 0x39) || (0x41 <= b && b <= 0x5a) || (0x61 <= b && b <= 0x7a) || b
            == 0x2a || b == 0x2d || b == 0x2e || b == 0x5f || b == 0x20 {
            count += 1;
        } else {
            count += 3;
        }
        i += 1;
    }
    proof {
        assert(bytes@.take(i as int) =~= bytes@);
        lemma_form_is_ascii(bytes@);
        vstd::utf8::is_ascii_chars_encode_utf8(form_bytes(bytes@));
    }
    count
}

/// The number of bytes that `s` takes up.
fn byte_len(s: &str) -> (r: u128)
    ensures
        r == utf8_len(s@),
        r <= usize::MAX,
{
    s.as_bytes().len() as u128
}

/// The parser reads every character of a front that holds no tab or line end.
pub(crate) proof fn lemma_read_front(front: Seq<char>, rest: Seq<char>)
    requires
        forall|i: int|
            0 <= i < front.len() ==> #[trigger] front[i] != '\t' && front[i] != '\n' && front[i]
                != '\r',
    ensures
        read_chars(front + rest) == front + read_chars(rest),
    decreases front.len() + rest.len(),
{
    if rest.len() > 0 {
        lemma_read_front(front, rest.drop_last());
        assert((front + rest).drop_last() =~= front + rest.drop_last());
        assert(read_chars(front + rest) =~= front + read_chars(rest));
    } else {
        assert(front + rest =~= front);
        if front.len() > 0 {
            assert(front.drop_last() + rest =~= front.drop_last());
            lemma_read_front(front.drop_last(), rest);
        }
        assert(read_chars(front) =~= front);
        assert(front + read_chars(rest) =~= front);
    }
}

/// The characters that the parser reads.
fn chars_read(input: &str) -> (r: Vec<char>)
    ensures
        r@ == read_chars(input@),
{
    let chars = chars_of(input);
    let mut out: Vec<char> = Vec::new();
    let mut i: usize = 0;
    while i < chars.len()
        invariant
            i <= chars@.len(),
            out@ == read_chars(chars@.take(i as int)),
        decreases chars@.len() - i,
    {
        let c = chars[i];
        assert(chars@.take(i + 1).drop_last() =~= chars@.take(i as int));
        if c != '\t' && c != '\n' && c != '\r' {
            out.push(c);
        }
        i += 1;
    }
    assert(chars@.take(i as int) =~= chars@);
    out
}

/// The end of the stretch of `s` that starts at `from`.
fn end_of_stretch(s: &Vec<char>, from: usize, stretch: Stretch) -> (r: usize)
    requires
        from <= s@.len(),
    ensures
        from <= r <= s@.len(),
        r == stretch_end(s@, from as int, stretch),
{
    let mut i: usize = from;
    while i < s.len()
        invariant
            from <= i <= s@.len(),
            stretch_end(s@, i as int, stretch) == stretch_end(s@, from as int, stretch),
        ensures
            i <= s@.len(),
            from <= i,
            i == stretch_end(s@, from as int, stretch),
        decreases s@.len() - i,
    {
        let c = s[i];
        let within = match stretch {
            Stretch::Blanks => c <= ' ',
            Stretch::Slashes => c == '/' || c == '\\',
            Stretch::Authority => c != '/' && c != '\\' && c != '?' && c != '#',
        };
        if !within {
            break;
        }
        i += 1;
    }
    i
}

/// Whether `input` stays within what its parser counts up to.
pub fn can_parse(input: &str) -> (r: bool)
    ensures
        r == countable(input@),
{
    let s = chars_read(input);
    let start: usize = end_of_stretch(&s, 0, Stretch::Blanks);
    let rest = text_of(&s, start, s.len());
    assert(rest@ =~= s@.skip(start as int));
    let lowered = to_ascii_lowercase(&rest);
    let scheme_len: usize = if starts_with(&lowered, "https:") {
        6
    } else if starts_with(&lowered, "http:") {
        5
    } else {
        return s.len() as u128 <= i32::MAX as u128;
    };
    proof {
        reveal_strlit("https:");
        reveal_strlit("http:");
    }
    let slashes: usize = start + scheme_len;
    let authority: usize = end_of_stretch(&s, slashes, Stretch::Slashes);
    let end: usize = end_of_stretch(&s, authority, Stretch::Authority);
    (authority - slashes) as u128 <= u32::MAX as u128 && (end - authority) as u128
        <= i32::MAX as u128
}

/// Whether the URL written `base` has room for another pair in its query.
pub fn room_for_pair(base: &str, key: &str, value: &str) -> (r: bool)
    ensures
        r == has_room(base@, key@, value@),
{
    if !can_parse(base) {
        return false;
    }
    let url = match parse_url(base) {
        Some(url) => url,
        None => {
            return true;
        },
    };
    let ghost model = url.deep_view();
    let held: u128 = byte_len(&url.href);
    let (asked, mark, separator): (u128, u128, u128) = match &url.query {
        Some(query) => if query.as_str().is_empty() {
            (byte_len(query), 1, 0)
        } else {
            (byte_len(query), 1, 1)
        },
        None => (0, 0, 0),
    };
    let behind: u128 = match &url.fragment {
        Some(fragment) => 1 + byte_len(fragment),
        None => 0,
    };
    let added: u128 = form_len(key) + 1 + form_len(value);
    proof {
        lemma_separators();
        let query_part = match model.query {
            Some(query) => "?"@ + query,
            None => Seq::empty(),
        };
        let fragment_part = match model.fragment {
            Some(fragment) => "#"@ + fragment,
            None => Seq::empty(),
        };
        lemma_utf8_len_adds("?"@, model.query_text());
        if model.fragment is Some {
            lemma_utf8_len_adds("#"@, model.fragment->0);
        }
        lemma_utf8_len_adds(query_part, fragment_part);
        let middle = choose|middle: Seq<char>| model.spelled(middle);
        assert(model.stem() =~= model.scheme + ":"@ + middle);
        assert(model.href =~= model.stem() + model.tail());
        lemma_utf8_len_adds(model.stem(), model.tail());

        let text = model.query_text();
        let sep = if text.len() > 0 {
            "&"@
        } else {
            Seq::empty()
        };
        lemma_utf8_len_adds(text, sep);
        lemma_utf8_len_adds(text + sep, form_encode(key@));
        lemma_utf8_len_adds(text + sep + form_encode(key@), "="@);
        lemma_utf8_len_adds(text + sep + form_encode(key@) + "="@, form_encode(value@));
        lemma_utf8_len_adds(model.stem(), "?"@);
        lemma_utf8_len_adds(model.stem() + "?"@, model.query_with(key@, value@));
    }
    let stem: u128 = held - (mark + asked) - behind;
    let limit: u128 = u32::MAX as u128;
    (url.query.is_some() || stem <= limit) && (url.fragment.is_none() || stem + 1 + asked
        + separator + added <= limit)
}

/// The pairs in the query of `url`. Where that was written with printable ASCII, they are the pairs
/// of what was written.
pub fn pairs_of(url: &WebUrl) -> (r: Vec<(String, String)>)
    ensures
        r.deep_view() == form_pairs(url.deep_view().query_text()),
        url.query is None ==> r.deep_view().len() == 0,
        forall|written: Seq<char>, web: bool|
            printable(written) && url.deep_view().query_text() == #[trigger] kept_query(written, web)
                ==> r.deep_view() == form_pairs(before_fragment(written)),
{
    match &url.query {
        Some(query) => query_pairs(query),
        None => {
            let pairs = query_pairs("");
            assert(""@ =~= Seq::<char>::empty()) by {
                reveal_strlit("");
            }
            pairs
        },
    }
}

} // verus!
