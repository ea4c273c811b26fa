//! The loopback server that the system browser reports back to after a sign-in: reading its
//! request and writing the reply.

use vstd::prelude::*;

use crate::auth::{self, read_handoff, Handoff, HandoffModel};
use crate::effect::EffectModel;
use crate::text::{self, chars_of, is_whitespace, join, join3, starts_with, text_of, to_decimal};
use crate::weburl::{self, pairs_of, parse_url, Stretch, UrlModel};

verus! {

/// The page for a browser that brought a token.
pub const SIGNED_IN_PAGE: &'static str =
    "<!doctype html><meta charset=utf-8><title>Signed in</title><body style=\"font-family:-apple-system,sans-serif;background:#09090f;color:#e9e9f2;display:flex;align-items:center;justify-content:center;height:100vh;margin:0\"><p>Signed in — you can close this tab and return to Planet A Foods.</p></body>";

/// The page for any other request.
pub const NOT_FOUND_PAGE: &'static str = "<!doctype html><meta charset=utf-8><body>Not found</body>";

/// What the loopback server makes of a request: the reply to write, and the handoff to redeem
/// once it is written.
#[derive(Debug, PartialEq, Eq)]
pub struct LoopbackReply {
    pub response: String,
    pub handoff: Option<Handoff>,
}

/// The model of [`LoopbackReply`].
pub struct ReplyModel {
    pub response: Seq<char>,
    pub handoff: Option<HandoffModel>,
}

impl DeepView for LoopbackReply {
    type V = ReplyModel;

    open spec fn deep_view(&self) -> ReplyModel {
        ReplyModel { response: self.response@, handoff: self.handoff.deep_view() }
    }
}

/// The end of the run of white space, or, if `white` is false, of other characters, that starts
/// at `i`.
pub open spec fn run_end(s: Seq<char>, i: int, white: bool) -> int
    decreases s.len() - i,
{
    if 0 <= i < s.len() && text::is_white(s[i]) == white {
        run_end(s, i + 1, white)
    } else {
        i
    }
}

/// Where the second word of `s` starts.
pub open spec fn second_word_start(s: Seq<char>) -> int {
    run_end(s, run_end(s, run_end(s, 0, true), false), true)
}

/// The second word of `s`, where words are separated by white space; empty if there is none.
pub open spec fn second_word(s: Seq<char>) -> Seq<char> {
    let start = second_word_start(s);
    s.subrange(start, run_end(s, start, false))
}

/// The first line of `s`, up to the line feed. A carriage return before that is white space, and
/// stays.
pub open spec fn first_line(s: Seq<char>) -> Seq<char>
    decreases s.len(),
{
    if s.len() == 0 || s[0] == '\n' {
        Seq::empty()
    } else {
        seq![s[0]] + first_line(s.skip(1))
    }
}

/// The target in the request line of `request`.
pub open spec fn request_target(request: Seq<char>) -> Seq<char> {
    second_word(first_line(request))
}

/// The pairs that a request for `target` brings: those in the query, if it is for the callback.
pub open spec fn target_pairs(target: Seq<char>) -> Seq<(Seq<char>, Seq<char>)> {
    if "/callback"@.is_prefix_of(target) {
        match weburl::url_parse("http://127.0.0.1"@ + target) {
            Some(url) => weburl::form_pairs(url.query_text()),
            None => seq![],
        }
    } else {
        seq![]
    }
}

/// The reply with `body`, its length given in bytes.
pub open spec fn http_response(status: Seq<char>, body: Seq<char>) -> Seq<char> {
    "HTTP/1.1 "@ + status + "\r\nContent-Type: text/html; charset=utf-8\r\nContent-Length: "@
        + text::decimal(weburl::utf8_len(body)) + "\r\nConnection: close\r\n\r\n"@ + body
}

/// The reply to a request that brought `handoff`.
pub open spec fn reply_to(handoff: Option<HandoffModel>) -> ReplyModel {
    ReplyModel {
        response: if handoff is Some {
            http_response("200 OK"@, SIGNED_IN_PAGE@)
        } else {
            http_response("404 Not Found"@, NOT_FOUND_PAGE@)
        },
        handoff,
    }
}

/// What `String::from_utf8_lossy` makes of bytes that need not be UTF-8.
pub uninterp spec fn utf8_lossy(bytes: Seq<u8>) -> Seq<char>;

/// `String::from_utf8_lossy`: bytes that are UTF-8 are decoded as such. Where they are not, the
/// text depends on the bytes alone; which it is is left to the standard library.
#[verifier::external_body]
fn decode_lossy(bytes: &[u8]) -> (r: String)
    ensures
        r@ == utf8_lossy(bytes@),
        vstd::utf8::valid_utf8(bytes@) ==> r@ == vstd::utf8::decode_utf8(bytes@),
{
    String::from_utf8_lossy(bytes).into_owned()
}

fn end_of_run(s: &Vec<char>, from: usize, white: bool) -> (r: usize)
    requires
        from <= s@.len(),
    ensures
        from <= r <= s@.len(),
        r == run_end(s@, from as int, white),
{
    let mut i: usize = from;
    while i < s.len() && is_whitespace(s[i]) == white
        invariant
            from <= i <= s@.len(),
            run_end(s@, i as int, white) == run_end(s@, from as int, white),
        decreases s@.len() - i,
    {
        i += 1;
    }
    i
}

fn line_of(s: &Vec<char>) -> (r: Vec<char>)
    ensures
        r@ == first_line(s@),
{
    let mut out: Vec<char> = Vec::new();
    let mut i: usize = 0;
    assert(s@.skip(0) =~= s@);
    while i < s.len() && s[i] != '\n'
        invariant
            i <= s@.len(),
            first_line(s@) == out@ + first_line(s@.skip(i as int)),
        decreases s@.len() - i,
    {
        let ghost before = out@;
        out.push(s[i]);
        proof {
            let rest = s@.skip(i as int);
            assert(rest.skip(1) =~= s@.skip(i + 1));
            assert(out@ + first_line(rest.skip(1)) =~= before + (seq![rest[0]] + first_line(
                rest.skip(1),
            )));
        }
        i += 1;
    }
    assert(out@ + first_line(s@.skip(i as int)) =~= out@);
    out
}

/// The target in the request line of `request`; empty if there is none.
pub fn read_target(request: &str) -> (r: String)
    ensures
        r@ == request_target(request@),
{
    let line = line_of(&chars_of(request));
    let first: usize = end_of_run(&line, 0, true);
    let gap: usize = end_of_run(&line, first, false);
    let start: usize = end_of_run(&line, gap, true);
    let end: usize = end_of_run(&line, start, false);
    text_of(&line, start, end)
}

fn page_response(status: &str, body: &str) -> (r: String)
    ensures
        r@ == http_response(status@, body@),
{
    let head = join3(
        "HTTP/1.1 ",
        status,
        "\r\nContent-Type: text/html; charset=utf-8\r\nContent-Length: ",
    );
    let head = join3(
        &head,
        &to_decimal(body.as_bytes().len() as u64),
        "\r\nConnection: close\r\n\r\n",
    );
    join(&head, body)
}

/// The reply to a request that brought these pairs in its query: success and the handoff if
/// there is a token among them, and otherwise that there is nothing here.
pub fn reply_for(pairs: &Vec<(String, String)>) -> (r: LoopbackReply)
    ensures
        r.deep_view() == reply_to(auth::handoff_in(pairs.deep_view())),
{
    let handoff = read_handoff(pairs);
    let response = if handoff.is_some() {
        page_response("200 OK", SIGNED_IN_PAGE)
    } else {
        page_response("404 Not Found", NOT_FOUND_PAGE)
    };
    LoopbackReply { response, handoff }
}

/// A callback target makes the address of the callback.
proof fn lemma_callback_text(query: Seq<char>)
    ensures
        "/callback"@.is_prefix_of("/callback?"@ + query),
        "http://127.0.0.1"@ + ("/callback?"@ + query) == weburl::callback_front() + query,
{
    reveal_strlit("/callback");
    reveal_strlit("/callback?");
    reveal_strlit("http://127.0.0.1");
    reveal_strlit("http://127.0.0.1/callback?");
    assert(("/callback?"@ + query).subrange(0, "/callback"@.len() as int) =~= "/callback"@);
    assert("http://127.0.0.1"@ + "/callback?"@ =~= weburl::callback_front());
    assert("http://127.0.0.1"@ + ("/callback?"@ + query) =~= weburl::callback_front() + query);
}

/// The address that a callback target makes stays within what its parser counts up to.
proof fn lemma_callback_countable(target: Seq<char>)
    requires
        "/callback"@.is_prefix_of(target),
    ensures
        weburl::countable("http://127.0.0.1"@ + target),
{
    reveal_strlit("/callback");
    reveal_strlit("http://127.0.0.1");
    reveal_strlit("http://127.0.0.1/");
    reveal_strlit("https:");
    reveal_strlit("http:");
    let front = "http://127.0.0.1/"@;
    let rest = target.skip(1);
    assert(target[0] == "/callback"@[0]);
    assert("http://127.0.0.1"@ + target =~= front + rest);
    weburl::lemma_read_front(front, rest);
    let s = front + weburl::read_chars(rest);
    assert(weburl::stretch_end(s, 0, Stretch::Blanks) == 0);
    assert(s.skip(0) =~= s);
    assert(text::lower(s)[4] == ':');
    assert(!"https:"@.is_prefix_of(text::lower(s))) by {
        assert("https:"@[4] == 's');
        if "https:"@.is_prefix_of(text::lower(s)) {
            assert(text::lower(s).subrange(0, 6)[4] == 's');
        }
    }
    assert("http:"@ =~= text::lower(s).subrange(0, 5));
    assert(weburl::stretch_end(s, 5, Stretch::Slashes) == 7) by {
        reveal_with_fuel(weburl::stretch_end, 4);
    }
    assert(weburl::stretch_end(s, 7, Stretch::Authority) == 16) by {
        reveal_with_fuel(weburl::stretch_end, 11);
    }
}

/// Answers one request, of which `request` is what was read from the connection. From a query of
/// printable ASCII behind the callback, the handoff is the one in the query as it was written.
pub fn handle_loopback(request: &[u8]) -> (r: LoopbackReply)
    ensures
        r.deep_view() == reply_to(
            auth::handoff_in(target_pairs(request_target(utf8_lossy(request@)))),
        ),
        vstd::utf8::valid_utf8(request@) ==> utf8_lossy(request@) == vstd::utf8::decode_utf8(
            request@,
        ),
        forall|query: Seq<char>| #[trigger]
            weburl::callback_query(query) && request_target(utf8_lossy(request@)) == "/callback?"@
                + query ==> r.deep_view() == reply_to(auth::written_handoff(query)),
{
    let target = read_target(&decode_lossy(request));
    let mut pairs: Vec<(String, String)> = Vec::new();
    assert(pairs.deep_view() =~= seq![]);
    if starts_with(&target, "/callback") {
        proof {
            lemma_callback_countable(target@);
        }
        if let Some(url) = parse_url(&join("http://127.0.0.1", &target)) {
            pairs = pairs_of(&url);
        }
    }
    proof {
        assert forall|query: Seq<char>| #[trigger]
            weburl::callback_query(query) && target@ == "/callback?"@ + query implies pairs.deep_view()
            == weburl::form_pairs(weburl::before_fragment(query)) by {
            lemma_callback_text(query);
        }
    }
    reply_for(&pairs)
}

/// A stretch of one kind that nothing of that kind follows is a run.
pub(crate) proof fn lemma_run_over(s: Seq<char>, i: int, j: int, white: bool)
    requires
        0 <= i <= j <= s.len(),
        forall|k: int| i <= k < j ==> text::is_white(#[trigger] s[k]) == white,
        j < s.len() ==> text::is_white(s[j]) != white,
    ensures
        run_end(s, i, white) == j,
    decreases j - i,
{
    if i < j {
        assert(text::is_white(s[i]) == white);
        lemma_run_over(s, i + 1, j, white);
    }
}

/// The first line of a text that starts with a whole line.
proof fn lemma_first_line(line: Seq<char>, rest: Seq<char>)
    requires
        !line.contains('\n'),
    ensures
        first_line(line + seq!['\n'] + rest) == line,
    decreases line.len(),
{
    let s = line + seq!['\n'] + rest;
    if line.len() > 0 {
        assert(line[0] != '\n');
        assert forall|k: int| 0 <= k < line.skip(1).len() implies line.skip(1)[k] != '\n' by {
            assert(line[k + 1] != '\n');
        }
        lemma_first_line(line.skip(1), rest);
        assert(s.skip(1) =~= line.skip(1) + seq!['\n'] + rest);
        assert(seq![s[0]] + line.skip(1) =~= line);
    } else {
        assert(s[0] == '\n');
        assert(first_line(s) =~= line);
    }
}

/// The target of an HTTP request is what stands between the method and the version, whatever
/// headers follow.
pub proof fn law_target_of_request_line(
    method: Seq<char>,
    target: Seq<char>,
    version: Seq<char>,
    rest: Seq<char>,
)
    requires
        method.len() > 0,
        target.len() > 0,
        forall|k: int| 0 <= k < method.len() ==> !text::is_white(#[trigger] method[k]),
        forall|k: int| 0 <= k < target.len() ==> !text::is_white(#[trigger] target[k]),
        !version.contains('\n'),
    ensures
        request_target(
            method + seq![' '] + target + seq![' '] + version + seq!['\r', '\n'] + rest,
        ) == target,
{
    let line = method + seq![' '] + target + seq![' '] + version + seq!['\r'];
    let request = method + seq![' '] + target + seq![' '] + version + seq!['\r', '\n'] + rest;
    let m = method.len() as int;
    let t = target.len() as int;
    assert forall|k: int| 0 <= k < line.len() implies line[k] != '\n' by {
        if k < m {
            assert(!text::is_white(method[k]));
        } else if m < k < m + 1 + t {
            assert(!text::is_white(target[k - m - 1]));
        } else if m + t + 2 <= k < m + t + 2 + version.len() {
            assert(version[k - m - t - 2] != '\n');
        }
    }
    assert(request =~= line + seq!['\n'] + rest);
    lemma_first_line(line, rest);
    assert forall|k: int| 0 <= k < m implies text::is_white(#[trigger] line[k]) == false by {
        assert(line[k] == method[k]);
    }
    assert forall|k: int| m + 1 <= k < m + 1 + t implies text::is_white(#[trigger] line[k])
        == false by {
        assert(line[k] == target[k - m - 1]);
    }
    assert(line[m] == ' ');
    assert(line[m + 1 + t] == ' ');
    lemma_run_over(line, 0, 0, true);
    lemma_run_over(line, 0, m, false);
    lemma_run_over(line, m, m + 1, true);
    lemma_run_over(line, m + 1, m + 1 + t, false);
    assert(line.subrange(m + 1, m + 1 + t) =~= target);
}

/// A request for anything but the callback is told that there is nothing here, and nothing is
/// redeemed for it.
pub proof fn law_other_targets_are_refused(target: Seq<char>)
    requires
        !"/callback"@.is_prefix_of(target),
    ensures
        auth::handoff_in(target_pairs(target)) is None,
        reply_to(auth::handoff_in(target_pairs(target))).response == http_response(
            "404 Not Found"@,
            NOT_FOUND_PAGE@,
        ),
{
}

/// Whatever the browser puts behind the callback address that it was given, the target that it
/// then asks for is the callback's.
pub proof fn law_callback_address_is_recognised(port: u16, query: Seq<char>)
    ensures
        (auth::callback(port) + query).skip(
            ("http://127.0.0.1:"@ + text::decimal(port as nat)).len() as int,
        ) == "/callback"@ + query,
        "/callback"@.is_prefix_of("/callback"@ + query),
{
    let address = "http://127.0.0.1:"@ + text::decimal(port as nat);
    assert((auth::callback(port) + query).skip(address.len() as int) =~= "/callback"@ + query);
    assert(("/callback"@ + query).subrange(0, "/callback"@.len() as int) =~= "/callback"@);
}

/// Both ways back from the browser redeem alike: a callback and a deep link that bring the same
/// pairs bring the same handoff, or none, and with it do the same.
pub proof fn law_callback_and_deep_link_redeem_alike(
    target: Seq<char>,
    url: UrlModel,
    active: Option<u32>,
)
    requires
        url.scheme == "planetafoods"@,
        url.host == Some("auth"@),
        target_pairs(target) == weburl::form_pairs(url.query_text()),
    ensures
        reply_to(auth::handoff_in(target_pairs(target))).handoff == auth::deep_link_handoff(url),
        auth::redeeming(active, reply_to(auth::handoff_in(target_pairs(target))).handoff)
            == auth::redeeming(active, auth::deep_link_handoff(url)),
{
}

/// A callback and a deep link that were written with the same query redeem alike: redeeming what
/// the reply to the one hands on does what the other does, and the browser is told of success
/// where there is something to redeem.
pub proof fn law_written_query_redeems_alike(
    query: Seq<char>,
    active: Option<u32>,
    reply: ReplyModel,
    effects: Seq<EffectModel>,
)
    requires
        reply == reply_to(auth::written_handoff(query)),
        effects == auth::redeeming(active, auth::written_handoff(query)),
    ensures
        auth::redeeming(active, reply.handoff) == effects,
        reply.response == http_response("200 OK"@, SIGNED_IN_PAGE@) <==> auth::written_handoff(
            query,
        ) is Some,
{
    reveal_strlit("HTTP/1.1 ");
    reveal_strlit("200 OK");
    reveal_strlit("404 Not Found");
    let found = http_response("200 OK"@, SIGNED_IN_PAGE@);
    let missing = http_response("404 Not Found"@, NOT_FOUND_PAGE@);
    assert(found[9] == '2');
    assert(missing[9] == '4');
}

} // verus!
