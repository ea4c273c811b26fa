//! What the loopback server reads out of a request, and the whole text of its replies.

use vstd::prelude::*;

use crate::auth::{self, HandoffModel};
use crate::loopback;
use crate::text;
use crate::weburl;

verus! {

/// Nothing in `s` but white space, or, if `white` is false, none of it.
pub open spec fn all_white(s: Seq<char>, white: bool) -> bool {
    forall|k: int| 0 <= k < s.len() ==> text::is_white(#[trigger] s[k]) == white
}

proof fn lemma_first_line(line: Seq<char>, rest: Seq<char>)
    requires
        !line.contains('\n'),
        rest.len() > 0 ==> rest[0] == '\n',
    ensures
        loopback::first_line(line + rest) == line,
    decreases line.len(),
{
    let s = line + rest;
    if line.len() > 0 {
        assert(line[0] != '\n');
        assert forall|k: int| 0 <= k < line.skip(1).len() implies line.skip(1)[k] != '\n' by {
            assert(line[k + 1] != '\n');
        }
        lemma_first_line(line.skip(1), rest);
        assert(s.skip(1) =~= line.skip(1) + rest);
        assert(seq![s[0]] + line.skip(1) =~= line);
    } else {
        assert(loopback::first_line(s) =~= line);
    }
}

/// The target is the whole second word of the first line, whatever white space stands before,
/// between and behind the words, and whatever lines follow.
pub proof fn law_target_is_the_second_word(
    before: Seq<char>,
    method: Seq<char>,
    gap: Seq<char>,
    target: Seq<char>,
    behind: Seq<char>,
    lines: Seq<char>,
)
    requires
        all_white(before, true),
        all_white(method, false),
        method.len() > 0,
        all_white(gap, true),
        gap.len() > 0,
        all_white(target, false),
        target.len() > 0,
        behind.len() > 0 ==> text::is_white(behind[0]),
        !(before + method + gap + target + behind).contains('\n'),
        lines.len() > 0 ==> lines[0] == '\n',
    ensures
        loopback::request_target(before + method + gap + target + behind + lines) == target,
{
    let line = before + method + gap + target + behind;
    lemma_first_line(line, lines);
    let a = before.len() as int;
    let b = a + method.len();
    let c = b + gap.len();
    let d = c + target.len();
    assert forall|k: int| 0 <= k < a implies text::is_white(#[trigger] line[k]) == true by {
        assert(line[k] == before[k]);
    }
    assert forall|k: int| a <= k < b implies text::is_white(#[trigger] line[k]) == false by {
        assert(line[k] == method[k - a]);
    }
    assert forall|k: int| b <= k < c implies text::is_white(#[trigger] line[k]) == true by {
        assert(line[k] == gap[k - b]);
    }
    assert forall|k: int| c <= k < d implies text::is_white(#[trigger] line[k]) == false by {
        assert(line[k] == target[k - c]);
    }
    if d < line.len() {
        assert(line[d] == behind[0]);
    }
    assert(!text::is_white(line[a]));
    assert(text::is_white(line[b]));
    assert(!text::is_white(line[c]));
    loopback::lemma_run_over(line, 0, a, true);
    loopback::lemma_run_over(line, a, b, false);
    loopback::lemma_run_over(line, b, c, true);
    loopback::lemma_run_over(line, c, d, false);
    assert(line.subrange(c, d) =~= target);
}

/// A first line of fewer than two words has no target.
pub proof fn law_no_second_word_no_target(
    before: Seq<char>,
    method: Seq<char>,
    gap: Seq<char>,
    lines: Seq<char>,
)
    requires
        all_white(before, true),
        all_white(method, false),
        all_white(gap, true),
        !(before + method + gap).contains('\n'),
        lines.len() > 0 ==> lines[0] == '\n',
    ensures
        loopback::request_target(before + method + gap + lines).len() == 0,
{
    let line = before + method + gap;
    lemma_first_line(line, lines);
    let a = before.len() as int;
    let b = a + method.len();
    let c = b + gap.len();
    assert forall|k: int| 0 <= k < a implies text::is_white(#[trigger] line[k]) == true by {
        assert(line[k] == before[k]);
    }
    assert forall|k: int| a <= k < b implies text::is_white(#[trigger] line[k]) == false by {
        assert(line[k] == method[k - a]);
    }
    assert forall|k: int| b <= k < c implies text::is_white(#[trigger] line[k]) == true by {
        assert(line[k] == gap[k - b]);
    }
    if method.len() > 0 {
        assert(!text::is_white(line[a]));
        if b < c {
            assert(text::is_white(line[b]));
        }
        loopback::lemma_run_over(line, 0, a, true);
        loopback::lemma_run_over(line, a, b, false);
        loopback::lemma_run_over(line, b, c, true);
    } else {
        loopback::lemma_run_over(line, 0, c, true);
        loopback::lemma_run_over(line, c, c, false);
        loopback::lemma_run_over(line, c, c, true);
    }
    loopback::lemma_run_over(line, c, c, false);
}

/// Behind `/callback`, the pairs are those in the query of the address on the loopback host, all
/// of them; no other target brings any.
pub proof fn law_pairs_of_a_target(target: Seq<char>, rest: Seq<char>)
    ensures
        !"/callback"@.is_prefix_of(target) ==> loopback::target_pairs(target).len() == 0,
        ({
            let pairs = loopback::target_pairs("/callback"@ + rest);
            match weburl::url_parse("http://127.0.0.1/callback"@ + rest) {
                Some(url) => pairs == weburl::form_pairs(
                    match url.query {
                        Some(query) => query,
                        None => Seq::empty(),
                    },
                ),
                None => pairs.len() == 0,
            }
        }),
{
    reveal_strlit("/callback");
    reveal_strlit("http://127.0.0.1");
    reveal_strlit("http://127.0.0.1/callback");
    assert(("/callback"@ + rest).subrange(0, "/callback"@.len() as int) =~= "/callback"@);
    assert("http://127.0.0.1"@ + ("/callback"@ + rest) =~= "http://127.0.0.1/callback"@ + rest);
}

/// The reply to a request that brought a handoff: success, the page that says so, with its length
/// in bytes, and the handoff as it was brought.
pub proof fn law_reply_with_a_handoff(handoff: HandoffModel)
    ensures
        ({
            let page =
                "<!doctype html><meta charset=utf-8><title>Signed in</title><body style=\"font-family:-apple-system,sans-serif;background:#09090f;color:#e9e9f2;display:flex;align-items:center;justify-content:center;height:100vh;margin:0\"><p>Signed in — you can close this tab and return to Planet A Foods.</p></body>"@;
            let reply = loopback::reply_to(Some(handoff));
            &&& reply.handoff == Some(handoff)
            &&& reply.response
                == "HTTP/1.1 200 OK\r\nContent-Type: text/html; charset=utf-8\r\nContent-Length: "@
                + text::decimal(vstd::utf8::encode_utf8(page).len())
                + "\r\nConnection: close\r\n\r\n"@ + page
        }),
{
    reveal_strlit("HTTP/1.1 ");
    reveal_strlit("200 OK");
    reveal_strlit("\r\nContent-Type: text/html; charset=utf-8\r\nContent-Length: ");
    reveal_strlit("HTTP/1.1 200 OK\r\nContent-Type: text/html; charset=utf-8\r\nContent-Length: ");
    assert("HTTP/1.1 "@ + "200 OK"@
        + "\r\nContent-Type: text/html; charset=utf-8\r\nContent-Length: "@
        =~= "HTTP/1.1 200 OK\r\nContent-Type: text/html; charset=utf-8\r\nContent-Length: "@);
}

/// The reply to any other request: that there is nothing here, and nothing to redeem.
pub proof fn law_reply_without_a_handoff(reply: loopback::ReplyModel)
    requires
        reply == loopback::reply_to(None),
    ensures
        ({
            let page = "<!doctype html><meta charset=utf-8><body>Not found</body>"@;
            &&& reply.handoff is None
            &&& reply.response
                == "HTTP/1.1 404 Not Found\r\nContent-Type: text/html; charset=utf-8\r\nContent-Length: "@
                + text::decimal(vstd::utf8::encode_utf8(page).len())
                + "\r\nConnection: close\r\n\r\n"@ + page
        }),
{
    reveal_strlit("HTTP/1.1 ");
    reveal_strlit("404 Not Found");
    reveal_strlit("\r\nContent-Type: text/html; charset=utf-8\r\nContent-Length: ");
    reveal_strlit(
        "HTTP/1.1 404 Not Found\r\nContent-Type: text/html; charset=utf-8\r\nContent-Length: ",
    );
    assert("HTTP/1.1 "@ + "404 Not Found"@
        + "\r\nContent-Type: text/html; charset=utf-8\r\nContent-Length: "@
        =~= "HTTP/1.1 404 Not Found\r\nContent-Type: text/html; charset=utf-8\r\nContent-Length: "@);
}

} // verus!
