//! Which hosts are the hub's, which are outside services and which hand a sign-in over.

use vstd::prelude::*;

use crate::hosts;
use crate::text;

verus! {

/// A host in the form in which it is usually written: without capitals, and without a dot at the
/// end.
pub open spec fn plain(host: Seq<char>) -> bool {
    &&& forall|i: int| 0 <= i < host.len() ==> !('A' <= #[trigger] host[i] && host[i] <= 'Z')
    &&& host.len() > 0 ==> host.last() != '.'
}

proof fn lemma_plain(host: Seq<char>)
    requires
        plain(host),
    ensures
        hosts::host_key(host) == host,
{
    assert(text::lower(host) =~= host);
}

/// The outside services are `personio.com`, `spendesk.com`, `qwikinow.de` and whatever stands
/// before one of them and a dot.
pub proof fn law_outside_services(host: Seq<char>)
    requires
        plain(host),
    ensures
        hosts::external(host) <==> host == "personio.com"@ || host == "spendesk.com"@ || host
            == "qwikinow.de"@ || ".personio.com"@.is_suffix_of(host)
            || ".spendesk.com"@.is_suffix_of(host) || ".qwikinow.de"@.is_suffix_of(host),
{
    lemma_plain(host);
    reveal_strlit(".");
    reveal_strlit("personio.com");
    reveal_strlit("spendesk.com");
    reveal_strlit("qwikinow.de");
    reveal_strlit(".personio.com");
    reveal_strlit(".spendesk.com");
    reveal_strlit(".qwikinow.de");
    assert("."@ + "personio.com"@ =~= ".personio.com"@);
    assert("."@ + "spendesk.com"@ =~= ".spendesk.com"@);
    assert("."@ + "qwikinow.de"@ =~= ".qwikinow.de"@);
}

/// The hub's own hosts are `planet-a-foods.com` and whatever stands before it and a dot.
pub proof fn law_own_hosts(host: Seq<char>)
    requires
        plain(host),
    ensures
        hosts::own(host) <==> host == "planet-a-foods.com"@ || ".planet-a-foods.com"@.is_suffix_of(
            host,
        ),
{
    lemma_plain(host);
    reveal_strlit(".");
    reveal_strlit("planet-a-foods.com");
    reveal_strlit(".planet-a-foods.com");
    assert("."@ + "planet-a-foods.com"@ =~= ".planet-a-foods.com"@);
}

/// Five apps hand a sign-in over, and nothing below them does.
pub proof fn law_hosts_that_hand_over(host: Seq<char>)
    requires
        plain(host),
    ensures
        hosts::desktop_auth(host) <==> host == "note.planet-a-foods.com"@ || host
            == "feedback.planet-a-foods.com"@ || host == "commodity.planet-a-foods.com"@ || host
            == "coa.planet-a-foods.com"@ || host == "analytics.planet-a-foods.com"@,
{
    lemma_plain(host);
}

/// However a host is written, it is as good as its plain form: with any number of dots behind it,
/// and with any of its letters as capitals.
pub proof fn law_spelling_is_ignored(host: Seq<char>, spelled: Seq<char>, dots: nat)
    requires
        plain(host),
        spelled.len() == host.len(),
        forall|i: int|
            0 <= i < host.len() ==> #[trigger] spelled[i] == host[i] || 'a' <= host[i] && host[i]
                <= 'z' && spelled[i] as u32 == host[i] as u32 - 32,
    ensures
        ({
            let written = spelled + Seq::new(dots, |i: int| '.');
            &&& hosts::external(written) == hosts::external(host)
            &&& hosts::own(written) == hosts::own(host)
            &&& hosts::desktop_auth(written) == hosts::desktop_auth(host)
        }),
{
    lemma_plain(host);
    if spelled.len() > 0 {
        let last = spelled.len() - 1;
        assert(spelled[last] == host[last] || 'a' <= host[last]);
    }
    crate::text_laws::law_trim_undoes_padding(spelled, '.', dots);
    assert forall|i: int| 0 <= i < host.len() implies text::lower(spelled)[i] == host[i] by {
        assert(!('A' <= host[i] && host[i] <= 'Z'));
        assert(spelled[i] == host[i] || 'a' <= host[i]);
    }
    assert(text::lower(spelled) =~= host);
}

} // verus!
