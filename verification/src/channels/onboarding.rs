//! The first conversation with a new owner.

use crate::text as t;
use vstd::prelude::*;
use vstd::string::*;

verus! {

pub open spec fn onboarded_reply(reply: Seq<char>) -> Seq<char> {
    if t::has(reply, "[[ONBOARDING_COMPLETE]]"@) {
        t::trimmed(t::replaced(reply, "[[ONBOARDING_COMPLETE]]"@, ""@))
    } else {
        reply
    }
}

/// The text to send for a reply, and whether the reply ends the interview.
pub fn finalize_onboarding_reply(reply: &str) -> (r: (String, bool))
    ensures
        r.0@ == onboarded_reply(reply@),
        r.1 == t::has(reply@, "[[ONBOARDING_COMPLETE]]"@),
{
    proof {
        reveal_strlit("[[ONBOARDING_COMPLETE]]");
    }
    if t::contains(reply, "[[ONBOARDING_COMPLETE]]") {
        let plain = t::replace(reply, "[[ONBOARDING_COMPLETE]]", "");
        (t::trim(plain.as_str()), true)
    } else {
        (reply.to_owned(), false)
    }
}

pub open spec fn first_contact() -> Seq<char> {
    "[FIRST CONTACT - your owner just paired with you; they have NOT spoken yet.]\n\nGreet them warmly and briefly in your own voice (per SOUL.md), then begin a short onboarding interview. Ask their name and how they'd like to be addressed, their timezone / working hours, and the main things they want your help with. Ask only 1-2 questions at a time - keep it natural, not a form. As you learn durable facts, save them to your memory and fill in IDENTITY.md's \"Who you are to me\" section. Send your greeting and first question now."@
}

/// The directive of the first turn: greet the owner and begin the interview.
pub fn onboarding_prompt() -> (r: String)
    ensures
        r@ == first_contact(),
{
    "[FIRST CONTACT - your owner just paired with you; they have NOT spoken yet.]\n\nGreet them warmly and briefly in your own voice (per SOUL.md), then begin a short onboarding interview. Ask their name and how they'd like to be addressed, their timezone / working hours, and the main things they want your help with. Ask only 1-2 questions at a time - keep it natural, not a form. As you learn durable facts, save them to your memory and fill in IDENTITY.md's \"Who you are to me\" section. Send your greeting and first question now.".to_owned()
}

/// A reply without the marker is sent as it is; of one with the marker, the
/// marker is no part of what is sent.
pub proof fn law_the_marker_is_no_part_of_the_reply(a: Seq<char>, b: Seq<char>, reply: Seq<char>)
    requires
        !t::has(reply, "[[ONBOARDING_COMPLETE]]"@),
        !t::has(b, "[[ONBOARDING_COMPLETE]]"@),
        forall|j: int|
            0 <= j < a.len() ==> !t::occurs_at(
                a + "[[ONBOARDING_COMPLETE]]"@ + b,
                "[[ONBOARDING_COMPLETE]]"@,
                j,
            ),
    ensures
        onboarded_reply(reply) == reply,
        onboarded_reply(a + "[[ONBOARDING_COMPLETE]]"@ + b) == t::trimmed(a + b),
{
    let m = "[[ONBOARDING_COMPLETE]]"@;
    reveal_strlit("[[ONBOARDING_COMPLETE]]");
    reveal_strlit("");
    assert(m.len() == 23);
    let s = a + m + b;
    t::lemma_has_part(a, m, b);
    t::law_a_text_is_cut_at_its_separator(a, m, b);
    t::lemma_find_from(s, m, 0);
    t::law_pieces_join_to_the_text(b, m);
    let parts = t::pieces(s, m);
    assert(parts =~= seq![a] + seq![b]);
    t::lemma_joined_front(a, seq![b], ""@);
    assert(t::joined(seq![b], ""@) == b);
    assert(a + ""@ + b =~= a + b);
}

} // verus!
