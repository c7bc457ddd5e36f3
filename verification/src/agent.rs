//! The shapes exchanged with the two-stage query-generation collaborator,
//! and the sanitizer applied to its output. The collaborator itself (prompt
//! construction, model calls, response parsing) lives outside this crate.

use vstd::prelude::*;
use vstd::string::*;

use crate::text::push_char;

verus! {

/// A comment plus the queries to run against the store.
pub struct AgentResponse {
    pub comment: String,
    pub queries: Vec<String>,
}

/// The reformulated request handed to the query generator.
pub struct DoloresResponse {
    pub request_for_teddy: String,
}

/// The raw shape of the query generator's reply.
pub struct TeddyJsonObject {
    pub comment: String,
    pub queries: Vec<String>,
}

/// Whether a character survives sanitization: the NUL and unit-separator
/// control characters are stripped.
pub open spec fn spec_keep_char(c: char) -> bool {
    c != '\u{0}' && c != '\u{1f}'
}

/// A string with the stripped characters removed, order kept.
pub open spec fn spec_sanitized(s: Seq<char>) -> Seq<char> {
    s.filter(|c: char| spec_keep_char(c))
}

/// Removes the stripped control characters from one string.
pub fn sanitize_string(s: &str) -> (r: String)
    ensures
        r@ == spec_sanitized(s@),
{
    let len = s.unicode_len();
    let mut out = String::new();
    let mut i: usize = 0;
    proof {
        reveal(Seq::filter);
        assert(s@.take(0) =~= Seq::<char>::empty());
        assert(out@ =~= spec_sanitized(s@.take(0)));
    }
    while i < len
        invariant
            i <= len,
            len == s@.len(),
            out@ == spec_sanitized(s@.take(i as int)),
        decreases len - i,
    {
        let c = s.get_char(i);
        proof {
            reveal(Seq::filter);
            assert(s@.take(i + 1).drop_last() =~= s@.take(i as int));
            assert(s@.take(i + 1).last() == c);
        }
        if !(c == '\u{0}' || c == '\u{1f}') {
            push_char(&mut out, c);
        }
        i = i + 1;
    }
    proof {
        assert(s@.take(len as int) =~= s@);
    }
    out
}

/// Strips the control characters from the comment and from every query.
pub fn sanitize_values(response: AgentResponse) -> (r: AgentResponse)
    ensures
        r.comment@ == spec_sanitized(response.comment@),
        r.queries@.len() == response.queries@.len(),
        forall|i: int|
            0 <= i < response.queries@.len() ==> #[trigger] r.queries@[i]@ == spec_sanitized(
                response.queries@[i]@,
            ),
{
    let comment = sanitize_string(response.comment.as_str());
    let mut queries: Vec<String> = Vec::new();
    let mut i: usize = 0;
    while i < response.queries.len()
        invariant
            i <= response.queries@.len(),
            queries@.len() == i,
            forall|j: int|
                0 <= j < i ==> #[trigger] queries@[j]@ == spec_sanitized(response.queries@[j]@),
        decreases response.queries@.len() - i,
    {
        queries.push(sanitize_string(response.queries[i].as_str()));
        i = i + 1;
    }
    AgentResponse { comment, queries }
}

} // verus!
