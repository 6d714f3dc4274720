//! Endpoint normalization: the base URL is given a trailing '/' once, at
//! construction, and request URLs are then plain concatenation with the key.

use vstd::prelude::*;
use vstd::string::{StrSliceExecFns, StringExecFns};

verus! {

/// True when an endpoint already carries its trailing '/'.
pub open spec fn is_normalized(e: Seq<char>) -> bool {
    e.len() > 0 && e.last() == '/'
}

/// The endpoint as requests use it: unchanged when it already ends in '/',
/// else with '/' appended.
pub open spec fn normalized(e: Seq<char>) -> Seq<char> {
    if is_normalized(e) {
        e
    } else {
        e.push('/')
    }
}

/// Append the trailing '/' when the endpoint lacks one.
pub fn normalize_endpoint(endpoint: &str) -> (r: String)
    ensures
        r@ == normalized(endpoint@),
        is_normalized(r@),
{
    proof {
        reveal_strlit("/");
    }
    let n = endpoint.unicode_len();
    if n > 0 && endpoint.get_char(n - 1) == '/' {
        endpoint.to_owned()
    } else {
        let mut s = endpoint.to_owned();
        s.append("/");
        proof {
            assert(s@ =~= endpoint@.push('/'));
        }
        s
    }
}

/// The URL used for a key is the normalized endpoint followed by the key:
/// the endpoint itself, then the key, when the endpoint ends in '/'; the
/// endpoint, a '/', then the key otherwise.
pub proof fn lemma_url_shape(e: Seq<char>, k: Seq<char>)
    ensures
        is_normalized(e) ==> normalized(e) + k == e + k,
        !is_normalized(e) ==> normalized(e) + k == e.push('/') + k,
{
}

} // verus!
