//! The fingerprint of an action, used to notice an agent repeating itself.

use vstd::prelude::*;

use crate::hashing::{is_lower_hex, push_bytes, sha256_hex, sha256_hex_text};
use crate::ids::ActionName;
use crate::parse_output::skip_char_back;
use crate::text::{chars_of, same_text, string_of};

verus! {

/// Parameters dropped before hashing a paginated search, so that paging
/// through results counts as repeating the same search.
pub const PAGINATION_KEYS: [&'static str; 2] = ["max_results", "offset"];

/// How an action's parameters are normalized before hashing.
#[derive(Debug, Clone, Copy, PartialEq, Eq)]
pub enum HashNormalization {
    /// Drop the `PAGINATION_KEYS` from the parameter object.
    DropPagination,
    /// Replace the `url` parameter by its `strip_query` form.
    StripUrlQuery,
    /// Hash the parameters as they are.
    Unchanged,
}

/// The normalization for an action named `name`.
pub open spec fn normalization_of(name: Seq<char>) -> HashNormalization {
    if name == "search_page"@ || name == "find_elements"@ {
        HashNormalization::DropPagination
    } else if name == "navigate"@ {
        HashNormalization::StripUrlQuery
    } else {
        HashNormalization::Unchanged
    }
}

/// How to normalize the parameters of `name` before hashing.
pub fn hash_normalization(name: &ActionName) -> (n: HashNormalization)
    ensures
        n == normalization_of(name.0@),
{
    let s = name.0.as_str();
    if same_text(s, "search_page") || same_text(s, "find_elements") {
        HashNormalization::DropPagination
    } else if same_text(s, "navigate") {
        HashNormalization::StripUrlQuery
    } else {
        HashNormalization::Unchanged
    }
}

/// The index of the first `?` in `s`, or its length when there is none.
pub open spec fn query_start(s: Seq<char>) -> int {
    if exists|i: int| 0 <= i < s.len() && s[i] == '?' {
        choose|i: int| 0 <= i < s.len() && s[i] == '?' && forall|k: int| 0 <= k < i ==> #[trigger] s[k] != '?'
    } else {
        s.len() as int
    }
}

/// `s` cut at its first `?`, without trailing `/`.
pub open spec fn query_stripped(s: Seq<char>) -> Seq<char> {
    let q = query_start(s);
    s.take(skip_char_back(s, 0, q, '/'))
}

/// The URL without its query string and trailing slashes.
pub fn strip_query(url: &str) -> (r: String)
    ensures
        r@ == query_stripped(url@),
{
    let v = chars_of(url);
    let n = v.len();
    let mut q: usize = 0;
    while q < n && v[q] != '?'
        invariant
            v@ == url@,
            n == v@.len(),
            q <= n,
            forall|k: int| 0 <= k < q ==> #[trigger] v@[k] != '?',
        decreases n - q,
    {
        q = q + 1;
    }
    assert(q as int == query_start(url@)) by {
        if q < n {
            let c = choose|i: int| 0 <= i < url@.len() && url@[i] == '?' && forall|k: int| 0 <= k < i ==> #[trigger] url@[k] != '?';
            if c < q {
                assert(v@[c] != '?');
            } else if c > q {
                assert(url@[q as int] != '?');
            }
        }
    }
    let mut e = q;
    while e > 0 && v[e - 1] == '/'
        invariant
            v@ == url@,
            e <= q <= n,
            n == v@.len(),
            skip_char_back(url@, 0, e as int, '/') == skip_char_back(url@, 0, q as int, '/'),
        decreases e,
    {
        e = e - 1;
    }
    let mut out: Vec<char> = Vec::new();
    let mut i: usize = 0;
    while i < e
        invariant
            v@ == url@,
            e <= n,
            n == v@.len(),
            i <= e,
            out@ == url@.take(i as int),
        decreases e - i,
    {
        out.push(v[i]);
        assert(url@.take(i + 1) == url@.take(i as int).push(url@[i as int]));
        i = i + 1;
    }
    string_of(out.as_slice())
}

/// The bytes hashed for an action: its name, `|`, and its normalized parameters.
pub open spec fn action_hash_input(name: Seq<char>, normalized_params: Seq<char>) -> Seq<u8> {
    vstd::utf8::encode_utf8(name) + seq![124u8] + vstd::utf8::encode_utf8(normalized_params)
}

/// The hexadecimal SHA-256 of the action's name and its normalized parameters
/// (the JSON text of the parameters after `hash_normalization` applied).
pub fn hash_action(name: &ActionName, normalized_params: &str) -> (h: String)
    ensures
        h@ == sha256_hex(action_hash_input(name.0@, normalized_params@)),
        h@.len() == 64,
        is_lower_hex(h@),
{
    let sep: [u8; 1] = [124u8];
    let mut bytes: Vec<u8> = Vec::new();
    push_bytes(&mut bytes, name.0.as_str().as_bytes());
    push_bytes(&mut bytes, &sep);
    push_bytes(&mut bytes, normalized_params.as_bytes());
    assert(sep@ == seq![124u8]);
    sha256_hex_text(bytes.as_slice())
}


proof fn lemma_skip_back_prefix(s: Seq<char>, u: Seq<char>, j: int, c: char)
    requires
        0 <= j <= u.len() <= s.len(),
        s.take(u.len() as int) == u,
    ensures
        skip_char_back(s, 0, j, c) == skip_char_back(u, 0, j, c),
    decreases j,
{
    if j > 0 {
        assert(s[j - 1] == s.take(u.len() as int)[j - 1]);
        lemma_skip_back_prefix(s, u, j - 1, c);
    }
}

/// A URL's query string does not change its stripped form: two navigations
/// that differ only after the `?` hash alike.
pub proof fn law_query_ignored(u: Seq<char>, q: Seq<char>)
    requires
        forall|i: int| 0 <= i < u.len() ==> u[i] != '?',
    ensures
        query_stripped(u + seq!['?'] + q) == query_stripped(u),
{
    let s = u + seq!['?'] + q;
    let n = u.len() as int;
    assert(s[n] == '?');
    assert(query_start(s) == n) by {
        let c = choose|i: int| 0 <= i < s.len() && s[i] == '?' && forall|k: int| 0 <= k < i ==> #[trigger] s[k] != '?';
        if c < n {
            assert(s[c] == u[c]);
        } else if c > n {
            assert(s[n] != '?');
        }
    }
    assert(query_start(u) == n);
    assert(s.take(n) == u);
    lemma_skip_back_prefix(s, u, n, '/');
    let e = skip_char_back(u, 0, n, '/');
    assert(0 <= e <= n) by {
        lemma_skip_back_bounds(u, n);
    }
    assert(s.take(e) =~= u.take(e));
}

proof fn lemma_skip_back_bounds(u: Seq<char>, j: int)
    requires
        0 <= j <= u.len(),
    ensures
        0 <= skip_char_back(u, 0, j, '/') <= j,
    decreases j,
{
    if j > 0 && u[j - 1] == '/' {
        lemma_skip_back_bounds(u, j - 1);
    }
}

} // verus!
