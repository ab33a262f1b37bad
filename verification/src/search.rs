//! Search backend client: the verified side of the gateway's traffic with
//! the external prefix-search index.
//!
//! The gateway asks the index for usernames matching a prefix. This module
//! builds that request: the query document (result size capped, prefix
//! trimmed of surrounding whitespace) and the request URL. The HTTP round
//! trip itself is I/O and lives with the driver; it hands the outcome back
//! to the session as plain values.

use vstd::prelude::*;

use crate::json::{append_json_string, jstr};

verus! {

/// ASCII whitespace, as trimmed from the edges of a prefix.
pub open spec fn is_ws(b: u8) -> bool {
    b == 32 || b == 9 || b == 10 || b == 13
}

/// `s` without its leading whitespace.
pub open spec fn trim_front(s: Seq<u8>) -> Seq<u8>
    decreases s.len(),
{
    if s.len() > 0 && is_ws(s[0]) {
        trim_front(s.skip(1))
    } else {
        s
    }
}

/// `s` without its trailing whitespace.
pub open spec fn trim_back(s: Seq<u8>) -> Seq<u8>
    decreases s.len(),
{
    if s.len() > 0 && is_ws(s[s.len() - 1]) {
        trim_back(s.take(s.len() - 1))
    } else {
        s
    }
}

/// `s` without leading or trailing whitespace.
pub open spec fn spec_trim(s: Seq<u8>) -> Seq<u8> {
    trim_back(trim_front(s))
}

fn is_ws_byte(b: u8) -> (r: bool)
    ensures
        r == is_ws(b),
{
    b == 32 || b == 9 || b == 10 || b == 13
}

/// Copy of `s` with leading and trailing ASCII whitespace removed.
pub fn trim(s: &Vec<u8>) -> (r: Vec<u8>)
    ensures
        r@ == spec_trim(s@),
{
    let mut lo: usize = 0;
    proof {
        assert(s@.skip(0) =~= s@);
    }
    while lo < s.len() && is_ws_byte(s[lo])
        invariant
            lo <= s@.len(),
            trim_front(s@) == trim_front(s@.skip(lo as int)),
        decreases s@.len() - lo,
    {
        proof {
            assert(s@.skip(lo as int)[0] == s@[lo as int]);
            assert(s@.skip(lo as int).skip(1) =~= s@.skip(lo + 1));
        }
        lo = lo + 1;
    }
    proof {
        if lo < s@.len() {
            assert(s@.skip(lo as int)[0] == s@[lo as int]);
        }
        assert(trim_front(s@) == s@.skip(lo as int));
    }
    let ghost u = s@.skip(lo as int);
    let mut hi: usize = s.len();
    proof {
        assert(u.take(s@.len() - lo) =~= u);
    }
    while hi > lo && is_ws_byte(s[hi - 1])
        invariant
            lo <= hi <= s@.len(),
            u == s@.skip(lo as int),
            trim_back(u) == trim_back(u.take(hi - lo)),
        decreases hi,
    {
        proof {
            let n = hi - lo;
            assert(u.take(n)[n - 1] == s@[hi - 1]);
            assert(u.take(n).take(n - 1) =~= u.take(n - 1));
        }
        hi = hi - 1;
    }
    proof {
        let n = hi - lo;
        if hi > lo {
            assert(u.take(n)[n - 1] == s@[hi - 1]);
        }
        assert(trim_back(u.take(n)) == u.take(n));
    }
    let mut out: Vec<u8> = Vec::new();
    let mut i: usize = lo;
    while i < hi
        invariant
            lo <= i <= hi <= s@.len(),
            out@ == s@.subrange(lo as int, i as int),
        decreases hi - i,
    {
        out.push(s[i]);
        proof {
            assert(out@ =~= s@.subrange(lo as int, i + 1 as int));
        }
        i = i + 1;
    }
    proof {
        assert(s@.subrange(lo as int, hi as int) =~= u.take(hi - lo));
    }
    out
}

/// The byte text `{"size":20,"query":{"prefix":{"username":`.
pub open spec fn l_body_pre() -> Seq<u8> {
    seq![
        123u8, 34u8, 115u8, 105u8, 122u8, 101u8, 34u8, 58u8, 50u8, 48u8, 44u8, 34u8, 113u8,
        117u8, 101u8, 114u8, 121u8, 34u8, 58u8, 123u8, 34u8, 112u8, 114u8, 101u8, 102u8, 105u8,
        120u8, 34u8, 58u8, 123u8, 34u8, 117u8, 115u8, 101u8, 114u8, 110u8, 97u8, 109u8, 101u8,
        34u8, 58u8,
    ]
}

/// The byte text `}}}`.
pub open spec fn l_body_post() -> Seq<u8> {
    seq![125u8, 125u8, 125u8]
}

/// The query document posted to the search index for `prefix`: a prefix
/// match on the username field, trimmed of surrounding whitespace, with the
/// result size capped at the default of twenty hits.
pub open spec fn spec_search_query(prefix: Seq<u8>) -> Seq<u8> {
    l_body_pre() + jstr(spec_trim(prefix)) + l_body_post()
}

pub fn build_search_query(prefix: &Vec<u8>) -> (body: Vec<u8>)
    ensures
        body@ == spec_search_query(prefix@),
{
    let mut body: Vec<u8> = vec![
        123u8, 34u8, 115u8, 105u8, 122u8, 101u8, 34u8, 58u8, 50u8, 48u8, 44u8, 34u8, 113u8,
        117u8, 101u8, 114u8, 121u8, 34u8, 58u8, 123u8, 34u8, 112u8, 114u8, 101u8, 102u8, 105u8,
        120u8, 34u8, 58u8, 123u8, 34u8, 117u8, 115u8, 101u8, 114u8, 110u8, 97u8, 109u8, 101u8,
        34u8, 58u8,
    ];
    proof {
        assert(body@ =~= l_body_pre());
    }
    let trimmed = trim(prefix);
    append_json_string(&mut body, &trimmed);
    body.push(125u8);
    body.push(125u8);
    body.push(125u8);
    proof {
        assert(body@ =~= spec_search_query(prefix@));
    }
    body
}

/// The byte text `https://`.
pub open spec fn l_url_scheme() -> Seq<u8> {
    seq![104u8, 116u8, 116u8, 112u8, 115u8, 58u8, 47u8, 47u8]
}

/// The byte text `/users/_search/`: the index holding the searchable
/// identities, and the index's search endpoint.
pub open spec fn l_url_path() -> Seq<u8> {
    seq![
        47u8, 117u8, 115u8, 101u8, 114u8, 115u8, 47u8, 95u8, 115u8, 101u8, 97u8, 114u8, 99u8,
        104u8, 47u8,
    ]
}

/// The URL the query document is posted to, for a given index endpoint
/// host.
pub open spec fn spec_search_url(endpoint: Seq<u8>) -> Seq<u8> {
    l_url_scheme() + endpoint + l_url_path()
}

pub fn build_search_url(endpoint: &Vec<u8>) -> (url: Vec<u8>)
    ensures
        url@ == spec_search_url(endpoint@),
{
    let mut url: Vec<u8> = vec![104u8, 116u8, 116u8, 112u8, 115u8, 58u8, 47u8, 47u8];
    proof {
        assert(url@ =~= l_url_scheme());
    }
    let mut k: usize = 0;
    while k < endpoint.len()
        invariant
            k <= endpoint@.len(),
            url@ == l_url_scheme() + endpoint@.take(k as int),
        decreases endpoint@.len() - k,
    {
        url.push(endpoint[k]);
        proof {
            assert(url@ =~= l_url_scheme() + endpoint@.take(k + 1 as int));
        }
        k = k + 1;
    }
    let mut path: Vec<u8> = vec![
        47u8, 117u8, 115u8, 101u8, 114u8, 115u8, 47u8, 95u8, 115u8, 101u8, 97u8, 114u8, 99u8,
        104u8, 47u8,
    ];
    proof {
        assert(path@ =~= l_url_path());
        assert(endpoint@.take(endpoint@.len() as int) =~= endpoint@);
    }
    url.append(&mut path);
    proof {
        assert(url@ =~= spec_search_url(endpoint@));
    }
    url
}

} // verus!
