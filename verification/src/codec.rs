//! Frame codec: the JSON wire format of the gateway.
//!
//! Inbound text frames carry a tagged message union — a heartbeat echo or a
//! username-prefix search query. Outbound frames are the authentication
//! acknowledgments, the heartbeat probe, and the per-query search responses
//! (success with an ordered hit list, or failure with a message). Every
//! encoder is specified byte for byte, and the decoders are specified as
//! exact functions of the frame text; the round-trip lemmas at the end show
//! the decoders invert the encoders.
//!
//! The decoders read the canonical form the encoders write: fixed field
//! order and no insignificant whitespace. A frame in any other shape is
//! reported as malformed and dropped, which leaves the connection open, so
//! tolerating more shapes later is a compatible extension.

use vstd::prelude::*;

use crate::json::{
    append_json_string, bytes_eq, eat, jstr, lemma_lit_parse, lemma_str_parse,
    lemma_str_shrinks, parse_string, s_lit, s_str, QUOTE,
};

verus! {

pub const RBRACE: u8 = 125;
pub const RBRACKET: u8 = 93;
pub const COMMA: u8 = 44;

// ---------------------------------------------------------------------------
// Message types and their ghost mirrors.

/// One inbound application message, as decoded from a text frame.
#[derive(Debug, PartialEq, Eq, Clone)]
pub enum InboundMsg {
    /// A liveness signal; no response is generated.
    Heartbeat,
    /// A username-prefix search request with its caller-supplied
    /// correlation id.
    Query { id: Vec<u8>, prefix: Vec<u8> },
    /// A well-formed frame whose tag the gateway does not know.
    Unrecognized,
}

/// Ghost mirror of `InboundMsg` over byte sequences.
pub enum InboundModel {
    Heartbeat,
    Query { id: Seq<u8>, prefix: Seq<u8> },
    Unrecognized,
}

pub open spec fn inbound_view(m: InboundMsg) -> InboundModel {
    match m {
        InboundMsg::Heartbeat => InboundModel::Heartbeat,
        InboundMsg::Query { id, prefix } => InboundModel::Query { id: id@, prefix: prefix@ },
        InboundMsg::Unrecognized => InboundModel::Unrecognized,
    }
}

pub open spec fn inbound_opt_view(m: Option<InboundMsg>) -> Option<InboundModel> {
    match m {
        Some(i) => Some(inbound_view(i)),
        None => None,
    }
}

/// A search response frame, as decoded by a client.
#[derive(Debug, PartialEq, Eq, Clone)]
pub enum SearchResponseMsg {
    Success { id: Vec<u8>, hits: Vec<Vec<u8>> },
    Failure { id: Vec<u8>, error: Vec<u8> },
}

/// Ghost mirror of `SearchResponseMsg` over byte sequences.
pub enum SearchResponseModel {
    Success { id: Seq<u8>, hits: Seq<Seq<u8>> },
    Failure { id: Seq<u8>, error: Seq<u8> },
}

pub open spec fn response_view(m: SearchResponseMsg) -> SearchResponseModel {
    match m {
        SearchResponseMsg::Success { id, hits } => SearchResponseModel::Success {
            id: id@,
            hits: hits.deep_view(),
        },
        SearchResponseMsg::Failure { id, error } => SearchResponseModel::Failure {
            id: id@,
            error: error@,
        },
    }
}

pub open spec fn response_opt_view(m: Option<SearchResponseMsg>) -> Option<SearchResponseModel> {
    match m {
        Some(r) => Some(response_view(r)),
        None => None,
    }
}

// ---------------------------------------------------------------------------
// The fixed byte texts of the wire format.

/// The byte text `{"tag":`.
pub open spec fn l_obj_tag() -> Seq<u8> {
    seq![123u8, 34u8, 116u8, 97u8, 103u8, 34u8, 58u8]
}

/// The byte text `heartbeat`.
pub open spec fn l_tag_heartbeat() -> Seq<u8> {
    seq![104u8, 101u8, 97u8, 114u8, 116u8, 98u8, 101u8, 97u8, 116u8]
}

/// The byte text `identitySearchQuery`.
pub open spec fn l_tag_query() -> Seq<u8> {
    seq![
        105u8, 100u8, 101u8, 110u8, 116u8, 105u8, 116u8, 121u8, 83u8, 101u8, 97u8, 114u8, 99u8,
        104u8, 81u8, 117u8, 101u8, 114u8, 121u8,
    ]
}

/// The byte text `,"id":`.
pub open spec fn l_q_id() -> Seq<u8> {
    seq![44u8, 34u8, 105u8, 100u8, 34u8, 58u8]
}

/// The byte text `,"searchMethod":{"prefix":`.
pub open spec fn l_q_method() -> Seq<u8> {
    seq![
        44u8, 34u8, 115u8, 101u8, 97u8, 114u8, 99u8, 104u8, 77u8, 101u8, 116u8, 104u8, 111u8,
        100u8, 34u8, 58u8, 123u8, 34u8, 112u8, 114u8, 101u8, 102u8, 105u8, 120u8, 34u8, 58u8,
    ]
}

/// The byte text `{"status":"success"}`.
pub open spec fn l_auth_success() -> Seq<u8> {
    seq![
        123u8, 34u8, 115u8, 116u8, 97u8, 116u8, 117u8, 115u8, 34u8, 58u8, 34u8, 115u8, 117u8,
        99u8, 99u8, 101u8, 115u8, 115u8, 34u8, 125u8,
    ]
}

/// The byte text `{"status":"error","message":`.
pub open spec fn l_auth_err_pre() -> Seq<u8> {
    seq![
        123u8, 34u8, 115u8, 116u8, 97u8, 116u8, 117u8, 115u8, 34u8, 58u8, 34u8, 101u8, 114u8,
        114u8, 111u8, 114u8, 34u8, 44u8, 34u8, 109u8, 101u8, 115u8, 115u8, 97u8, 103u8, 101u8,
        34u8, 58u8,
    ]
}

/// The byte text `{"id":`.
pub open spec fn l_resp_id() -> Seq<u8> {
    seq![123u8, 34u8, 105u8, 100u8, 34u8, 58u8]
}

/// The byte text `,"status":"success","hits":[`.
pub open spec fn l_resp_success() -> Seq<u8> {
    seq![
        44u8, 34u8, 115u8, 116u8, 97u8, 116u8, 117u8, 115u8, 34u8, 58u8, 34u8, 115u8, 117u8,
        99u8, 99u8, 101u8, 115u8, 115u8, 34u8, 44u8, 34u8, 104u8, 105u8, 116u8, 115u8, 34u8,
        58u8, 91u8,
    ]
}

/// The byte text `,"status":"error","error":`.
pub open spec fn l_resp_error() -> Seq<u8> {
    seq![
        44u8, 34u8, 115u8, 116u8, 97u8, 116u8, 117u8, 115u8, 34u8, 58u8, 34u8, 101u8, 114u8,
        114u8, 111u8, 114u8, 34u8, 44u8, 34u8, 101u8, 114u8, 114u8, 111u8, 114u8, 34u8, 58u8,
    ]
}

fn l_obj_tag_vec() -> (v: Vec<u8>)
    ensures
        v@ == l_obj_tag(),
{
    let v: Vec<u8> = vec![123u8, 34u8, 116u8, 97u8, 103u8, 34u8, 58u8];
    proof {
        assert(v@ =~= l_obj_tag());
    }
    v
}

fn l_tag_heartbeat_vec() -> (v: Vec<u8>)
    ensures
        v@ == l_tag_heartbeat(),
{
    let v: Vec<u8> = vec![104u8, 101u8, 97u8, 114u8, 116u8, 98u8, 101u8, 97u8, 116u8];
    proof {
        assert(v@ =~= l_tag_heartbeat());
    }
    v
}

fn l_tag_query_vec() -> (v: Vec<u8>)
    ensures
        v@ == l_tag_query(),
{
    let v: Vec<u8> = vec![
        105u8, 100u8, 101u8, 110u8, 116u8, 105u8, 116u8, 121u8, 83u8, 101u8, 97u8, 114u8, 99u8,
        104u8, 81u8, 117u8, 101u8, 114u8, 121u8,
    ];
    proof {
        assert(v@ =~= l_tag_query());
    }
    v
}

fn l_q_id_vec() -> (v: Vec<u8>)
    ensures
        v@ == l_q_id(),
{
    let v: Vec<u8> = vec![44u8, 34u8, 105u8, 100u8, 34u8, 58u8];
    proof {
        assert(v@ =~= l_q_id());
    }
    v
}

fn l_q_method_vec() -> (v: Vec<u8>)
    ensures
        v@ == l_q_method(),
{
    let v: Vec<u8> = vec![
        44u8, 34u8, 115u8, 101u8, 97u8, 114u8, 99u8, 104u8, 77u8, 101u8, 116u8, 104u8, 111u8,
        100u8, 34u8, 58u8, 123u8, 34u8, 112u8, 114u8, 101u8, 102u8, 105u8, 120u8, 34u8, 58u8,
    ];
    proof {
        assert(v@ =~= l_q_method());
    }
    v
}

fn l_auth_success_vec() -> (v: Vec<u8>)
    ensures
        v@ == l_auth_success(),
{
    let v: Vec<u8> = vec![
        123u8, 34u8, 115u8, 116u8, 97u8, 116u8, 117u8, 115u8, 34u8, 58u8, 34u8, 115u8, 117u8,
        99u8, 99u8, 101u8, 115u8, 115u8, 34u8, 125u8,
    ];
    proof {
        assert(v@ =~= l_auth_success());
    }
    v
}

fn l_auth_err_pre_vec() -> (v: Vec<u8>)
    ensures
        v@ == l_auth_err_pre(),
{
    let v: Vec<u8> = vec![
        123u8, 34u8, 115u8, 116u8, 97u8, 116u8, 117u8, 115u8, 34u8, 58u8, 34u8, 101u8, 114u8,
        114u8, 111u8, 114u8, 34u8, 44u8, 34u8, 109u8, 101u8, 115u8, 115u8, 97u8, 103u8, 101u8,
        34u8, 58u8,
    ];
    proof {
        assert(v@ =~= l_auth_err_pre());
    }
    v
}

fn l_resp_id_vec() -> (v: Vec<u8>)
    ensures
        v@ == l_resp_id(),
{
    let v: Vec<u8> = vec![123u8, 34u8, 105u8, 100u8, 34u8, 58u8];
    proof {
        assert(v@ =~= l_resp_id());
    }
    v
}

fn l_resp_success_vec() -> (v: Vec<u8>)
    ensures
        v@ == l_resp_success(),
{
    let v: Vec<u8> = vec![
        44u8, 34u8, 115u8, 116u8, 97u8, 116u8, 117u8, 115u8, 34u8, 58u8, 34u8, 115u8, 117u8,
        99u8, 99u8, 101u8, 115u8, 115u8, 34u8, 44u8, 34u8, 104u8, 105u8, 116u8, 115u8, 34u8,
        58u8, 91u8,
    ];
    proof {
        assert(v@ =~= l_resp_success());
    }
    v
}

fn l_resp_error_vec() -> (v: Vec<u8>)
    ensures
        v@ == l_resp_error(),
{
    let v: Vec<u8> = vec![
        44u8, 34u8, 115u8, 116u8, 97u8, 116u8, 117u8, 115u8, 34u8, 58u8, 34u8, 101u8, 114u8,
        114u8, 111u8, 114u8, 34u8, 44u8, 34u8, 101u8, 114u8, 114u8, 111u8, 114u8, 34u8, 58u8,
    ];
    proof {
        assert(v@ =~= l_resp_error());
    }
    v
}

// ---------------------------------------------------------------------------
// The frame texts, byte for byte.

/// The acknowledgment frame for an accepted authentication.
pub open spec fn spec_auth_success() -> Seq<u8> {
    l_auth_success()
}

/// The acknowledgment frame for a rejected authentication, carrying the
/// rejection reason.
pub open spec fn spec_auth_error(msg: Seq<u8>) -> Seq<u8> {
    l_auth_err_pre() + jstr(msg) + seq![RBRACE]
}

/// The heartbeat frame: sent by the server as a liveness probe, and by
/// clients as a liveness echo.
pub open spec fn spec_heartbeat_frame() -> Seq<u8> {
    l_obj_tag() + jstr(l_tag_heartbeat()) + seq![RBRACE]
}

/// A search-query frame with correlation id `id` and prefix `prefix`.
pub open spec fn spec_query_frame(id: Seq<u8>, prefix: Seq<u8>) -> Seq<u8> {
    l_obj_tag() + jstr(l_tag_query()) + l_q_id() + jstr(id) + l_q_method() + jstr(prefix)
        + seq![RBRACE, RBRACE]
}

/// The hit list of a success response, after its first element.
pub open spec fn spec_hits_rest(hs: Seq<Seq<u8>>) -> Seq<u8>
    decreases hs.len(),
{
    if hs.len() == 0 {
        Seq::empty()
    } else {
        seq![COMMA] + jstr(hs[0]) + spec_hits_rest(hs.skip(1))
    }
}

/// The comma-separated hit list of a success response.
pub open spec fn spec_hits(hs: Seq<Seq<u8>>) -> Seq<u8> {
    if hs.len() == 0 {
        Seq::empty()
    } else {
        jstr(hs[0]) + spec_hits_rest(hs.skip(1))
    }
}

/// The success response to the query with correlation id `id`: the matched
/// usernames, in backend order.
pub open spec fn spec_search_success(id: Seq<u8>, hits: Seq<Seq<u8>>) -> Seq<u8> {
    l_resp_id() + jstr(id) + l_resp_success() + spec_hits(hits) + seq![RBRACKET, RBRACE]
}

/// The failure response to the query with correlation id `id`.
pub open spec fn spec_search_failure(id: Seq<u8>, error: Seq<u8>) -> Seq<u8> {
    l_resp_id() + jstr(id) + l_resp_error() + jstr(error) + seq![RBRACE]
}

// ---------------------------------------------------------------------------
// Encoders.

pub fn encode_auth_success() -> (v: Vec<u8>)
    ensures
        v@ == spec_auth_success(),
{
    l_auth_success_vec()
}

pub fn encode_auth_error(msg: &Vec<u8>) -> (v: Vec<u8>)
    ensures
        v@ == spec_auth_error(msg@),
{
    let mut v = l_auth_err_pre_vec();
    append_json_string(&mut v, msg);
    v.push(RBRACE);
    proof {
        assert(v@ =~= spec_auth_error(msg@));
    }
    v
}

pub fn encode_heartbeat_frame() -> (v: Vec<u8>)
    ensures
        v@ == spec_heartbeat_frame(),
{
    let mut v = l_obj_tag_vec();
    let tag = l_tag_heartbeat_vec();
    append_json_string(&mut v, &tag);
    v.push(RBRACE);
    proof {
        assert(v@ =~= spec_heartbeat_frame());
    }
    v
}

pub fn encode_query_frame(id: &Vec<u8>, prefix: &Vec<u8>) -> (v: Vec<u8>)
    ensures
        v@ == spec_query_frame(id@, prefix@),
{
    let mut v = l_obj_tag_vec();
    let tag = l_tag_query_vec();
    append_json_string(&mut v, &tag);
    let mut sep = l_q_id_vec();
    v.append(&mut sep);
    append_json_string(&mut v, id);
    let mut sep2 = l_q_method_vec();
    v.append(&mut sep2);
    append_json_string(&mut v, prefix);
    v.push(RBRACE);
    v.push(RBRACE);
    proof {
        assert(v@ =~= spec_query_frame(id@, prefix@));
    }
    v
}

/// Appending one hit extends the encoded tail of the list by a comma and
/// the hit's string text.
pub proof fn lemma_hits_rest_push(hs: Seq<Seq<u8>>, h: Seq<u8>)
    ensures
        spec_hits_rest(hs.push(h)) == spec_hits_rest(hs) + seq![COMMA] + jstr(h),
    decreases hs.len(),
{
    if hs.len() == 0 {
        assert(hs.push(h)[0] == h);
        assert(hs.push(h).skip(1) =~= Seq::<Seq<u8>>::empty());
        assert(spec_hits_rest(hs.push(h).skip(1)) == Seq::<u8>::empty());
        assert(spec_hits_rest(hs.push(h)) =~= spec_hits_rest(hs) + seq![COMMA] + jstr(h));
    } else {
        assert(hs.push(h)[0] == hs[0]);
        assert(hs.push(h).skip(1) =~= hs.skip(1).push(h));
        lemma_hits_rest_push(hs.skip(1), h);
        assert(spec_hits_rest(hs.push(h)) =~= spec_hits_rest(hs) + seq![COMMA] + jstr(h));
    }
}

/// Appending one hit extends the encoded list by a separator (for a
/// non-empty list) and the hit's string text.
pub proof fn lemma_hits_push(hs: Seq<Seq<u8>>, h: Seq<u8>)
    ensures
        hs.len() == 0 ==> spec_hits(hs.push(h)) == jstr(h),
        hs.len() > 0 ==> spec_hits(hs.push(h)) == spec_hits(hs) + seq![COMMA] + jstr(h),
{
    if hs.len() == 0 {
        assert(hs.push(h)[0] == h);
        assert(hs.push(h).skip(1) =~= Seq::<Seq<u8>>::empty());
        assert(spec_hits_rest(hs.push(h).skip(1)) == Seq::<u8>::empty());
        assert(spec_hits(hs.push(h)) =~= jstr(h));
    } else {
        assert(hs.push(h)[0] == hs[0]);
        assert(hs.push(h).skip(1) =~= hs.skip(1).push(h));
        lemma_hits_rest_push(hs.skip(1), h);
        assert(spec_hits(hs.push(h)) =~= spec_hits(hs) + seq![COMMA] + jstr(h));
    }
}

pub fn encode_search_success(id: &Vec<u8>, hits: &Vec<Vec<u8>>) -> (v: Vec<u8>)
    ensures
        v@ == spec_search_success(id@, hits.deep_view()),
{
    let mut v = l_resp_id_vec();
    append_json_string(&mut v, id);
    let mut mid = l_resp_success_vec();
    v.append(&mut mid);
    let ghost head = l_resp_id() + jstr(id@) + l_resp_success();
    let mut i: usize = 0;
    while i < hits.len()
        invariant
            i <= hits@.len(),
            hits.deep_view().len() == hits@.len(),
            v@ == head + spec_hits(hits.deep_view().take(i as int)),
            head == l_resp_id() + jstr(id@) + l_resp_success(),
        decreases hits@.len() - i,
    {
        proof {
            assert(hits.deep_view()[i as int] == hits@[i as int]@);
        }
        if i > 0 {
            v.push(COMMA);
        }
        append_json_string(&mut v, &hits[i]);
        proof {
            let hv = hits.deep_view();
            assert(hv.take(i as int).push(hv[i as int]) =~= hv.take(i + 1 as int));
            lemma_hits_push(hv.take(i as int), hv[i as int]);
            assert(v@ =~= head + spec_hits(hv.take(i + 1 as int)));
        }
        i = i + 1;
    }
    v.push(RBRACKET);
    v.push(RBRACE);
    proof {
        assert(hits.deep_view().take(hits@.len() as int) =~= hits.deep_view());
        assert(v@ =~= spec_search_success(id@, hits.deep_view()));
    }
    v
}

pub fn encode_search_failure(id: &Vec<u8>, error: &Vec<u8>) -> (v: Vec<u8>)
    ensures
        v@ == spec_search_failure(id@, error@),
{
    let mut v = l_resp_id_vec();
    append_json_string(&mut v, id);
    let mut mid = l_resp_error_vec();
    v.append(&mut mid);
    append_json_string(&mut v, error);
    v.push(RBRACE);
    proof {
        assert(v@ =~= spec_search_failure(id@, error@));
    }
    v
}

// ---------------------------------------------------------------------------
// Decoders.

/// Parse the tail of a hit list (after its first element): a closing
/// bracket, or a comma-separated string and the rest.
pub open spec fn s_hits_rest(t: Seq<u8>) -> Option<(Seq<Seq<u8>>, Seq<u8>)>
    decreases t.len(),
    via s_hits_rest_dec
{
    if t.len() == 0 {
        None
    } else if t[0] == RBRACKET {
        Some((Seq::empty(), t.skip(1)))
    } else if t[0] == COMMA {
        match s_str(t.skip(1)) {
            None => None,
            Some(p) => match s_hits_rest(p.1) {
                None => None,
                Some(q) => Some((seq![p.0] + q.0, q.1)),
            },
        }
    } else {
        None
    }
}

#[via_fn]
proof fn s_hits_rest_dec(t: Seq<u8>) {
    if t.len() > 0 && t[0] != RBRACKET && t[0] == COMMA {
        lemma_str_shrinks(t.skip(1));
    }
}

/// Parse a hit list up to and including its closing bracket.
pub open spec fn s_hits(t: Seq<u8>) -> Option<(Seq<Seq<u8>>, Seq<u8>)> {
    if t.len() > 0 && t[0] == RBRACKET {
        Some((Seq::empty(), t.skip(1)))
    } else {
        match s_str(t) {
            None => None,
            Some(p) => match s_hits_rest(p.1) {
                None => None,
                Some(q) => Some((seq![p.0] + q.0, q.1)),
            },
        }
    }
}

/// What an inbound text frame means: heartbeat, search query, a well-formed
/// frame with an unknown tag, or (`None`) a malformed frame.
pub open spec fn spec_decode_inbound(t: Seq<u8>) -> Option<InboundModel> {
    match s_lit(t, l_obj_tag()) {
        None => None,
        Some(t1) => match s_str(t1) {
            None => None,
            Some(p) => if p.0 == l_tag_heartbeat() {
                if p.1 == seq![RBRACE] {
                    Some(InboundModel::Heartbeat)
                } else {
                    None
                }
            } else if p.0 == l_tag_query() {
                match s_lit(p.1, l_q_id()) {
                    None => None,
                    Some(t2) => match s_str(t2) {
                        None => None,
                        Some(q) => match s_lit(q.1, l_q_method()) {
                            None => None,
                            Some(t3) => match s_str(t3) {
                                None => None,
                                Some(w) => if w.1 == seq![RBRACE, RBRACE] {
                                    Some(InboundModel::Query { id: q.0, prefix: w.0 })
                                } else {
                                    None
                                },
                            },
                        },
                    },
                }
            } else {
                Some(InboundModel::Unrecognized)
            },
        },
    }
}

/// What a search response frame means, or (`None`) a malformed frame.
pub open spec fn spec_decode_response(t: Seq<u8>) -> Option<SearchResponseModel> {
    match s_lit(t, l_resp_id()) {
        None => None,
        Some(t1) => match s_str(t1) {
            None => None,
            Some(p) => match s_lit(p.1, l_resp_success()) {
                Some(t2) => match s_hits(t2) {
                    None => None,
                    Some(q) => if q.1 == seq![RBRACE] {
                        Some(SearchResponseModel::Success { id: p.0, hits: q.0 })
                    } else {
                        None
                    },
                },
                None => match s_lit(p.1, l_resp_error()) {
                    None => None,
                    Some(t2) => match s_str(t2) {
                        None => None,
                        Some(w) => if w.1 == seq![RBRACE] {
                            Some(SearchResponseModel::Failure { id: p.0, error: w.0 })
                        } else {
                            None
                        },
                    },
                },
            },
        },
    }
}

/// Does the remainder of `buf` from `j` consist of exactly the bytes of
/// `tail`?
fn remainder_is(buf: &Vec<u8>, j: usize, tail: &Vec<u8>) -> (r: bool)
    requires
        j <= buf@.len(),
    ensures
        r == (buf@.skip(j as int) == tail@),
{
    if buf.len() - j != tail.len() {
        return false;
    }
    match eat(buf, j, tail) {
        Some(_) => {
            proof {
                let t = buf@.skip(j as int);
                assert(t.take(tail@.len() as int) =~= t);
            }
            true
        },
        None => {
            proof {
                let t = buf@.skip(j as int);
                if t == tail@ {
                    assert(t.take(tail@.len() as int) =~= tail@);
                }
            }
            false
        },
    }
}

/// Parse a hit list starting at position `start` of `buf`.
fn parse_hits(buf: &Vec<u8>, start: usize) -> (r: Option<(Vec<Vec<u8>>, usize)>)
    requires
        start <= buf@.len(),
    ensures
        match r {
            Some(p) => p.1 <= buf@.len()
                && s_hits(buf@.skip(start as int)) == Some((p.0.deep_view(), buf@.skip(p.1 as int))),
            None => s_hits(buf@.skip(start as int)) is None,
        },
{
    let ghost t0 = buf@.skip(start as int);
    if start < buf.len() && buf[start] == RBRACKET {
        let empty_hits: Vec<Vec<u8>> = Vec::new();
        proof {
            assert(t0[0] == buf@[start as int]);
            assert(t0.skip(1) =~= buf@.skip(start + 1));
            assert(empty_hits.deep_view() =~~= Seq::<Seq<u8>>::empty());
        }
        return Some((empty_hits, start + 1));
    }
    proof {
        if t0.len() > 0 {
            assert(t0[0] == buf@[start as int]);
        }
    }
    let first = match parse_string(buf, start) {
        Some(p) => p,
        None => {
            return None;
        },
    };
    let mut acc: Vec<Vec<u8>> = Vec::new();
    acc.push(first.0);
    let mut j: usize = first.1;
    proof {
        assert(s_str(t0) == Some((acc.deep_view()[0], buf@.skip(j as int))));
    }
    loop
        invariant
            j <= buf@.len(),
            buf@.len() <= usize::MAX,
            acc.deep_view().len() >= 1,
            t0 == buf@.skip(start as int),
            ({
                let hd = acc.deep_view();
                match s_hits_rest(buf@.skip(j as int)) {
                    Some(q) => s_hits(t0) == Some::<(Seq<Seq<u8>>, Seq<u8>)>((hd + q.0, q.1)),
                    None => s_hits(t0) is None,
                }
            }),
        decreases buf@.len() - j,
    {
        if j >= buf.len() {
            proof {
                assert(buf@.skip(j as int).len() == 0);
            }
            return None;
        }
        let b = buf[j];
        proof {
            assert(buf@.skip(j as int)[0] == buf@[j as int]);
            assert(buf@.skip(j as int).skip(1) =~= buf@.skip(j + 1));
        }
        if b == RBRACKET {
            proof {
                assert(acc.deep_view() + Seq::<Seq<u8>>::empty() =~= acc.deep_view());
            }
            return Some((acc, j + 1));
        } else if b == COMMA {
            let item = match parse_string(buf, j + 1) {
                Some(p) => p,
                None => {
                    return None;
                },
            };
            let ghost acc_old = acc.deep_view();
            let ghost itemv = item.0@;
            acc.push(item.0);
            proof {
                lemma_str_shrinks(buf@.skip(j + 1));
                assert(buf@.skip(item.1 as int).len() < buf@.skip(j + 1).len());
                assert(acc.deep_view() =~~= acc_old.push(itemv));
                match s_hits_rest(buf@.skip(item.1 as int)) {
                    Some(q) => {
                        assert(acc_old + (seq![itemv] + q.0) =~= acc.deep_view() + q.0);
                    },
                    None => {},
                }
            }
            j = item.1;
        } else {
            return None;
        }
    }
}

/// Decode one inbound text frame. `None` means the frame is not a
/// well-formed document of the wire format and is to be discarded. A frame
/// whose tag is not known is reported as `Unrecognized` without reading
/// past the tag; it is discarded too, but counts as traffic.
pub fn decode_inbound(frame: &Vec<u8>) -> (r: Option<InboundMsg>)
    ensures
        inbound_opt_view(r) == spec_decode_inbound(frame@),
{
    proof {
        assert(frame@.skip(0) =~= frame@);
    }
    let lit = l_obj_tag_vec();
    let t1 = match eat(frame, 0, &lit) {
        Some(j) => j,
        None => {
            return None;
        },
    };
    let tag = match parse_string(frame, t1) {
        Some(p) => p,
        None => {
            return None;
        },
    };
    let hb = l_tag_heartbeat_vec();
    let qy = l_tag_query_vec();
    if bytes_eq(&tag.0, &hb) {
        let mut end: Vec<u8> = Vec::new();
        end.push(RBRACE);
        proof {
            assert(end@ =~= seq![RBRACE]);
        }
        if remainder_is(frame, tag.1, &end) {
            Some(InboundMsg::Heartbeat)
        } else {
            None
        }
    } else if bytes_eq(&tag.0, &qy) {
        let lit2 = l_q_id_vec();
        let t2 = match eat(frame, tag.1, &lit2) {
            Some(j) => j,
            None => {
                return None;
            },
        };
        let idp = match parse_string(frame, t2) {
            Some(p) => p,
            None => {
                return None;
            },
        };
        let lit3 = l_q_method_vec();
        let t3 = match eat(frame, idp.1, &lit3) {
            Some(j) => j,
            None => {
                return None;
            },
        };
        let prefixp = match parse_string(frame, t3) {
            Some(p) => p,
            None => {
                return None;
            },
        };
        let mut end: Vec<u8> = Vec::new();
        end.push(RBRACE);
        end.push(RBRACE);
        proof {
            assert(end@ =~= seq![RBRACE, RBRACE]);
        }
        if remainder_is(frame, prefixp.1, &end) {
            Some(InboundMsg::Query { id: idp.0, prefix: prefixp.0 })
        } else {
            None
        }
    } else {
        Some(InboundMsg::Unrecognized)
    }
}

/// Decode one search response frame. `None` means the frame is not a
/// well-formed response of the wire format.
pub fn decode_search_response(frame: &Vec<u8>) -> (r: Option<SearchResponseMsg>)
    ensures
        response_opt_view(r) == spec_decode_response(frame@),
{
    proof {
        assert(frame@.skip(0) =~= frame@);
    }
    let lit = l_resp_id_vec();
    let t1 = match eat(frame, 0, &lit) {
        Some(j) => j,
        None => {
            return None;
        },
    };
    let idp = match parse_string(frame, t1) {
        Some(p) => p,
        None => {
            return None;
        },
    };
    let mut end: Vec<u8> = Vec::new();
    end.push(RBRACE);
    proof {
        assert(end@ =~= seq![RBRACE]);
    }
    let lit_s = l_resp_success_vec();
    match eat(frame, idp.1, &lit_s) {
        Some(t2) => {
            let hitsp = match parse_hits(frame, t2) {
                Some(p) => p,
                None => {
                    return None;
                },
            };
            if remainder_is(frame, hitsp.1, &end) {
                Some(SearchResponseMsg::Success { id: idp.0, hits: hitsp.0 })
            } else {
                None
            }
        },
        None => {
            let lit_e = l_resp_error_vec();
            let t2 = match eat(frame, idp.1, &lit_e) {
                Some(j) => j,
                None => {
                    return None;
                },
            };
            let errp = match parse_string(frame, t2) {
                Some(p) => p,
                None => {
                    return None;
                },
            };
            if remainder_is(frame, errp.1, &end) {
                Some(SearchResponseMsg::Failure { id: idp.0, error: errp.0 })
            } else {
                None
            }
        },
    }
}

// ---------------------------------------------------------------------------
// Round-trip lemmas: the decoders invert the encoders.

/// The hit-list parser inverts the hit-list encoder, after the first
/// element.
pub proof fn lemma_hits_rest_parse(hs: Seq<Seq<u8>>, rest: Seq<u8>)
    ensures
        s_hits_rest(spec_hits_rest(hs) + seq![RBRACKET] + rest) == Some((hs, rest)),
    decreases hs.len(),
{
    let t = spec_hits_rest(hs) + seq![RBRACKET] + rest;
    if hs.len() == 0 {
        assert(spec_hits_rest(hs) =~= Seq::<u8>::empty());
        assert(t =~= seq![RBRACKET] + rest);
        assert(t[0] == RBRACKET);
        assert(t.skip(1) =~= rest);
        assert(s_hits_rest(t) == Some((Seq::<Seq<u8>>::empty(), rest)));
        assert(Seq::<Seq<u8>>::empty() =~= hs);
    } else {
        let h0 = hs[0];
        let hrest = hs.skip(1);
        lemma_hits_rest_parse(hrest, rest);
        assert(spec_hits_rest(hs) == seq![COMMA] + jstr(h0) + spec_hits_rest(hrest));
        assert(t[0] == COMMA);
        assert(t[0] != RBRACKET);
        assert(t.skip(1) =~= jstr(h0) + (spec_hits_rest(hrest) + seq![RBRACKET] + rest));
        lemma_str_parse(h0, spec_hits_rest(hrest) + seq![RBRACKET] + rest);
        assert(seq![h0] + hrest =~= hs);
    }
}

/// The hit-list parser inverts the hit-list encoder.
pub proof fn lemma_hits_parse(hs: Seq<Seq<u8>>, rest: Seq<u8>)
    ensures
        s_hits(spec_hits(hs) + seq![RBRACKET] + rest) == Some((hs, rest)),
{
    let t = spec_hits(hs) + seq![RBRACKET] + rest;
    if hs.len() == 0 {
        assert(spec_hits(hs) =~= Seq::<u8>::empty());
        assert(t =~= seq![RBRACKET] + rest);
        assert(t[0] == RBRACKET);
        assert(t.skip(1) =~= rest);
        assert(Seq::<Seq<u8>>::empty() =~= hs);
    } else {
        let h0 = hs[0];
        let hrest = hs.skip(1);
        lemma_hits_rest_parse(hrest, rest);
        assert(spec_hits(hs) == jstr(h0) + spec_hits_rest(hrest));
        assert(jstr(h0)[0] == QUOTE);
        assert(t[0] == QUOTE);
        assert(t[0] != RBRACKET);
        assert(t =~= jstr(h0) + (spec_hits_rest(hrest) + seq![RBRACKET] + rest));
        lemma_str_parse(h0, spec_hits_rest(hrest) + seq![RBRACKET] + rest);
        assert(seq![h0] + hrest =~= hs);
    }
}

/// Round trip of a success response: decoding what the encoder produced
/// yields the same correlation id and the identical ordered hit list.
pub proof fn lemma_success_round_trip(id: Seq<u8>, hits: Seq<Seq<u8>>)
    ensures
        spec_decode_response(spec_search_success(id, hits))
            == Some(SearchResponseModel::Success { id, hits }),
{
    let t = spec_search_success(id, hits);
    let rest1 = jstr(id) + l_resp_success() + spec_hits(hits) + seq![RBRACKET, RBRACE];
    assert(t =~= l_resp_id() + rest1);
    lemma_lit_parse(l_resp_id(), rest1);
    let rest2 = l_resp_success() + spec_hits(hits) + seq![RBRACKET, RBRACE];
    assert(rest1 =~= jstr(id) + rest2);
    lemma_str_parse(id, rest2);
    let rest3 = spec_hits(hits) + seq![RBRACKET, RBRACE];
    assert(rest2 =~= l_resp_success() + rest3);
    lemma_lit_parse(l_resp_success(), rest3);
    assert(rest3 =~= spec_hits(hits) + seq![RBRACKET] + seq![RBRACE]);
    lemma_hits_parse(hits, seq![RBRACE]);
}

/// Round trip of a failure response: decoding what the encoder produced
/// yields the same correlation id and message.
pub proof fn lemma_failure_round_trip(id: Seq<u8>, error: Seq<u8>)
    ensures
        spec_decode_response(spec_search_failure(id, error))
            == Some(SearchResponseModel::Failure { id, error }),
{
    let t = spec_search_failure(id, error);
    let rest1 = jstr(id) + l_resp_error() + jstr(error) + seq![RBRACE];
    assert(t =~= l_resp_id() + rest1);
    lemma_lit_parse(l_resp_id(), rest1);
    let rest2 = l_resp_error() + jstr(error) + seq![RBRACE];
    assert(rest1 =~= jstr(id) + rest2);
    lemma_str_parse(id, rest2);
    // the success literal does not match here: byte 11 is `e`, not `s`
    assert(l_resp_error()[11] == 101u8);
    assert(l_resp_success()[11] == 115u8);
    if l_resp_success().len() <= rest2.len() {
        assert(rest2.take(l_resp_success().len() as int)[11] == rest2[11]);
        assert(rest2[11] == l_resp_error()[11]);
        assert(rest2.take(l_resp_success().len() as int) != l_resp_success());
    }
    assert(s_lit(rest2, l_resp_success()) is None);
    let rest3 = jstr(error) + seq![RBRACE];
    assert(rest2 =~= l_resp_error() + rest3);
    lemma_lit_parse(l_resp_error(), rest3);
    lemma_str_parse(error, seq![RBRACE]);
}

/// Round trip of a query frame: decoding what the encoder produced yields
/// the same correlation id and prefix.
pub proof fn lemma_query_round_trip(id: Seq<u8>, prefix: Seq<u8>)
    ensures
        spec_decode_inbound(spec_query_frame(id, prefix))
            == Some(InboundModel::Query { id, prefix }),
{
    let t = spec_query_frame(id, prefix);
    let rest1 = jstr(l_tag_query()) + l_q_id() + jstr(id) + l_q_method() + jstr(prefix)
        + seq![RBRACE, RBRACE];
    assert(t =~= l_obj_tag() + rest1);
    lemma_lit_parse(l_obj_tag(), rest1);
    let rest2 = l_q_id() + jstr(id) + l_q_method() + jstr(prefix) + seq![RBRACE, RBRACE];
    assert(rest1 =~= jstr(l_tag_query()) + rest2);
    lemma_str_parse(l_tag_query(), rest2);
    assert(l_tag_query() != l_tag_heartbeat());
    let rest3 = jstr(id) + l_q_method() + jstr(prefix) + seq![RBRACE, RBRACE];
    assert(rest2 =~= l_q_id() + rest3);
    lemma_lit_parse(l_q_id(), rest3);
    let rest4 = l_q_method() + jstr(prefix) + seq![RBRACE, RBRACE];
    assert(rest3 =~= jstr(id) + rest4);
    lemma_str_parse(id, rest4);
    let rest5 = jstr(prefix) + seq![RBRACE, RBRACE];
    assert(rest4 =~= l_q_method() + rest5);
    lemma_lit_parse(l_q_method(), rest5);
    lemma_str_parse(prefix, seq![RBRACE, RBRACE]);
}

/// Round trip of the heartbeat frame.
pub proof fn lemma_heartbeat_round_trip()
    ensures
        spec_decode_inbound(spec_heartbeat_frame()) == Some(InboundModel::Heartbeat),
{
    let t = spec_heartbeat_frame();
    let rest1 = jstr(l_tag_heartbeat()) + seq![RBRACE];
    assert(t =~= l_obj_tag() + rest1);
    lemma_lit_parse(l_obj_tag(), rest1);
    assert(rest1 =~= jstr(l_tag_heartbeat()) + seq![RBRACE]);
    lemma_str_parse(l_tag_heartbeat(), seq![RBRACE]);
}

} // verus!
