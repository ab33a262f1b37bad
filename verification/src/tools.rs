//! Error aggregation for multi-step client operations.
//!
//! A long transaction gathers error messages as it runs; at the end,
//! `check_error` reduces the list to a single result: success when the list
//! is empty, otherwise every message joined into one report, one per line,
//! oldest first.

use vstd::prelude::*;

verus! {

pub const NEWLINE: u8 = 10;

/// The messages joined by single newlines, in order: no trailing newline,
/// and none at all for a single message.
pub open spec fn spec_join_lines(msgs: Seq<Seq<u8>>) -> Seq<u8>
    decreases msgs.len(),
{
    if msgs.len() == 0 {
        Seq::empty()
    } else if msgs.len() == 1 {
        msgs[0]
    } else {
        msgs[0] + seq![NEWLINE] + spec_join_lines(msgs.skip(1))
    }
}

/// Joining one more message appends a newline (once the list is non-empty)
/// and the message.
pub proof fn lemma_join_lines_push(msgs: Seq<Seq<u8>>, m: Seq<u8>)
    ensures
        msgs.len() == 0 ==> spec_join_lines(msgs.push(m)) == m,
        msgs.len() > 0 ==> spec_join_lines(msgs.push(m))
            == spec_join_lines(msgs) + seq![NEWLINE] + m,
    decreases msgs.len(),
{
    if msgs.len() == 0 {
        assert(msgs.push(m)[0] == m);
    } else if msgs.len() == 1 {
        assert(msgs.push(m)[0] == msgs[0]);
        assert(msgs.push(m).skip(1) =~= seq![m]);
        assert(spec_join_lines(seq![m]) == m);
    } else {
        assert(msgs.push(m)[0] == msgs[0]);
        assert(msgs.push(m).skip(1) =~= msgs.skip(1).push(m));
        lemma_join_lines_push(msgs.skip(1), m);
        assert(spec_join_lines(msgs.push(m)) =~= spec_join_lines(msgs) + seq![NEWLINE] + m);
    }
}

/// `Ok` exactly when no error message was gathered, otherwise all messages
/// joined one per line, oldest first.
pub fn check_error(error_messages: &Vec<Vec<u8>>) -> (r: Result<(), Vec<u8>>)
    ensures
        r is Ok <==> error_messages@.len() == 0,
        r matches Err(joined) ==> joined@ == spec_join_lines(error_messages.deep_view()),
{
    if error_messages.len() == 0 {
        return Ok(());
    }
    let ghost d = error_messages.deep_view();
    let mut out: Vec<u8> = Vec::new();
    let mut i: usize = 0;
    while i < error_messages.len()
        invariant
            i <= error_messages@.len(),
            d == error_messages.deep_view(),
            d.len() == error_messages@.len(),
            i == 0 ==> out@ == Seq::<u8>::empty(),
            i > 0 ==> out@ == spec_join_lines(d.take(i as int)),
        decreases error_messages@.len() - i,
    {
        proof {
            assert(d[i as int] == error_messages@[i as int]@);
        }
        if i > 0 {
            out.push(NEWLINE);
        }
        let msg = &error_messages[i];
        let mut k: usize = 0;
        let ghost out_before = out@;
        while k < msg.len()
            invariant
                k <= msg@.len(),
                out@ == out_before + msg@.take(k as int),
            decreases msg@.len() - k,
        {
            out.push(msg[k]);
            proof {
                assert(out@ =~= out_before + msg@.take(k + 1 as int));
            }
            k = k + 1;
        }
        proof {
            assert(msg@.take(msg@.len() as int) =~= msg@);
            assert(d.take(i as int).push(d[i as int]) =~= d.take(i + 1 as int));
            lemma_join_lines_push(d.take(i as int), d[i as int]);
            if i == 0 {
                assert(out@ =~= spec_join_lines(d.take(1)));
            } else {
                assert(out@ =~= spec_join_lines(d.take(i + 1 as int)));
            }
        }
        i = i + 1;
    }
    proof {
        assert(d.take(d.len() as int) =~= d);
    }
    Err(out)
}

} // verus!
