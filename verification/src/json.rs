//! Byte-level building blocks of the JSON wire format.
//!
//! Frames are UTF-8 JSON documents handled as byte sequences. This module
//! holds the string-value codec shared by every frame shape: escaping on the
//! way out (the two mandatory JSON escapes, quote and backslash; all other
//! bytes pass through unchanged) and the matching parser combinators on the
//! way in. The inversion lemmas here — a literal parses past itself, an
//! escaped string parses back to the original bytes — are what the frame
//! round-trip proofs in the codec rest on.

use vstd::prelude::*;

verus! {

pub const QUOTE: u8 = 34;
pub const BACKSLASH: u8 = 92;

/// How one byte of a string value appears inside a JSON string: quote and
/// backslash are escaped, every other byte stands for itself.
pub open spec fn escb(b: u8) -> Seq<u8> {
    if b == QUOTE || b == BACKSLASH {
        seq![BACKSLASH, b]
    } else {
        seq![b]
    }
}

/// The escaped body of a JSON string holding the bytes of `s`.
pub open spec fn esc(s: Seq<u8>) -> Seq<u8>
    decreases s.len(),
{
    if s.len() == 0 {
        Seq::empty()
    } else {
        escb(s[0]) + esc(s.skip(1))
    }
}

/// The full JSON text of a string value holding the bytes of `s`.
pub open spec fn jstr(s: Seq<u8>) -> Seq<u8> {
    seq![QUOTE] + esc(s) + seq![QUOTE]
}

/// Escaping distributes over appending one byte.
pub proof fn lemma_esc_push(s: Seq<u8>, b: u8)
    ensures
        esc(s.push(b)) == esc(s) + escb(b),
    decreases s.len(),
{
    if s.len() == 0 {
        assert(s.push(b)[0] == b);
        assert(s.push(b).skip(1) =~= Seq::<u8>::empty());
        assert(esc(Seq::<u8>::empty()) == Seq::<u8>::empty());
        assert(esc(s.push(b)) == escb(b) + esc(Seq::<u8>::empty()));
        assert(esc(s.push(b)) =~= esc(s) + escb(b));
    } else {
        assert(s.push(b)[0] == s[0]);
        assert(s.push(b).skip(1) =~= s.skip(1).push(b));
        lemma_esc_push(s.skip(1), b);
        assert(esc(s.push(b)) =~= esc(s) + escb(b));
    }
}

/// Append the JSON string value holding `s` (opening quote, escaped body,
/// closing quote) to `out`.
pub fn append_json_string(out: &mut Vec<u8>, s: &Vec<u8>)
    ensures
        final(out)@ == old(out)@ + jstr(s@),
{
    out.push(QUOTE);
    let mut i: usize = 0;
    while i < s.len()
        invariant
            i <= s.len(),
            out@ == old(out)@ + seq![QUOTE] + esc(s@.take(i as int)),
        decreases s.len() - i,
    {
        let b = s[i];
        if b == QUOTE || b == BACKSLASH {
            out.push(BACKSLASH);
            out.push(b);
        } else {
            out.push(b);
        }
        proof {
            assert(s@.take(i as int).push(b) =~= s@.take(i + 1 as int));
            lemma_esc_push(s@.take(i as int), b);
            assert(out@ =~= old(out)@ + seq![QUOTE] + esc(s@.take(i + 1 as int)));
        }
        i = i + 1;
    }
    out.push(QUOTE);
    proof {
        assert(s@.take(s@.len() as int) =~= s@);
        assert(out@ =~= old(out)@ + jstr(s@));
    }
}

/// Parse an expected literal: if `t` starts with `lit`, the rest of `t`
/// follows it.
pub open spec fn s_lit(t: Seq<u8>, lit: Seq<u8>) -> Option<Seq<u8>> {
    if lit.len() <= t.len() && t.take(lit.len() as int) == lit {
        Some(t.skip(lit.len() as int))
    } else {
        None
    }
}

/// Parse the body of a JSON string (everything after the opening quote) up
/// to and including the closing quote, yielding the unescaped bytes and the
/// remainder of the input.
pub open spec fn s_str_body(t: Seq<u8>) -> Option<(Seq<u8>, Seq<u8>)>
    decreases t.len(),
{
    if t.len() == 0 {
        None
    } else if t[0] == QUOTE {
        Some((Seq::empty(), t.skip(1)))
    } else if t[0] == BACKSLASH {
        if t.len() >= 2 && (t[1] == QUOTE || t[1] == BACKSLASH) {
            match s_str_body(t.skip(2)) {
                Some(p) => Some((seq![t[1]] + p.0, p.1)),
                None => None,
            }
        } else {
            None
        }
    } else {
        match s_str_body(t.skip(1)) {
            Some(p) => Some((seq![t[0]] + p.0, p.1)),
            None => None,
        }
    }
}

/// Parse a whole JSON string value, opening quote included.
pub open spec fn s_str(t: Seq<u8>) -> Option<(Seq<u8>, Seq<u8>)> {
    if t.len() > 0 && t[0] == QUOTE {
        s_str_body(t.skip(1))
    } else {
        None
    }
}

/// A successful string parse consumes at least one byte.
pub proof fn lemma_str_body_shrinks(t: Seq<u8>)
    ensures
        s_str_body(t) matches Some(p) ==> p.1.len() < t.len(),
    decreases t.len(),
{
    if t.len() == 0 {
    } else if t[0] == QUOTE {
    } else if t[0] == BACKSLASH {
        if t.len() >= 2 && (t[1] == QUOTE || t[1] == BACKSLASH) {
            lemma_str_body_shrinks(t.skip(2));
        }
    } else {
        lemma_str_body_shrinks(t.skip(1));
    }
}

/// A successful string parse consumes at least one byte.
pub proof fn lemma_str_shrinks(t: Seq<u8>)
    ensures
        s_str(t) matches Some(p) ==> p.1.len() < t.len(),
{
    if t.len() > 0 && t[0] == QUOTE {
        lemma_str_body_shrinks(t.skip(1));
    }
}

/// A literal parses past itself.
pub proof fn lemma_lit_parse(lit: Seq<u8>, rest: Seq<u8>)
    ensures
        s_lit(lit + rest, lit) == Some(rest),
{
    let t = lit + rest;
    assert(t.take(lit.len() as int) =~= lit);
    assert(t.skip(lit.len() as int) =~= rest);
}

/// The string-body parser inverts escaping: an escaped body followed by its
/// closing quote parses back to the original bytes.
pub proof fn lemma_str_body_parse(s: Seq<u8>, rest: Seq<u8>)
    ensures
        s_str_body(esc(s) + seq![QUOTE] + rest) == Some((s, rest)),
    decreases s.len(),
{
    let t = esc(s) + seq![QUOTE] + rest;
    if s.len() == 0 {
        assert(esc(s) =~= Seq::<u8>::empty());
        assert(t =~= seq![QUOTE] + rest);
        assert(t[0] == QUOTE);
        assert(t.skip(1) =~= rest);
    } else {
        let s0 = s[0];
        let srest = s.skip(1);
        lemma_str_body_parse(srest, rest);
        assert(esc(s) == escb(s0) + esc(srest));
        if s0 == QUOTE || s0 == BACKSLASH {
            assert(escb(s0) =~= seq![BACKSLASH, s0]);
            assert(t[0] == BACKSLASH);
            assert(t[1] == s0);
            assert(t.len() >= 2);
            assert(t.skip(2) =~= esc(srest) + seq![QUOTE] + rest);
            assert(seq![t[1]] + srest =~= s);
        } else {
            assert(escb(s0) =~= seq![s0]);
            assert(t[0] == s0);
            assert(t[0] != QUOTE && t[0] != BACKSLASH);
            assert(t.skip(1) =~= esc(srest) + seq![QUOTE] + rest);
            assert(seq![t[0]] + srest =~= s);
        }
    }
}

/// The string parser inverts the string encoder.
pub proof fn lemma_str_parse(s: Seq<u8>, rest: Seq<u8>)
    ensures
        s_str(jstr(s) + rest) == Some((s, rest)),
{
    let t = jstr(s) + rest;
    assert(t[0] == QUOTE);
    assert(t.skip(1) =~= esc(s) + seq![QUOTE] + rest);
    lemma_str_body_parse(s, rest);
}

/// Match an expected literal at position `start` of `buf`, returning the
/// position just past it.
pub fn eat(buf: &Vec<u8>, start: usize, lit: &Vec<u8>) -> (r: Option<usize>)
    requires
        start <= buf@.len(),
    ensures
        match r {
            Some(j) => start <= j <= buf@.len() && j == start + lit@.len()
                && s_lit(buf@.skip(start as int), lit@) == Some(buf@.skip(j as int)),
            None => s_lit(buf@.skip(start as int), lit@) is None,
        },
{
    if buf.len() - start < lit.len() {
        return None;
    }
    let mut k: usize = 0;
    while k < lit.len()
        invariant
            k <= lit@.len(),
            start + lit@.len() <= buf@.len(),
            buf@.len() <= usize::MAX,
            forall|m: int| 0 <= m < k ==> buf@[start + m] == lit@[m],
        decreases lit@.len() - k,
    {
        if buf[start + k] != lit[k] {
            proof {
                let t = buf@.skip(start as int);
                assert(t.take(lit@.len() as int)[k as int] == buf@[start + k]);
                assert(t.take(lit@.len() as int) != lit@);
            }
            return None;
        }
        k = k + 1;
    }
    proof {
        let t = buf@.skip(start as int);
        assert(t.take(lit@.len() as int) =~= lit@);
        assert(t.skip(lit@.len() as int) =~= buf@.skip(start + lit@.len()));
    }
    Some(start + lit.len())
}

/// Parse a JSON string value starting at position `start` of `buf`,
/// returning the unescaped bytes and the position just past the closing
/// quote.
pub fn parse_string(buf: &Vec<u8>, start: usize) -> (r: Option<(Vec<u8>, usize)>)
    requires
        start <= buf@.len(),
    ensures
        match r {
            Some(p) => p.1 <= buf@.len()
                && s_str(buf@.skip(start as int)) == Some((p.0@, buf@.skip(p.1 as int))),
            None => s_str(buf@.skip(start as int)) is None,
        },
{
    if start >= buf.len() || buf[start] != QUOTE {
        return None;
    }
    proof {
        assert(buf@.skip(start as int)[0] == buf@[start as int]);
        assert(buf@.skip(start as int).skip(1) =~= buf@.skip(start + 1));
    }
    let ghost body0 = buf@.skip(start as int + 1);
    let mut acc: Vec<u8> = Vec::new();
    let mut j: usize = start + 1;
    loop
        invariant
            start + 1 <= j <= buf@.len(),
            buf@.len() <= usize::MAX,
            s_str(buf@.skip(start as int)) == s_str_body(body0),
            body0 == buf@.skip(start as int + 1),
            match s_str_body(buf@.skip(j as int)) {
                Some(p) => s_str_body(body0) == Some((acc@ + p.0, p.1)),
                None => s_str_body(body0) is None,
            },
        decreases buf@.len() - j,
    {
        if j >= buf.len() {
            proof {
                assert(buf@.skip(j as int).len() == 0);
            }
            return None;
        }
        let b = buf[j];
        proof {
            assert(buf@.skip(j as int)[0] == buf@[j as int]);
            assert(buf@.skip(j as int).skip(1) =~= buf@.skip(j + 1));
        }
        if b == QUOTE {
            proof {
                assert(acc@ + Seq::<u8>::empty() =~= acc@);
            }
            return Some((acc, j + 1));
        } else if b == BACKSLASH {
            if j + 1 >= buf.len() {
                proof {
                    assert(buf@.skip(j as int).len() == 1);
                }
                return None;
            }
            let b2 = buf[j + 1];
            proof {
                assert(buf@.skip(j as int)[1] == buf@[j + 1]);
                assert(buf@.skip(j as int).skip(2) =~= buf@.skip(j + 2));
            }
            if b2 == QUOTE || b2 == BACKSLASH {
                let ghost acc_old = acc@;
                acc.push(b2);
                proof {
                    match s_str_body(buf@.skip(j + 2)) {
                        Some(p) => {
                            assert(acc_old + (seq![b2] + p.0) =~= acc@ + p.0);
                        },
                        None => {},
                    }
                }
                j = j + 2;
            } else {
                return None;
            }
        } else {
            let ghost acc_old = acc@;
            acc.push(b);
            proof {
                match s_str_body(buf@.skip(j + 1)) {
                    Some(p) => {
                        assert(acc_old + (seq![b] + p.0) =~= acc@ + p.0);
                    },
                    None => {},
                }
            }
            j = j + 1;
        }
    }
}

/// Byte-for-byte equality of two buffers.
pub fn bytes_eq(a: &Vec<u8>, b: &Vec<u8>) -> (r: bool)
    ensures
        r == (a@ == b@),
{
    if a.len() != b.len() {
        return false;
    }
    let mut k: usize = 0;
    while k < a.len()
        invariant
            k <= a@.len(),
            a@.len() == b@.len(),
            a@.len() <= usize::MAX,
            forall|m: int| 0 <= m < k ==> a@[m] == b@[m],
        decreases a@.len() - k,
    {
        if a[k] != b[k] {
            return false;
        }
        k = k + 1;
    }
    proof {
        assert(a@ =~= b@);
    }
    true
}

} // verus!
