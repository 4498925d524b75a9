//! The mathematical model of a match: walking an automaton over a byte
//! sequence, with and without the dead-state early exit, and the proofs
//! that the two walks are observably the same.

use vstd::prelude::*;
use crate::dfa::{Dfa, dfa_start, dfa_step, dfa_is_match, dfa_is_dead, dfa_wf};

verus! {

/// The state reached from `s` after consuming every byte of `bytes`, with
/// no early exit.
pub open spec fn walk_from(d: Dfa, s: int, bytes: Seq<u8>) -> int
    decreases bytes.len(),
{
    if bytes.len() == 0 {
        s
    } else {
        walk_from(d, dfa_step(d, s, bytes[0]), bytes.drop_first())
    }
}

/// Whether the automaton accepts `bytes`: the walk over every byte, started
/// at the start state, ends in a match state.
pub open spec fn accepts(d: Dfa, bytes: Seq<u8>) -> bool {
    dfa_is_match(d, walk_from(d, dfa_start(d), bytes))
}

/// The state reached from `s` by the early-exiting walk, which stops right
/// after a transition lands in a dead state. This is exactly what the
/// matcher's sinks compute.
pub open spec fn scan_from(d: Dfa, s: int, bytes: Seq<u8>) -> int
    decreases bytes.len(),
{
    if bytes.len() == 0 {
        s
    } else {
        let t = dfa_step(d, s, bytes[0]);
        if dfa_is_dead(d, t) {
            t
        } else {
            scan_from(d, t, bytes.drop_first())
        }
    }
}

/// How many bytes of `bytes` the early-exiting walk consumes before it
/// stops: all of them, unless a transition lands in a dead state first.
pub open spec fn scan_len(d: Dfa, s: int, bytes: Seq<u8>) -> nat
    decreases bytes.len(),
{
    if bytes.len() == 0 {
        0
    } else {
        let t = dfa_step(d, s, bytes[0]);
        if dfa_is_dead(d, t) {
            1
        } else {
            1 + scan_len(d, t, bytes.drop_first())
        }
    }
}

/// Walking a concatenation is walking the first part, then the second.
pub proof fn lemma_walk_append(d: Dfa, s: int, a: Seq<u8>, b: Seq<u8>)
    ensures
        walk_from(d, s, a + b) == walk_from(d, walk_from(d, s, a), b),
    decreases a.len(),
{
    if a.len() == 0 {
        assert(a + b =~= b);
    } else {
        assert((a + b).drop_first() =~= a.drop_first() + b);
        lemma_walk_append(d, dfa_step(d, s, a[0]), a.drop_first(), b);
    }
}

/// Walking one more byte is stepping once from where the walk ended.
pub proof fn lemma_walk_snoc(d: Dfa, s: int, bytes: Seq<u8>, b: u8)
    ensures
        walk_from(d, s, bytes.push(b)) == dfa_step(d, walk_from(d, s, bytes), b),
{
    assert(bytes.push(b) =~= bytes + seq![b]);
    lemma_walk_append(d, s, bytes, seq![b]);
    let e = walk_from(d, s, bytes);
    assert(seq![b].drop_first() =~= Seq::<u8>::empty());
    assert(walk_from(d, e, seq![b]) == walk_from(d, dfa_step(d, e, b), Seq::<u8>::empty()));
}

/// Dead states absorb the full walk: once dead, a walk stays dead whatever
/// bytes follow.
pub proof fn lemma_walk_dead_absorbs(d: Dfa, s: int, bytes: Seq<u8>)
    requires
        dfa_wf(d),
        dfa_is_dead(d, s),
    ensures
        dfa_is_dead(d, walk_from(d, s, bytes)),
    decreases bytes.len(),
{
    if bytes.len() != 0 {
        lemma_walk_dead_absorbs(d, dfa_step(d, s, bytes[0]), bytes.drop_first());
    }
}

/// Dead states absorb the early-exiting walk too.
pub proof fn lemma_scan_dead_absorbs(d: Dfa, s: int, bytes: Seq<u8>)
    requires
        dfa_wf(d),
        dfa_is_dead(d, s),
    ensures
        dfa_is_dead(d, scan_from(d, s, bytes)),
    decreases bytes.len(),
{
    if bytes.len() != 0 {
        lemma_scan_dead_absorbs(d, dfa_step(d, s, bytes[0]), bytes.drop_first());
    }
}

/// An early-exiting walk that did not end dead never stopped early, so it
/// ends exactly where the full walk ends.
pub proof fn lemma_scan_complete(d: Dfa, s: int, bytes: Seq<u8>)
    ensures
        !dfa_is_dead(d, scan_from(d, s, bytes)) ==> scan_from(d, s, bytes) == walk_from(
            d,
            s,
            bytes,
        ),
    decreases bytes.len(),
{
    if bytes.len() != 0 {
        let t = dfa_step(d, s, bytes[0]);
        if !dfa_is_dead(d, t) {
            lemma_scan_complete(d, t, bytes.drop_first());
        }
    }
}

/// Early-exit equivalence: truncating consumption at the first dead state
/// never changes whether the walk ends dead, nor whether it ends in a match
/// state, versus consuming all remaining bytes.
pub proof fn lemma_early_exit_equivalence(d: Dfa, s: int, bytes: Seq<u8>)
    requires
        dfa_wf(d),
    ensures
        dfa_is_match(d, scan_from(d, s, bytes)) == dfa_is_match(d, walk_from(d, s, bytes)),
        dfa_is_dead(d, scan_from(d, s, bytes)) == dfa_is_dead(d, walk_from(d, s, bytes)),
    decreases bytes.len(),
{
    if bytes.len() != 0 {
        let t = dfa_step(d, s, bytes[0]);
        if dfa_is_dead(d, t) {
            lemma_walk_dead_absorbs(d, t, bytes.drop_first());
        } else {
            lemma_early_exit_equivalence(d, t, bytes.drop_first());
        }
    }
}

/// Streamed matching: feeding two chunks one after the other is observably
/// the same as feeding their concatenation at once. However a renderer or a
/// reader splits its output into chunks, the outcome is that of the whole.
pub proof fn lemma_scan_chunks(d: Dfa, s: int, a: Seq<u8>, b: Seq<u8>)
    requires
        dfa_wf(d),
    ensures
        dfa_is_match(d, scan_from(d, scan_from(d, s, a), b)) == dfa_is_match(
            d,
            scan_from(d, s, a + b),
        ),
        dfa_is_dead(d, scan_from(d, scan_from(d, s, a), b)) == dfa_is_dead(
            d,
            scan_from(d, s, a + b),
        ),
{
    let sa = scan_from(d, s, a);
    lemma_early_exit_equivalence(d, s, a);
    lemma_early_exit_equivalence(d, sa, b);
    lemma_early_exit_equivalence(d, s, a + b);
    lemma_walk_append(d, s, a, b);
    if dfa_is_dead(d, sa) {
        lemma_scan_dead_absorbs(d, sa, b);
        lemma_walk_dead_absorbs(d, walk_from(d, s, a), b);
    } else {
        lemma_scan_complete(d, s, a);
    }
}

/// The state left behind after feeding a sequence of chunks, each through
/// the early-exiting walk in turn: what a streamed producer's repeated
/// sink writes compute.
pub open spec fn scan_chunks_from(d: Dfa, s: int, chunks: Seq<Seq<u8>>) -> int
    decreases chunks.len(),
{
    if chunks.len() == 0 {
        s
    } else {
        scan_chunks_from(d, scan_from(d, s, chunks[0]), chunks.drop_first())
    }
}

/// However a producer splits its bytes into chunks, feeding the chunks one
/// after the other is observably the same as feeding their whole
/// concatenation at once. So matching a streamed rendering is equivalent to
/// first rendering the value fully and then matching the buffer, and
/// matching a streamed read is equivalent to matching the concatenation of
/// everything the source yields.
pub proof fn lemma_streaming_equivalence(d: Dfa, s: int, chunks: Seq<Seq<u8>>)
    requires
        dfa_wf(d),
    ensures
        dfa_is_match(d, scan_chunks_from(d, s, chunks)) == dfa_is_match(
            d,
            scan_from(d, s, chunks.flatten()),
        ),
        dfa_is_dead(d, scan_chunks_from(d, s, chunks)) == dfa_is_dead(
            d,
            scan_from(d, s, chunks.flatten()),
        ),
    decreases chunks.len(),
{
    if chunks.len() == 0 {
        assert(chunks.flatten() =~= Seq::<u8>::empty());
    } else {
        let t = scan_from(d, s, chunks[0]);
        lemma_streaming_equivalence(d, t, chunks.drop_first());
        lemma_scan_chunks(d, s, chunks[0], chunks.drop_first().flatten());
        assert(chunks.flatten() == chunks[0] + chunks.drop_first().flatten());
    }
}

/// Running the same input through two fresh matchers of one pattern gives
/// identical results: the outcome of a match is a function of the automaton
/// and the input alone, namely whether the automaton accepts the input.
pub proof fn lemma_fresh_runs_agree(d: Dfa, c1: int, c2: int, bytes: Seq<u8>)
    requires
        dfa_wf(d),
        c1 == dfa_start(d),
        c2 == dfa_start(d),
    ensures
        dfa_is_match(d, walk_from(d, c1, bytes)) == accepts(d, bytes),
        dfa_is_match(d, walk_from(d, c2, bytes)) == accepts(d, bytes),
{
}

} // verus!
