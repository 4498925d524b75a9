//! Memory-bounded pattern matching against byte-producing sources.
//!
//! A [`Pattern`] owns an automaton compiled from a regular expression and
//! hands out one single-use [`Matcher`] per match attempt. The matcher walks
//! the automaton one byte at a time and stops as soon as it enters a dead
//! state, from which no further input can lead to a match; the input is
//! never materialized as a whole. The same matcher value serves as a text
//! sink ([`Matcher::write_str`]) and as a byte sink ([`Matcher::write`]),
//! so chunked producers can write straight into the walk.

use vstd::prelude::*;
use vstd::slice::slice_index_get;
use vstd::string::StringSliceAdditionalSpecFns;

pub mod dfa;
pub mod walk;

use crate::dfa::{
    Dfa, DenseAutomaton, dense_compiles, dfa_start, dfa_step, dfa_is_match, dfa_is_dead,
    dfa_valid_state, dfa_wf, lemma_dfa_wf_unfolded,
};
use crate::walk::{
    accepts, scan_from, scan_len, walk_from, lemma_walk_append, lemma_walk_dead_absorbs,
    lemma_walk_snoc,
};

verus! {

/// Marker trait closing the set of automaton representations that can
/// produce a matcher: only the representations this crate ships implement
/// it.
pub trait Sealed {}

/// The capability of producing a fresh matcher for each match attempt.
pub trait ToMatcher: Sealed {
    /// The automaton a produced matcher will walk.
    spec fn dfa_of(&self) -> Dfa;

    /// Produce a matcher positioned at the automaton's start state, with
    /// nothing consumed yet, borrowing (not copying) the automaton.
    fn matcher<'a>(&'a self) -> (m: Matcher<'a>)
        ensures
            m.dfa() == self.dfa_of(),
            m.cur() == dfa_start(self.dfa_of()),
            m.fed() == Seq::<u8>::empty(),
    ;
}

/// An immutable, shareable compiled pattern. Construction validates the
/// automaton; every matcher it produces walks that automaton read-only.
pub struct Pattern {
    automaton: Dfa,
}

/// An ephemeral, single-use walk through a pattern's automaton: a borrowed
/// automaton plus the one mutable current-state cell.
pub struct Matcher<'a> {
    automaton: &'a Dfa,
    state: usize,
    consumed: Ghost<Seq<u8>>,
}

impl Sealed for Pattern {
}

impl Pattern {
    /// A pattern only ever holds a well-formed automaton: one whose dead
    /// states absorb and never match.
    #[verifier::type_invariant]
    spec fn inv(self) -> bool {
        dfa_wf(self.automaton)
    }

    /// The compiled automaton this pattern owns.
    pub closed spec fn dfa(self) -> Dfa {
        self.automaton
    }

    /// Compile `pattern` into a dense automaton and wrap it. Succeeds
    /// exactly when the compilation collaborator accepts the pattern text;
    /// otherwise its error is surfaced unchanged, never recovered
    /// internally.
    pub fn new(pattern: &str) -> (r: Result<Pattern, regex_automata::Error>)
        ensures
            (r is Ok) == dense_compiles(pattern@),
            r matches Ok(p) ==> p.dfa() is Dense,
            r matches Ok(p) ==> dfa_wf(p.dfa()),
    {
        match DenseAutomaton::compile(pattern) {
            Ok(d) => Ok(Pattern { automaton: Dfa::Dense(d) }),
            Err(e) => Err(e),
        }
    }

    /// Compile `pattern` and re-encode the automaton in the sparse
    /// representation; the matcher machinery treats both identically. Fails
    /// exactly when compilation of the pattern text fails or the
    /// re-encoding of the compiled automaton fails, surfacing that error
    /// unchanged; success therefore implies the pattern compiles, and a
    /// pattern that does not compile is always an error.
    pub fn new_sparse(pattern: &str) -> (r: Result<Pattern, regex_automata::Error>)
        ensures
            r is Ok ==> dense_compiles(pattern@),
            !dense_compiles(pattern@) ==> r is Err,
            r matches Ok(p) ==> p.dfa() is Sparse,
            r matches Ok(p) ==> dfa_wf(p.dfa()),
    {
        let dense = match DenseAutomaton::compile(pattern) {
            Ok(d) => d,
            Err(e) => {
                return Err(e);
            },
        };
        match dense.to_sparse() {
            Ok(sd) => Ok(Pattern { automaton: Dfa::Sparse(sd) }),
            Err(e) => Err(e),
        }
    }

    /// Whether the automaton accepts every byte of `s`'s UTF-8 encoding,
    /// walked to completion with no early exit.
    pub fn matches(&self, s: &str) -> (r: bool)
        ensures
            r == accepts(self.dfa(), s.spec_bytes()),
    {
        self.matcher().matches(s)
    }
}

impl ToMatcher for Pattern {
    open spec fn dfa_of(&self) -> Dfa {
        self.dfa()
    }

    fn matcher<'a>(&'a self) -> (m: Matcher<'a>)
        ensures
            m.dfa() == self.dfa(),
            m.cur() == dfa_start(self.dfa()),
            m.fed() == Seq::<u8>::empty(),
    {
        proof {
            use_type_invariant(self);
        }
        Matcher::new(&self.automaton)
    }
}

impl<'a> Matcher<'a> {
    /// The borrowed automaton is well-formed; the current state is a valid
    /// identifier the automaton itself produced (the safety precondition of
    /// the unchecked transition lookup); and it is exactly the state the
    /// walk over the consumed bytes reaches from the start state — in
    /// particular it is reachable.
    #[verifier::type_invariant]
    spec fn inv(self) -> bool {
        &&& dfa_wf(*self.automaton)
        &&& dfa_valid_state(*self.automaton, self.state as int)
        &&& self.state as int == walk_from(
            *self.automaton,
            dfa_start(*self.automaton),
            self.consumed@,
        )
    }

    /// The automaton this matcher walks.
    pub closed spec fn dfa(self) -> Dfa {
        *self.automaton
    }

    /// The matcher's current state.
    pub closed spec fn cur(self) -> int {
        self.state as int
    }

    /// The bytes fed through the walk so far.
    pub closed spec fn fed(self) -> Seq<u8> {
        self.consumed@
    }

    fn new(automaton: &'a Dfa) -> (m: Matcher<'a>)
        requires
            dfa_wf(*automaton),
        ensures
            m.dfa() == *automaton,
            m.cur() == dfa_start(*automaton),
            m.fed() == Seq::<u8>::empty(),
    {
        let state = automaton.start();
        Matcher { automaton, state, consumed: Ghost(Seq::empty()) }
    }

    /// Transition the current state on one input byte. Never fails: the
    /// transition function is total.
    fn advance(&mut self, input: u8)
        ensures
            final(self).dfa() == old(self).dfa(),
            final(self).cur() == dfa_step(old(self).dfa(), old(self).cur(), input),
            final(self).fed() == old(self).fed().push(input),
    {
        proof {
            use_type_invariant(&*self);
            lemma_walk_snoc(*self.automaton, dfa_start(*self.automaton), self.consumed@, input);
        }
        let t = self.automaton.next(self.state, input);
        let ghost c = self.consumed@.push(input);
        *self = Matcher { automaton: self.automaton, state: t, consumed: Ghost(c) };
    }

    /// Whether the current state is a match state, at the moment of the
    /// call: feeding further bytes can change it, in either direction.
    pub fn is_matched(&self) -> (r: bool)
        ensures
            r == dfa_is_match(self.dfa(), self.cur()),
    {
        self.automaton.is_match(self.state)
    }

    /// Whether the matcher has entered a dead state. Once true it stays
    /// true for the rest of this matcher's life, and the outcome is
    /// settled: no continuation matches.
    pub fn is_dead(&self) -> (r: bool)
        ensures
            r == dfa_is_dead(self.dfa(), self.cur()),
    {
        self.automaton.is_dead(self.state)
    }

    /// Feed every byte of `s`'s UTF-8 encoding through the walk, stopping
    /// early once dead; the result is nevertheless exactly that of the
    /// full walk, because dead states absorb.
    pub fn matches(self, s: &str) -> (r: bool)
        ensures
            r == dfa_is_match(self.dfa(), walk_from(self.dfa(), self.cur(), s.spec_bytes())),
    {
        proof {
            use_type_invariant(&self);
        }
        let mut m = self;
        let bytes: &[u8] = s.as_bytes();
        let ghost d = m.dfa();
        let ghost c0 = m.cur();
        let mut i: usize = 0;
        while i < bytes.len()
            invariant
                i <= bytes@.len(),
                bytes@ == s.spec_bytes(),
                dfa_wf(d),
                d == self.dfa(),
                c0 == self.cur(),
                m.dfa() == d,
                m.cur() == walk_from(d, c0, bytes@.take(i as int)),
            decreases bytes@.len() - i,
        {
            let b: u8 = *slice_index_get(bytes, i);
            m.advance(b);
            proof {
                lemma_walk_snoc(d, c0, bytes@.take(i as int), b);
                assert(bytes@.take(i as int).push(b) =~= bytes@.take(i + 1));
            }
            i = i + 1;
            if m.is_dead() {
                proof {
                    assert(bytes@ =~= bytes@.take(i as int) + bytes@.skip(i as int));
                    lemma_walk_append(d, c0, bytes@.take(i as int), bytes@.skip(i as int));
                    lemma_walk_dead_absorbs(d, m.cur(), bytes@.skip(i as int));
                    lemma_dfa_wf_unfolded(d);
                }
                return false;
            }
        }
        proof {
            assert(bytes@.take(i as int) =~= bytes@);
        }
        m.is_matched()
    }

    /// The byte sink: feed a chunk of raw bytes through the walk, stopping
    /// within the chunk right after a transition lands in a dead state, and
    /// report how many bytes were consumed — a short count, never an error.
    pub fn write(&mut self, bytes: &[u8]) -> (n: usize)
        ensures
            final(self).dfa() == old(self).dfa(),
            n == scan_len(old(self).dfa(), old(self).cur(), bytes@),
            n <= bytes@.len(),
            n < bytes@.len() ==> dfa_is_dead(final(self).dfa(), final(self).cur()),
            final(self).cur() == scan_from(old(self).dfa(), old(self).cur(), bytes@),
            final(self).fed() == old(self).fed() + bytes@.take(n as int),
    {
        proof {
            use_type_invariant(&*self);
        }
        let ghost d = self.dfa();
        let ghost c0 = self.cur();
        let ghost f0 = self.fed();
        let ghost all = bytes@;
        proof {
            assert(all.skip(0) =~= all);
            assert(all.take(0) =~= Seq::<u8>::empty());
            assert(f0 + all.take(0) =~= f0);
        }
        let mut i: usize = 0;
        while i < bytes.len()
            invariant
                i <= all.len(),
                bytes@ == all,
                dfa_wf(d),
                d == old(self).dfa(),
                c0 == old(self).cur(),
                f0 == old(self).fed(),
                self.dfa() == d,
                self.fed() == f0 + all.take(i as int),
                scan_from(d, c0, all) == scan_from(d, self.cur(), all.skip(i as int)),
                scan_len(d, c0, all) == i + scan_len(d, self.cur(), all.skip(i as int)),
            decreases all.len() - i,
        {
            let ghost cur = self.cur();
            let b: u8 = *slice_index_get(bytes, i);
            self.advance(b);
            proof {
                assert(all.skip(i as int)[0] == all[i as int]);
                assert(all.skip(i as int).drop_first() =~= all.skip(i + 1));
                assert(f0 + all.take(i as int).push(b) =~= f0 + all.take(i + 1));
            }
            i = i + 1;
            if self.is_dead() {
                proof {
                    assert(f0 + all.take(i as int) =~= (f0 + all.take(i as int - 1)).push(b));
                }
                return i;
            }
        }
        proof {
            assert(all.skip(i as int) =~= Seq::<u8>::empty());
            assert(all.take(i as int) =~= all);
        }
        i
    }

    /// The text sink: feed a chunk of text through the walk by its UTF-8
    /// byte encoding, with the same silent early stop as the byte sink.
    /// Never fails on its own account: dead-state truncation is expressed
    /// later through `is_matched`, not as an error.
    pub fn write_str(&mut self, s: &str)
        ensures
            final(self).dfa() == old(self).dfa(),
            final(self).cur() == scan_from(old(self).dfa(), old(self).cur(), s.spec_bytes()),
            final(self).fed() == old(self).fed() + s.spec_bytes().take(
                scan_len(old(self).dfa(), old(self).cur(), s.spec_bytes()) as int,
            ),
    {
        let _ = self.write(s.as_bytes());
    }

    /// The byte sink has nothing to flush; the walk consumes each chunk as
    /// it arrives.
    pub fn flush(&mut self)
        ensures
            *final(self) == *old(self),
    {
    }
}

} // verus!
