//! The automaton capability: the boundary to the `regex_automata` crate.
//!
//! A pattern is compiled by `regex_automata` into a deterministic finite
//! automaton over the byte alphabet, stored either as a dense transition
//! table or as a compact sparse encoding. The walker consumes an automaton
//! through four primitive operations only: start state, byte-indexed
//! transition, dead-state test and match-state test. This module holds the
//! two automaton representations, names those four operations for each,
//! wraps every call, and bundles the two representations into the closed
//! [`Dfa`] sum so the rest of the crate treats them identically.

use vstd::prelude::*;
use regex_automata::DFA;

verus! {

/// A dense automaton: a full transition table per state (fast lookup,
/// larger footprint), compiled and owned by `regex_automata`.
#[verifier::external_body]
pub struct DenseAutomaton {
    inner: regex_automata::DenseDFA<Vec<usize>, usize>,
}

/// A sparse automaton: a compact encoding of the same machine (smaller
/// footprint, slower lookup), compiled and owned by `regex_automata`.
#[verifier::external_body]
pub struct SparseAutomaton {
    inner: regex_automata::SparseDFA<Vec<u8>, usize>,
}

#[verifier::external_type_specification]
#[verifier::external_body]
pub struct ExError(regex_automata::Error);

/// Whether the compilation collaborator turns the pattern text `p` into a
/// dense automaton. Its verdict is a function of the pattern text alone:
/// parsing, determinization and the default limits are deterministic.
pub uninterp spec fn dense_compiles(p: Seq<char>) -> bool;

/// Whether re-encoding the dense automaton `d` in the sparse representation
/// succeeds: a function of the automaton alone.
pub uninterp spec fn sparse_encodes(d: DenseAutomaton) -> bool;

/// Whether `s` is a valid state identifier of the dense automaton: one the
/// automaton itself handed out, as its start state or as a transition
/// result. The transition lookup indexes its table by the raw identifier,
/// so it is safe only on valid states; this is the safety precondition the
/// skip-validation walk rests on.
pub uninterp spec fn dense_valid_state(d: DenseAutomaton, s: int) -> bool;

/// The same validity notion for a sparse automaton, whose transition lookup
/// slices its encoding at the raw identifier.
pub uninterp spec fn sparse_valid_state(d: SparseAutomaton, s: int) -> bool;

/// The start state of a dense automaton.
pub uninterp spec fn dense_start_of(d: DenseAutomaton) -> int;

/// The transition function of a dense automaton: the state reached from
/// state `s` on input byte `b`.
pub uninterp spec fn dense_step_of(d: DenseAutomaton, s: int, b: u8) -> int;

/// Whether state `s` of a dense automaton is a match state.
pub uninterp spec fn dense_is_match_of(d: DenseAutomaton, s: int) -> bool;

/// Whether state `s` of a dense automaton is a dead state.
pub uninterp spec fn dense_is_dead_of(d: DenseAutomaton, s: int) -> bool;

/// The start state of a sparse automaton.
pub uninterp spec fn sparse_start_of(d: SparseAutomaton) -> int;

/// The transition function of a sparse automaton.
pub uninterp spec fn sparse_step_of(d: SparseAutomaton, s: int, b: u8) -> int;

/// Whether state `s` of a sparse automaton is a match state.
pub uninterp spec fn sparse_is_match_of(d: SparseAutomaton, s: int) -> bool;

/// Whether state `s` of a sparse automaton is a dead state.
pub uninterp spec fn sparse_is_dead_of(d: SparseAutomaton, s: int) -> bool;

/// What successful construction guarantees of a dense automaton, and what
/// the dead-state short-circuit rests on: dead states are absorbing (every
/// transition out of a dead state reaches a dead state) and never match.
pub open spec fn dense_wf(d: DenseAutomaton) -> bool {
    &&& forall|s: int, b: u8|
        dense_is_dead_of(d, s) ==> dense_is_dead_of(d, #[trigger] dense_step_of(d, s, b))
    &&& forall|s: int| #[trigger] dense_is_dead_of(d, s) ==> !dense_is_match_of(d, s)
}

/// The same guarantee for a sparse automaton.
pub open spec fn sparse_wf(d: SparseAutomaton) -> bool {
    &&& forall|s: int, b: u8|
        sparse_is_dead_of(d, s) ==> sparse_is_dead_of(d, #[trigger] sparse_step_of(d, s, b))
    &&& forall|s: int| #[trigger] sparse_is_dead_of(d, s) ==> !sparse_is_match_of(d, s)
}

impl DenseAutomaton {
    /// Relies on `DenseDFA::new`: compiles a pattern into a dense automaton,
    /// succeeding exactly when the deterministic compilation of this pattern
    /// text succeeds, and returning the collaborator's error otherwise. Per
    /// the `DFA` contract in `regex_automata`, a constructed automaton's
    /// dead states are absorbing ("impossible to leave") and never lead to a
    /// match; in the dense representation a state is dead exactly when its
    /// identifier is 0, and `is_match_state` excludes that identifier.
    #[verifier::external_body]
    pub(crate) fn compile(pattern: &str) -> (r: Result<DenseAutomaton, regex_automata::Error>)
        ensures
            (r is Ok) == dense_compiles(pattern@),
            r matches Ok(d) ==> dense_wf(d),
    {
        match regex_automata::DenseDFA::new(pattern) {
            Ok(inner) => Ok(DenseAutomaton { inner }),
            Err(e) => Err(e),
        }
    }

    /// Relies on `DenseDFA::to_sparse`: re-encodes a dense automaton in the
    /// sparse representation, succeeding exactly when the deterministic
    /// re-encoding of this automaton succeeds. The sparse representation
    /// keeps the same dead-state conventions: a state is dead exactly when
    /// its identifier is 0, every transition out of it stays dead, and
    /// `is_match_state` excludes it.
    #[verifier::external_body]
    pub(crate) fn to_sparse(&self) -> (r: Result<SparseAutomaton, regex_automata::Error>)
        ensures
            (r is Ok) == sparse_encodes(*self),
            r matches Ok(sd) ==> sparse_wf(sd),
    {
        match self.inner.to_sparse() {
            Ok(inner) => Ok(SparseAutomaton { inner }),
            Err(e) => Err(e),
        }
    }

    /// Relies on `DenseDFA::start_state`: the automaton's one start state,
    /// a valid identifier.
    #[verifier::external_body]
    fn start_state(&self) -> (s: usize)
        ensures
            s as int == dense_start_of(*self),
            dense_valid_state(*self, s as int),
    {
        self.inner.start_state()
    }

    /// Relies on `DenseDFA::next_state`: the transition function, total over
    /// the valid states; its result depends on the automaton, the state and
    /// the byte alone, and is again a valid identifier. The call indexes the
    /// transition table by the raw identifier, so an invalid state is left
    /// out by precondition rather than checked.
    #[verifier::external_body]
    fn next_state(&self, s: usize, b: u8) -> (t: usize)
        requires
            dense_valid_state(*self, s as int),
        ensures
            t as int == dense_step_of(*self, s as int, b),
            dense_valid_state(*self, t as int),
    {
        self.inner.next_state(s, b)
    }

    /// Relies on `DenseDFA::is_match_state`: true iff the state is a match
    /// state.
    #[verifier::external_body]
    fn is_match_state(&self, s: usize) -> (r: bool)
        ensures
            r == dense_is_match_of(*self, s as int),
    {
        self.inner.is_match_state(s)
    }

    /// Relies on `DenseDFA::is_dead_state`: true iff the state is a dead
    /// state.
    #[verifier::external_body]
    fn is_dead_state(&self, s: usize) -> (r: bool)
        ensures
            r == dense_is_dead_of(*self, s as int),
    {
        self.inner.is_dead_state(s)
    }
}

impl SparseAutomaton {
    /// Relies on `SparseDFA::start_state`: the automaton's one start state,
    /// a valid identifier.
    #[verifier::external_body]
    fn start_state(&self) -> (s: usize)
        ensures
            s as int == sparse_start_of(*self),
            sparse_valid_state(*self, s as int),
    {
        self.inner.start_state()
    }

    /// Relies on `SparseDFA::next_state`: the transition function, total
    /// over the valid states; its result depends on the automaton, the
    /// state and the byte alone, and is again a valid identifier. The call
    /// slices the sparse encoding at the raw identifier, so an invalid
    /// state is left out by precondition rather than checked.
    #[verifier::external_body]
    fn next_state(&self, s: usize, b: u8) -> (t: usize)
        requires
            sparse_valid_state(*self, s as int),
        ensures
            t as int == sparse_step_of(*self, s as int, b),
            sparse_valid_state(*self, t as int),
    {
        self.inner.next_state(s, b)
    }

    /// Relies on `SparseDFA::is_match_state`: true iff the state is a match
    /// state.
    #[verifier::external_body]
    fn is_match_state(&self, s: usize) -> (r: bool)
        ensures
            r == sparse_is_match_of(*self, s as int),
    {
        self.inner.is_match_state(s)
    }

    /// Relies on `SparseDFA::is_dead_state`: true iff the state is a dead
    /// state.
    #[verifier::external_body]
    fn is_dead_state(&self, s: usize) -> (r: bool)
        ensures
            r == sparse_is_dead_of(*self, s as int),
    {
        self.inner.is_dead_state(s)
    }
}

/// A compiled automaton in one of the two supported storage representations.
///
/// The set of representations is closed: the walker and the matcher
/// machinery treat both identically, and nothing outside this crate can add
/// a third.
pub enum Dfa {
    /// Full transition table per state: fast lookup, larger footprint.
    Dense(DenseAutomaton),
    /// Compact encoding: smaller footprint, slower lookup.
    Sparse(SparseAutomaton),
}

/// Whether `s` is a valid state identifier of the automaton: one the
/// automaton itself handed out. Only valid states may be fed back into the
/// transition function.
pub open spec fn dfa_valid_state(d: Dfa, s: int) -> bool {
    match d {
        Dfa::Dense(a) => dense_valid_state(a, s),
        Dfa::Sparse(a) => sparse_valid_state(a, s),
    }
}

/// The start state of an automaton.
pub open spec fn dfa_start(d: Dfa) -> int {
    match d {
        Dfa::Dense(a) => dense_start_of(a),
        Dfa::Sparse(a) => sparse_start_of(a),
    }
}

/// The transition function of an automaton: total over (state, byte).
pub open spec fn dfa_step(d: Dfa, s: int, b: u8) -> int {
    match d {
        Dfa::Dense(a) => dense_step_of(a, s, b),
        Dfa::Sparse(a) => sparse_step_of(a, s, b),
    }
}

/// Whether `s` is a match state: a walk that stops there accepts.
pub open spec fn dfa_is_match(d: Dfa, s: int) -> bool {
    match d {
        Dfa::Dense(a) => dense_is_match_of(a, s),
        Dfa::Sparse(a) => sparse_is_match_of(a, s),
    }
}

/// Whether `s` is a dead state: an unrecoverable, absorbing reject.
pub open spec fn dfa_is_dead(d: Dfa, s: int) -> bool {
    match d {
        Dfa::Dense(a) => dense_is_dead_of(a, s),
        Dfa::Sparse(a) => sparse_is_dead_of(a, s),
    }
}

/// A well-formed automaton: dead states absorb and never match. Successful
/// compilation guarantees this; every walk below relies on it.
pub open spec fn dfa_wf(d: Dfa) -> bool {
    match d {
        Dfa::Dense(a) => dense_wf(a),
        Dfa::Sparse(a) => sparse_wf(a),
    }
}

/// Dead states of a well-formed automaton absorb and never match, whichever
/// representation carries them.
pub proof fn lemma_dfa_wf_unfolded(d: Dfa)
    requires
        dfa_wf(d),
    ensures
        forall|s: int, b: u8| dfa_is_dead(d, s) ==> dfa_is_dead(d, #[trigger] dfa_step(d, s, b)),
        forall|s: int| #[trigger] dfa_is_dead(d, s) ==> !dfa_is_match(d, s),
{
}

impl Dfa {
    /// The automaton's start state: a valid identifier.
    pub(crate) fn start(&self) -> (s: usize)
        ensures
            s as int == dfa_start(*self),
            dfa_valid_state(*self, s as int),
    {
        match self {
            Dfa::Dense(a) => a.start_state(),
            Dfa::Sparse(a) => a.start_state(),
        }
    }

    /// The state reached from the valid state `s` on input byte `b`: again
    /// a valid identifier.
    pub(crate) fn next(&self, s: usize, b: u8) -> (t: usize)
        requires
            dfa_valid_state(*self, s as int),
        ensures
            t as int == dfa_step(*self, s as int, b),
            dfa_valid_state(*self, t as int),
    {
        match self {
            Dfa::Dense(a) => a.next_state(s, b),
            Dfa::Sparse(a) => a.next_state(s, b),
        }
    }

    /// Whether `s` is a match state.
    pub(crate) fn is_match(&self, s: usize) -> (r: bool)
        ensures
            r == dfa_is_match(*self, s as int),
    {
        match self {
            Dfa::Dense(a) => a.is_match_state(s),
            Dfa::Sparse(a) => a.is_match_state(s),
        }
    }

    /// Whether `s` is a dead state.
    pub(crate) fn is_dead(&self, s: usize) -> (r: bool)
        ensures
            r == dfa_is_dead(*self, s as int),
    {
        match self {
            Dfa::Dense(a) => a.is_dead_state(s),
            Dfa::Sparse(a) => a.is_dead_state(s),
        }
    }
}

} // verus!
