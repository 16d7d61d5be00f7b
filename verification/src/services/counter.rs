//! Provide a basic counter service.
//!
//! A counter is loaded once from the text of its backing file, owns the
//! current value in memory from then on, and hands back after each increment
//! the exact decimal text that the caller must mirror into the backing file.
//! A missing or unparsable backing file degrades to an initial value of 0;
//! it never fails construction.

use vstd::prelude::*;

use crate::decimal::{spec_parse_u64, spec_u64_text, parse_u64, u64_to_text};

verus! {

/// The value a counter starts from, given the text of its backing file, or
/// `None` where the file could not be read: the stored value where the text
/// is its decimal representation, 0 otherwise.
pub open spec fn loaded_value(stored: Option<Seq<char>>) -> u64 {
    match stored {
        Some(s) => match spec_parse_u64(s) {
            Some(n) => n,
            None => 0,
        },
        None => 0,
    }
}

/// The view of an optionally read text.
pub open spec fn stored_view(stored: Option<&str>) -> Option<Seq<char>> {
    match stored {
        Some(s) => Some(s@),
        None => None,
    }
}

/// A durable monotonic counter backed by a file that callers mirror it into.
pub struct CounterService {
    path: String,
    value: u64,
}

impl CounterService {
    /// The path of the counter's backing file.
    pub closed spec fn spec_path(&self) -> Seq<char> {
        self.path@
    }

    /// The counter's current value.
    pub closed spec fn spec_value(&self) -> u64 {
        self.value
    }

    /// Create a new counter service backed by the file at `path`, whose text
    /// was read as `stored` (`None` where reading failed). An unreadable or
    /// unparsable backing file is not fatal: the counter starts from 0.
    pub fn new(path: String, stored: Option<&str>) -> (r: CounterService)
        ensures
            r.spec_path() == path@,
            r.spec_value() == loaded_value(stored_view(stored)),
    {
        let value = match stored {
            Some(s) => match parse_u64(s) {
                Some(n) => n,
                None => 0,
            },
            None => 0,
        };
        CounterService { path, value }
    }

    /// Increase the counter and get the updated counter value.
    ///
    /// Every call returns exactly one more than the value before it, so no
    /// two increments of one counter ever observe the same value and none is
    /// lost.
    pub fn increase(&mut self) -> (r: u64)
        requires
            old(self).spec_value() < u64::MAX,
        ensures
            final(self).spec_value() == old(self).spec_value() + 1,
            final(self).spec_path() == old(self).spec_path(),
            r == final(self).spec_value(),
    {
        self.value = self.value + 1;
        self.value
    }

    /// The decimal text that the backing file must hold for the current
    /// value.
    pub fn persist_text(&self) -> (r: String)
        ensures
            r@ == spec_u64_text(self.spec_value() as nat),
    {
        u64_to_text(self.value)
    }

    /// The path of the backing file, for the caller that mirrors the value.
    pub fn path(&self) -> (r: &String)
        ensures
            r@ == self.spec_path(),
    {
        &self.path
    }

    /// The counter's current value, without increasing it.
    pub fn value(&self) -> (r: u64)
        ensures
            r == self.spec_value(),
    {
        self.value
    }
}

/// The values that `k` increments return when run one after another from
/// initial value `v0`: `v0 + 1` up to `v0 + k`.
pub open spec fn increase_results(v0: u64, k: nat) -> Seq<u64>
    recommends
        v0 + k <= u64::MAX,
{
    Seq::new(k, |i: int| (v0 + i + 1) as u64)
}

/// Increments never repeat or skip a value: since each call to `increase`
/// returns exactly one more than the value before it, any serialization of
/// `k` increments from value `v0` returns each value in `(v0, v0 + k]`
/// exactly once — no duplicates and no gaps.
pub proof fn lemma_increase_results_exact(v0: u64, k: nat)
    requires
        v0 + k <= u64::MAX,
    ensures
        increase_results(v0, k).len() == k,
        forall|i: int| 0 <= i < k ==> #[trigger] increase_results(v0, k)[i] == v0 + i + 1,
        forall|i: int, j: int|
            0 <= i < j < k ==> increase_results(v0, k)[i] != increase_results(v0, k)[j],
        forall|i: int|
            0 <= i < k ==> v0 < #[trigger] increase_results(v0, k)[i] <= v0 + k,
{
}

} // verus!
