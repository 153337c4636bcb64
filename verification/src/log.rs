//! The habit log: a map from calendar day to a boolean flag.
//!
//! Absence of a key means "no data", which is distinct from a logged
//! `false`. The only mutations are setting a day outright and toggling
//! a day, where toggling an absent day inserts `true`.

use vstd::prelude::*;
use std::collections::HashMap;
use crate::date::Date;
use crate::date::date_valid;

verus! {

broadcast use vstd::std_specs::hash::group_hash_axioms;

/// Injective encoding of a date as an integer key: four decimal digits
/// of year, two of month, two of day.
pub open spec fn key_of(d: Date) -> u64 {
    (d.year * 10000 + d.month * 100 + d.day) as u64
}

/// Distinct valid dates have distinct keys.
pub proof fn lemma_key_injective(d1: Date, d2: Date)
    requires
        date_valid(d1),
        date_valid(d2),
        key_of(d1) == key_of(d2),
    ensures
        d1 == d2,
{
}

/// What toggling key `k` does to the log's contents: an absent key is
/// inserted as `true`, a present one has its value flipped.
pub open spec fn toggle_map(m: Map<u64, bool>, k: u64) -> Map<u64, bool> {
    if m.contains_key(k) {
        m.insert(k, !m[k])
    } else {
        m.insert(k, true)
    }
}

/// A log of days and whether the tracked event occurred on them.
pub struct HabitLog {
    map: HashMap<u64, bool>,
}

impl View for HabitLog {
    type V = Map<u64, bool>;

    closed spec fn view(&self) -> Map<u64, bool> {
        self.map@
    }
}

impl HabitLog {
    /// What the log records for date `d`: `None` when the day was never
    /// touched.
    pub open spec fn spec_get(&self, d: Date) -> Option<bool> {
        if self@.contains_key(key_of(d)) {
            Some(self@[key_of(d)])
        } else {
            None
        }
    }

    /// An empty log.
    pub fn new() -> (r: HabitLog)
        ensures
            r@ == Map::<u64, bool>::empty(),
    {
        HabitLog { map: HashMap::new() }
    }

    /// The recorded flag for `d`, or `None` for a day never toggled.
    pub fn get(&self, d: Date) -> (r: Option<bool>)
        ensures
            r == self.spec_get(d),
    {
        match self.map.get(&key_of_exec(d)) {
            Some(v) => Some(*v),
            None => None,
        }
    }

    /// Records flag `v` for day `d`, replacing any earlier entry.
    pub fn set(&mut self, d: Date, v: bool)
        ensures
            final(self)@ == old(self)@.insert(key_of(d), v),
    {
        self.map.insert(key_of_exec(d), v);
    }

    /// Flips the entry for day `d`; a day without data is inserted as
    /// `true`.
    pub fn toggle(&mut self, d: Date)
        ensures
            final(self)@ == toggle_map(old(self)@, key_of(d)),
    {
        let k = key_of_exec(d);
        let cur: bool = match self.map.get(&k) {
            Some(v) => *v,
            None => false,
        };
        self.map.insert(k, !cur);
    }
}

/// The integer key for date `d`.
pub fn key_of_exec(d: Date) -> (r: u64)
    ensures
        r == key_of(d),
{
    (d.year as u64) * 10000 + (d.month as u64) * 100 + (d.day as u64)
}

/// Toggling a day that has data twice restores the log exactly; a day
/// without data first receives `true`, after which the two-toggle
/// round trip applies (so three toggles from absent yield
/// absent, `true`, `false`, `true`).
pub proof fn lemma_toggle_involutive(m: Map<u64, bool>, k: u64)
    requires
        m.contains_key(k),
    ensures
        toggle_map(toggle_map(m, k), k) == m,
{
    let m1 = toggle_map(m, k);
    let m2 = toggle_map(m1, k);
    assert(m2 =~= m);
}

/// Toggling a day without data records `true` for it.
pub proof fn lemma_toggle_absent(m: Map<u64, bool>, k: u64)
    requires
        !m.contains_key(k),
    ensures
        toggle_map(m, k).contains_key(k),
        toggle_map(m, k)[k] == true,
{
}

} // verus!
