//! The read-only `Plugins` accessor a rule script sees.
use crate::analyzer::DynamicAnalyzerDetails;
use crate::strmap::assoc_get;
use crate::text::{lower_of, str_eq, to_lowercase};
use vstd::prelude::*;

verus! {

/// The value of the first add-on entry, at or after `i`, whose key equals
/// `lname` after case folding.
pub open spec fn first_ci_from(
    entries: Seq<(Seq<char>, Seq<char>)>,
    lname: Seq<char>,
    i: int,
) -> Option<Seq<char>>
    decreases entries.len() - i,
{
    if i < 0 || i >= entries.len() {
        None
    } else if lower_of(entries[i].0) == lname {
        Some(entries[i].1)
    } else {
        first_ci_from(entries, lname, i + 1)
    }
}

/// Read-only add-on facts, bound into a rule script.
pub struct Plugins {
    dad: DynamicAnalyzerDetails,
}

impl View for Plugins {
    type V = DynamicAnalyzerDetails;

    closed spec fn view(&self) -> DynamicAnalyzerDetails {
        self.dad
    }
}

impl Plugins {
    /// Binds the accessor over one analyzed log.
    pub fn new(dad: DynamicAnalyzerDetails) -> (r: Plugins)
        ensures
            r@ == dad,
    {
        Plugins { dad }
    }

    /// Exact-case test for a detected add-on of that name.
    pub fn has(self, name: &str) -> (b: bool)
        ensures
            b == (assoc_get(self@.plugins@, name@) is Some),
    {
        self.dad.plugins.contains_key(name)
    }

    /// Case-insensitive test for a detected add-on of that name.
    pub fn has_permissive(self, name: &str) -> (b: bool)
        ensures
            b == (first_ci_from(self@.plugins@, lower_of(name@), 0) is Some),
    {
        let lname = to_lowercase(name);
        let n = self.dad.plugins.len();
        let mut i: usize = 0;
        while i < n
            invariant
                n == self@.plugins@.len(),
                lname@ == lower_of(name@),
                0 <= i <= n,
                first_ci_from(self@.plugins@, lower_of(name@), 0) == first_ci_from(
                    self@.plugins@,
                    lower_of(name@),
                    i as int,
                ),
            decreases n - i,
        {
            let key = self.dad.plugins.key_at(i);
            let klow = to_lowercase(key.as_str());
            if str_eq(klow.as_str(), lname.as_str()) {
                return true;
            }
            i += 1;
        }
        false
    }

    /// Case-insensitive lookup of a detected add-on's stored version.
    pub fn version(self, name: &str) -> (r: Option<String>)
        ensures
            match r {
                Some(v) => first_ci_from(self@.plugins@, lower_of(name@), 0) == Some(v@),
                None => first_ci_from(self@.plugins@, lower_of(name@), 0) is None,
            },
    {
        let lname = to_lowercase(name);
        let n = self.dad.plugins.len();
        let mut i: usize = 0;
        while i < n
            invariant
                n == self@.plugins@.len(),
                lname@ == lower_of(name@),
                0 <= i <= n,
                first_ci_from(self@.plugins@, lower_of(name@), 0) == first_ci_from(
                    self@.plugins@,
                    lower_of(name@),
                    i as int,
                ),
            decreases n - i,
        {
            let key = self.dad.plugins.key_at(i);
            let klow = to_lowercase(key.as_str());
            if str_eq(klow.as_str(), lname.as_str()) {
                let version = self.dad.plugins.val_at(i);
                return Some(version.clone());
            }
            i += 1;
        }
        None
    }
}

} // verus!
