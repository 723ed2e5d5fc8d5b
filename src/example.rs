//! A record with a custom comparison function, as a user of the library writes one.

use crate::generate::{change_entry, wrap_value, ValueStyle};
use crate::CacheDiff;
use vstd::prelude::*;

verus! {

/// A record whose custom function reports every comparison.
#[derive(Debug)]
pub struct CustomDiffFn {
    pub name: String,
}

/// The custom function of [`CustomDiffFn`]: one entry naming both values.
pub fn diff_fn(previous: &CustomDiffFn, now: &CustomDiffFn) -> (r: Vec<String>)
    ensures
        r@.len() == 1,
        r@[0]@ == "Totally custom old: "@ + previous.name@ + " now: "@ + now.name@,
{
    let mut s = String::from_str("Totally custom old: ");
    s.append(previous.name.as_str());
    s.append(" now: ");
    s.append(now.name.as_str());
    let mut r = Vec::new();
    r.push(s);
    r
}

impl CustomDiffFn {
    /// The custom function's entry, then an entry for `name` where it changed.
    pub fn changes(&self, previous: &CustomDiffFn) -> (r: Vec<String>)
        ensures
            r@.len() == if self.name@ == previous.name@ { 1int } else { 2int },
            r@[0]@ == "Totally custom old: "@ + previous.name@ + " now: "@ + self.name@,
            self.name@ != previous.name@ ==> r@[1]@ == change_entry(
                "name"@,
                wrap_value(ValueStyle::Backticks, previous.name@),
                wrap_value(ValueStyle::Backticks, self.name@),
            ),
    {
        let mut r = diff_fn(previous, self);
        if self.name != previous.name {
            let before = crate::generate::fmt_value(ValueStyle::Backticks, previous.name.as_str());
            let after = crate::generate::fmt_value(ValueStyle::Backticks, self.name.as_str());
            r.push(crate::generate::change_text("name", before.as_str(), after.as_str()));
        }
        r
    }
}

impl CacheDiff for CustomDiffFn {
    fn diff(&self, previous: &Self) -> Vec<String> {
        self.changes(previous)
    }
}

} // verus!
