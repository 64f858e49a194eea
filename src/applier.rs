//! The switch of a profile, carried out on a configuration held in memory:
//! purge (hard strategies only), remove stale links, apply the profile.

use vstd::prelude::*;
use crate::gitconfig::{Entry, EntryView, LocalConfig, apply_ops, entry_views};
use crate::plan::{apply_profile_ops, sanitize_ops, spec_apply_ops, spec_sanitize_ops, spec_stale_ops, stale_include_ops};
use crate::policy::{include_key, spec_include_key};
use crate::strategy::SwitchStrategy;
use crate::text::{same, views};

verus! {

/// The values of the links in `c`, in order.
pub open spec fn include_values(c: Seq<EntryView>) -> Seq<Seq<char>>
    decreases c.len(),
{
    if c.len() == 0 {
        Seq::empty()
    } else {
        let r = include_values(c.drop_last());
        if c.last().0 == spec_include_key() {
            r.push(c.last().1)
        } else {
            r
        }
    }
}

/// `c` after the purge that strategy `s` calls for.
pub open spec fn spec_sanitized(c: Seq<EntryView>, s: SwitchStrategy) -> Seq<EntryView> {
    apply_ops(c, spec_sanitize_ops(s))
}

/// `c` without the links that profiles in `dir` left.
pub open spec fn spec_cleaned(c: Seq<EntryView>, dir: Seq<char>) -> Seq<EntryView> {
    apply_ops(c, spec_stale_ops(include_values(c), dir))
}

/// The configuration after switching `c` with effective strategy `s` to the
/// profile whose file is `file` and whose entries are `profile`; `dir` is
/// the profile directory.
pub open spec fn spec_switch(
    c: Seq<EntryView>,
    s: SwitchStrategy,
    dir: Seq<char>,
    file: Seq<char>,
    profile: Seq<EntryView>,
) -> Seq<EntryView> {
    apply_ops(spec_cleaned(spec_sanitized(c, s), dir), spec_apply_ops(s, file, profile))
}

impl LocalConfig {
    /// The values of the links, in order.
    pub fn include_values(&self) -> (r: Vec<String>)
        ensures
            views(r@) == include_values(self@),
    {
        let key = include_key();
        let mut r: Vec<String> = Vec::new();
        let mut i: usize = 0;
        while i < self.entries.len()
            invariant
                key@ == spec_include_key(),
                i <= self.entries.len(),
                views(r@) == include_values(self@.take(i as int)),
            decreases self.entries.len() - i,
        {
            proof {
                assert(self@.take(i + 1).drop_last() =~= self@.take(i as int));
                assert(self@[i as int] == self.entries@[i as int]@);
            }
            if same(self.entries[i].key.as_str(), key.as_str()) {
                let ghost before = r@;
                r.push(self.entries[i].value.clone());
                proof {
                    assert(views(r@) =~= views(before).push(self.entries@[i as int].value@));
                }
            }
            i += 1;
        }
        proof {
            assert(self@.take(self.entries.len() as int) =~= self@);
        }
        r
    }

    /// Switches to a profile: purges identity settings where `s` is hard,
    /// removes the links that profiles in `dir` left, then links the
    /// profile file `file` or writes the profile's entries `profile`.
    pub fn switch_to(&mut self, s: SwitchStrategy, dir: &str, file: &str, profile: &Vec<Entry>)
        ensures
            final(self)@ == spec_switch(old(self)@, s, dir@, file@, entry_views(profile@)),
    {
        let purge = sanitize_ops(s);
        self.apply_all(&purge);
        let values = self.include_values();
        let stale = stale_include_ops(&values, dir);
        self.apply_all(&stale);
        let apply = apply_profile_ops(s, file, profile);
        self.apply_all(&apply);
    }
}

} // verus!
