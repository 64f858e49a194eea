//! The local configuration of a repository as a sequence of `key = value`
//! entries, and the edits that the tool makes to it.
//!
//! A key is written `section.name` or `section.subsection.name`; the section
//! of a key is everything before its last dot. Entries keep the order of the
//! file, and a later entry for a key overrides an earlier one.

use vstd::prelude::*;
use crate::text::same;

verus! {

/// One entry of a configuration: a key and its value.
pub type EntryView = (Seq<char>, Seq<char>);

/// One `key = value` entry.
#[derive(Debug)]
pub struct Entry {
    pub key: String,
    pub value: String,
}

impl View for Entry {
    type V = EntryView;

    open spec fn view(&self) -> EntryView {
        (self.key@, self.value@)
    }
}

impl Entry {
    pub fn new(key: String, value: String) -> (r: Entry)
        ensures
            r@ == (key@, value@),
    {
        Entry { key, value }
    }

    pub fn duplicate(&self) -> (r: Entry)
        ensures
            r@ == self@,
    {
        Entry { key: self.key.clone(), value: self.value.clone() }
    }
}

/// What a sequence of entries holds, entry by entry.
pub open spec fn entry_views(v: Seq<Entry>) -> Seq<EntryView> {
    v.map_values(|e: Entry| e@)
}

/// An edit of the local configuration.
#[derive(Debug)]
pub enum GitOp {
    /// Removes every entry of a section.
    RemoveSection { section: String },
    /// Removes every entry of a key.
    UnsetAll { key: String },
    /// Removes every entry of a key that holds exactly the given value.
    UnsetValue { key: String, value: String },
    /// Appends an entry, keeping the earlier entries of its key.
    Add { key: String, value: String },
    /// Replaces every entry of a key by one entry with the given value.
    Assign { key: String, value: String },
}

/// An edit, over the characters of its arguments.
pub enum OpView {
    RemoveSection(Seq<char>),
    UnsetAll(Seq<char>),
    UnsetValue(Seq<char>, Seq<char>),
    Add(Seq<char>, Seq<char>),
    Assign(Seq<char>, Seq<char>),
}

impl View for GitOp {
    type V = OpView;

    open spec fn view(&self) -> OpView {
        match self {
            GitOp::RemoveSection { section } => OpView::RemoveSection(section@),
            GitOp::UnsetAll { key } => OpView::UnsetAll(key@),
            GitOp::UnsetValue { key, value } => OpView::UnsetValue(key@, value@),
            GitOp::Add { key, value } => OpView::Add(key@, value@),
            GitOp::Assign { key, value } => OpView::Assign(key@, value@),
        }
    }
}

/// What a sequence of edits holds, edit by edit.
pub open spec fn op_views(v: Seq<GitOp>) -> Seq<OpView> {
    v.map_values(|o: GitOp| o@)
}

/// `key` lies directly in section `section` (not in one of its subsections).
pub open spec fn in_section(key: Seq<char>, section: Seq<char>) -> bool {
    &&& key.len() > section.len()
    &&& key.subrange(0, section.len() as int) == section
    &&& key[section.len() as int] == '.'
    &&& forall|j: int| section.len() < j < key.len() ==> key[j] != '.'
}

/// The removing edit `op` takes entry `e` away.
pub open spec fn removes(op: OpView, e: EntryView) -> bool {
    match op {
        OpView::RemoveSection(s) => in_section(e.0, s),
        OpView::UnsetAll(k) => e.0 == k,
        OpView::UnsetValue(k, v) => e.0 == k && e.1 == v,
        _ => false,
    }
}

/// Holds of the entries that `op` leaves in place.
pub open spec fn keeps(op: OpView) -> spec_fn(EntryView) -> bool {
    |e: EntryView| !removes(op, e)
}

/// `c` without the entries that `op` removes.
pub open spec fn drop_matching(c: Seq<EntryView>, op: OpView) -> Seq<EntryView> {
    c.filter(keeps(op))
}

/// The configuration after the edit `op`.
pub open spec fn apply_op(c: Seq<EntryView>, op: OpView) -> Seq<EntryView> {
    match op {
        OpView::Add(k, v) => c.push((k, v)),
        OpView::Assign(k, v) => drop_matching(c, OpView::UnsetAll(k)).push((k, v)),
        _ => drop_matching(c, op),
    }
}

/// The configuration after the edits `ops`, in order.
pub open spec fn apply_ops(c: Seq<EntryView>, ops: Seq<OpView>) -> Seq<EntryView>
    decreases ops.len(),
{
    if ops.len() == 0 {
        c
    } else {
        apply_op(apply_ops(c, ops.drop_last()), ops.last())
    }
}

/// Whether `key` lies directly in section `section`.
pub fn key_in_section(key: &str, section: &str) -> (r: bool)
    ensures
        r == in_section(key@, section@),
{
    let k = crate::text::chars_of(key);
    let s = crate::text::chars_of(section);
    if k.len() <= s.len() {
        return false;
    }
    let mut i: usize = 0;
    while i < s.len()
        invariant
            k@ == key@,
            s@ == section@,
            k.len() > s.len(),
            i <= s.len(),
            forall|j: int| 0 <= j < i ==> k@[j] == s@[j],
        decreases s.len() - i,
    {
        if k[i] != s[i] {
            proof {
                assert(key@.subrange(0, section@.len() as int)[i as int] != section@[i as int]);
            }
            return false;
        }
        i += 1;
    }
    proof {
        assert(key@.subrange(0, section@.len() as int) =~= section@);
    }
    if k[s.len()] != '.' {
        return false;
    }
    let mut j: usize = s.len() + 1;
    while j < k.len()
        invariant
            k@ == key@,
            s@ == section@,
            s.len() < j <= k.len(),
            forall|m: int| s.len() < m < j ==> k@[m] != '.',
        decreases k.len() - j,
    {
        if k[j] == '.' {
            return false;
        }
        j += 1;
    }
    true
}

impl GitOp {
    /// Whether this edit takes `e` away.
    pub fn removes_entry(&self, e: &Entry) -> (r: bool)
        ensures
            r == removes(self@, e@),
    {
        match self {
            GitOp::RemoveSection { section } => key_in_section(e.key.as_str(), section.as_str()),
            GitOp::UnsetAll { key } => same(e.key.as_str(), key.as_str()),
            GitOp::UnsetValue { key, value } => same(e.key.as_str(), key.as_str()) && same(
                e.value.as_str(),
                value.as_str(),
            ),
            _ => false,
        }
    }
}

/// A repository's local configuration, held in memory.
pub struct LocalConfig {
    pub entries: Vec<Entry>,
}

impl View for LocalConfig {
    type V = Seq<EntryView>;

    open spec fn view(&self) -> Seq<EntryView> {
        entry_views(self.entries@)
    }
}

/// The entries of `v` that `op` keeps.
fn kept_entries(v: &Vec<Entry>, op: &GitOp) -> (r: Vec<Entry>)
    ensures
        entry_views(r@) == drop_matching(entry_views(v@), op@),
{
    let mut r: Vec<Entry> = Vec::new();
    let mut i: usize = 0;
    while i < v.len()
        invariant
            i <= v.len(),
            entry_views(r@) == drop_matching(entry_views(v@).take(i as int), op@),
        decreases v.len() - i,
    {
        let ghost before = r@;
        proof {
            assert(entry_views(v@).take(i + 1) =~= entry_views(v@).take(i as int).push(v@[i as int]@));
            entry_views(v@).take(i as int).lemma_filter_push(
                v@[i as int]@,
                keeps(op@),
            );
        }
        if !op.removes_entry(&v[i]) {
            r.push(v[i].duplicate());
            proof {
                assert(entry_views(r@) =~= entry_views(before).push(v@[i as int]@));
            }
        }
        i += 1;
    }
    proof {
        assert(entry_views(v@).take(v.len() as int) =~= entry_views(v@));
    }
    r
}

impl LocalConfig {
    pub fn new() -> (r: LocalConfig)
        ensures
            r@ == Seq::<EntryView>::empty(),
    {
        let r = LocalConfig { entries: Vec::new() };
        proof {
            assert(r@ =~= Seq::<EntryView>::empty());
        }
        r
    }

    /// Performs the edit `op`.
    pub fn apply(&mut self, op: &GitOp)
        ensures
            final(self)@ == apply_op(old(self)@, op@),
    {
        match op {
            GitOp::Add { key, value } => {
                let ghost before = self.entries@;
                self.entries.push(Entry::new(key.clone(), value.clone()));
                proof {
                    assert(entry_views(self.entries@) =~= entry_views(before).push((key@, value@)));
                }
            },
            GitOp::Assign { key, value } => {
                let unset = GitOp::UnsetAll { key: key.clone() };
                let mut kept = kept_entries(&self.entries, &unset);
                let ghost before = kept@;
                kept.push(Entry::new(key.clone(), value.clone()));
                proof {
                    assert(entry_views(kept@) =~= entry_views(before).push((key@, value@)));
                }
                self.entries = kept;
            },
            _ => {
                self.entries = kept_entries(&self.entries, op);
            },
        }
    }

    /// Performs the edits `ops` in order.
    pub fn apply_all(&mut self, ops: &Vec<GitOp>)
        ensures
            final(self)@ == apply_ops(old(self)@, op_views(ops@)),
    {
        let mut i: usize = 0;
        let ghost start = self@;
        proof {
            assert(op_views(ops@).take(0) =~= Seq::<OpView>::empty());
        }
        while i < ops.len()
            invariant
                i <= ops.len(),
                self@ == apply_ops(start, op_views(ops@).take(i as int)),
            decreases ops.len() - i,
        {
            self.apply(&ops[i]);
            proof {
                assert(op_views(ops@).take(i + 1).drop_last() =~= op_views(ops@).take(i as int));
            }
            i += 1;
        }
        proof {
            assert(op_views(ops@).take(ops.len() as int) =~= op_views(ops@));
        }
    }
}

} // verus!
