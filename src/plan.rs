//! The decisions of the profile applier: which edits a switch makes, in
//! which order, which failures of git it tolerates, and how the other
//! actions are put together.

use vstd::prelude::*;
use crate::gitconfig::{Entry, EntryView, GitOp, OpView, entry_views, op_views};
use crate::policy::{
    blacklist_keys, blacklist_sections, include_key, include_section, spec_blacklist_keys,
    spec_blacklist_sections, spec_include_key, spec_include_section,
};
use crate::strategy::SwitchStrategy;
use crate::paths::{extract_basename, file_name, spec_basename, spec_file_name};
use crate::policy::{blind_injections, pair_views, spec_blind_injections};
use crate::text::{
    contains, has_infix, is_prefix, is_suffix, ends_with, lines, same, spec_lines, spec_split_once,
    spec_trim, split_once, starts_with, trim, views,
};

verus! {

/// What an invocation asks for.
#[derive(Debug, Clone, Copy, PartialEq, Eq, Structural)]
pub enum Action {
    /// Create a repository (`clone`, `init`), then switch inside it.
    Setup,
    /// Run one git command with the profile injected for that command only.
    Exec,
    /// Apply the profile to the current repository for good.
    Switch,
}

pub open spec fn spec_classify(args: Seq<Seq<char>>) -> Action {
    if args.len() == 0 {
        Action::Switch
    } else if args[0] == "clone"@ || args[0] == "init"@ {
        Action::Setup
    } else {
        Action::Exec
    }
}

/// The action that the git arguments following the profile id ask for.
pub fn classify(args: &Vec<String>) -> (r: Action)
    ensures
        r == spec_classify(views(args@)),
{
    if args.len() == 0 {
        Action::Switch
    } else if same(args[0].as_str(), "clone") || same(args[0].as_str(), "init") {
        Action::Setup
    } else {
        Action::Exec
    }
}

/// Which outcomes of a git invocation let the run go on.
#[derive(Debug, Clone, Copy, PartialEq, Eq, Structural)]
pub enum Tolerance {
    /// Only success.
    Strict,
    /// Success, or git reporting that the target was not there.
    NotFound,
    /// Any outcome: the step is best effort.
    Any,
}

pub open spec fn spec_tolerance(op: OpView) -> Tolerance {
    match op {
        OpView::RemoveSection(s) => if s == spec_include_section() {
            Tolerance::Any
        } else {
            Tolerance::NotFound
        },
        OpView::UnsetAll(_) => Tolerance::Any,
        OpView::UnsetValue(_, _) => Tolerance::Any,
        _ => Tolerance::Strict,
    }
}

/// Which outcomes of performing `op` let the run go on: removing a purged
/// section may find nothing; removing links and keys is best effort;
/// writing the profile must succeed.
pub fn tolerance(op: &GitOp) -> (r: Tolerance)
    ensures
        r == spec_tolerance(op@),
{
    match op {
        GitOp::RemoveSection { section } => {
            let inc = include_section();
            if same(section.as_str(), inc.as_str()) {
                Tolerance::Any
            } else {
                Tolerance::NotFound
            }
        },
        GitOp::UnsetAll { .. } => Tolerance::Any,
        GitOp::UnsetValue { .. } => Tolerance::Any,
        _ => Tolerance::Strict,
    }
}

/// git's exit code `code` and error output `stderr` end the run.
pub open spec fn spec_failed(t: Tolerance, code: Option<i32>, stderr: Seq<char>) -> bool {
    match t {
        Tolerance::Strict => code != Some(0i32),
        Tolerance::NotFound => code != Some(0i32) && code != Some(1i32) && !has_infix(
            stderr,
            "no such section"@,
        ),
        Tolerance::Any => false,
    }
}

/// Whether an outcome of git ends the run, under tolerance `t`.
pub fn failed(t: Tolerance, code: Option<i32>, stderr: &str) -> (r: bool)
    ensures
        r == spec_failed(t, code, stderr@),
{
    match t {
        Tolerance::Strict => code != Some(0i32),
        Tolerance::NotFound => {
            let ok = match code {
                Some(c) => c == 0 || c == 1,
                None => false,
            };
            !ok && !contains(stderr, "no such section")
        },
        Tolerance::Any => false,
    }
}

pub open spec fn section_removals(sections: Seq<Seq<char>>) -> Seq<OpView> {
    sections.map_values(|n: Seq<char>| OpView::RemoveSection(n))
}

pub open spec fn key_unsets(keys: Seq<Seq<char>>) -> Seq<OpView> {
    keys.map_values(|k: Seq<char>| OpView::UnsetAll(k))
}

/// Each entry of `profile` written as an edit that replaces its key.
pub open spec fn assignments(profile: Seq<EntryView>) -> Seq<OpView> {
    profile.map_values(|e: EntryView| OpView::Assign(e.0, e.1))
}

/// The purge of a hard switch: the blacklisted sections, the links to
/// other files, then the blacklisted keys. A soft switch purges nothing.
pub open spec fn spec_sanitize_ops(s: SwitchStrategy) -> Seq<OpView> {
    if s.is_hard() {
        section_removals(spec_blacklist_sections()).push(
            OpView::RemoveSection(spec_include_section()),
        ) + key_unsets(spec_blacklist_keys())
    } else {
        Seq::empty()
    }
}

/// The edits that purge identity and signing settings before a switch.
pub fn sanitize_ops(s: SwitchStrategy) -> (r: Vec<GitOp>)
    ensures
        op_views(r@) == spec_sanitize_ops(s),
{
    let mut r: Vec<GitOp> = Vec::new();
    if !s.should_sanitize() {
        proof {
            assert(op_views(r@) =~= Seq::<OpView>::empty());
        }
        return r;
    }
    let sections = blacklist_sections();
    let mut i: usize = 0;
    while i < sections.len()
        invariant
            i <= sections.len(),
            views(sections@) == spec_blacklist_sections(),
            op_views(r@) == section_removals(spec_blacklist_sections().take(i as int)),
        decreases sections.len() - i,
    {
        let ghost before = r@;
        r.push(GitOp::RemoveSection { section: sections[i].clone() });
        proof {
            assert(op_views(r@) =~= op_views(before).push(OpView::RemoveSection(sections@[i as int]@)));
            assert(views(sections@)[i as int] == sections@[i as int]@);
            assert(op_views(r@) =~= section_removals(spec_blacklist_sections().take(i + 1)));
        }
        i += 1;
    }
    let ghost head = r@;
    r.push(GitOp::RemoveSection { section: include_section() });
    let keys = blacklist_keys();
    let mut j: usize = 0;
    while j < keys.len()
        invariant
            j <= keys.len(),
            views(keys@) == spec_blacklist_keys(),
            op_views(r@) == op_views(head).push(OpView::RemoveSection(spec_include_section()))
                + key_unsets(spec_blacklist_keys().take(j as int)),
        decreases keys.len() - j,
    {
        let ghost before = r@;
        r.push(GitOp::UnsetAll { key: keys[j].clone() });
        proof {
            assert(op_views(r@) =~= op_views(before).push(OpView::UnsetAll(keys@[j as int]@)));
            assert(views(keys@)[j as int] == keys@[j as int]@);
            assert(op_views(r@) =~= op_views(head).push(OpView::RemoveSection(spec_include_section()))
                + key_unsets(spec_blacklist_keys().take(j + 1)));
        }
        j += 1;
    }
    proof {
        assert(spec_blacklist_sections().take(4) =~= spec_blacklist_sections());
        assert(spec_blacklist_keys().take(4) =~= spec_blacklist_keys());
        assert(op_views(r@) =~= spec_sanitize_ops(s));
    }
    r
}

/// A link to `value` points into the profile directory `dir`, or at a
/// profile file by its name.
pub open spec fn spec_is_stale(value: Seq<char>, dir: Seq<char>) -> bool {
    has_infix(value, dir) || (has_infix(value, "/profiles/"@) && is_suffix(".gitconfig"@, value))
        || is_suffix(".gitconfig"@, spec_file_name(value))
}

pub fn is_stale_include(value: &str, dir: &str) -> (r: bool)
    ensures
        r == spec_is_stale(value@, dir@),
{
    contains(value, dir) || (contains(value, "/profiles/") && ends_with(value, ".gitconfig"))
        || ends_with(file_name(value).as_str(), ".gitconfig")
}

/// The edits that remove the stale links among `values`, in their order.
pub open spec fn spec_stale_ops(values: Seq<Seq<char>>, dir: Seq<char>) -> Seq<OpView>
    decreases values.len(),
{
    if values.len() == 0 {
        Seq::empty()
    } else {
        let r = spec_stale_ops(values.drop_last(), dir);
        if spec_is_stale(values.last(), dir) {
            r.push(OpView::UnsetValue(spec_include_key(), values.last()))
        } else {
            r
        }
    }
}

/// The edits that remove the links among `values` that a profile left.
pub fn stale_include_ops(values: &Vec<String>, dir: &str) -> (r: Vec<GitOp>)
    ensures
        op_views(r@) == spec_stale_ops(views(values@), dir@),
{
    let mut r: Vec<GitOp> = Vec::new();
    let mut i: usize = 0;
    while i < values.len()
        invariant
            i <= values.len(),
            op_views(r@) == spec_stale_ops(views(values@).take(i as int), dir@),
        decreases values.len() - i,
    {
        proof {
            assert(views(values@).take(i + 1).drop_last() =~= views(values@).take(i as int));
        }
        if is_stale_include(values[i].as_str(), dir) {
            let ghost before = r@;
            r.push(GitOp::UnsetValue { key: include_key(), value: values[i].clone() });
            proof {
                assert(op_views(r@) =~= op_views(before).push(
                    OpView::UnsetValue(spec_include_key(), values@[i as int]@),
                ));
            }
        }
        i += 1;
    }
    proof {
        assert(views(values@).take(values.len() as int) =~= views(values@));
    }
    r
}

/// The edits that apply a profile: a link to its file `file`, or each of
/// its entries `profile` written in order.
pub open spec fn spec_apply_ops(s: SwitchStrategy, file: Seq<char>, profile: Seq<EntryView>) -> Seq<
    OpView,
> {
    if s.is_include() {
        seq![OpView::Add(spec_include_key(), file)]
    } else {
        assignments(profile)
    }
}

pub fn apply_profile_ops(s: SwitchStrategy, file: &str, profile: &Vec<Entry>) -> (r: Vec<GitOp>)
    ensures
        op_views(r@) == spec_apply_ops(s, file@, entry_views(profile@)),
{
    let mut r: Vec<GitOp> = Vec::new();
    if s.includes_profile() {
        r.push(GitOp::Add { key: include_key(), value: String::from_str(file) });
        proof {
            assert(op_views(r@) =~= spec_apply_ops(s, file@, entry_views(profile@)));
        }
        return r;
    }
    let mut i: usize = 0;
    while i < profile.len()
        invariant
            !s.is_include(),
            i <= profile.len(),
            op_views(r@) == assignments(entry_views(profile@).take(i as int)),
        decreases profile.len() - i,
    {
        let ghost before = r@;
        r.push(GitOp::Assign { key: profile[i].key.clone(), value: profile[i].value.clone() });
        proof {
            assert(op_views(r@) =~= op_views(before).push(
                OpView::Assign(profile@[i as int].key@, profile@[i as int].value@),
            ));
            assert(entry_views(profile@)[i as int] == profile@[i as int]@);
            assert(op_views(r@) =~= assignments(entry_views(profile@).take(i + 1)));
        }
        i += 1;
    }
    proof {
        assert(entry_views(profile@).take(profile.len() as int) =~= entry_views(profile@));
    }
    r
}

/// Whether a local configuration, given as the text `content` of its file,
/// still holds settings that would show through a linked profile: under an
/// include strategy, identity sections, signing or SSH settings. An
/// override strategy writes the profile itself, and is never warned about.
pub open spec fn spec_is_dirty(content: Seq<char>, s: SwitchStrategy) -> bool {
    s.is_include() && (has_infix(content, "[user]"@) || has_infix(content, "[author]"@)
        || has_infix(content, "[gpg]"@) || has_infix(content, "sshCommand"@) || has_infix(
        content,
        "gpgsign"@,
    ))
}

pub fn is_dirty_config(content: &str, s: SwitchStrategy) -> (r: bool)
    ensures
        r == spec_is_dirty(content@, s),
{
    s.includes_profile() && (contains(content, "[user]") || contains(content, "[author]")
        || contains(content, "[gpg]") || contains(content, "sshCommand") || contains(
        content,
        "gpgsign",
    ))
}

/// The git arguments that perform the edit `op` on the local configuration.
pub open spec fn spec_op_args(op: OpView) -> Seq<Seq<char>> {
    match op {
        OpView::RemoveSection(sec) => seq!["config"@, "--local"@, "--remove-section"@, sec],
        OpView::UnsetAll(k) => seq!["config"@, "--local"@, "--unset-all"@, k],
        OpView::UnsetValue(k, v) => seq![
            "config"@,
            "--local"@,
            "--fixed-value"@,
            "--unset-all"@,
            k,
            v,
        ],
        OpView::Add(k, v) => seq!["config"@, "--local"@, "--add"@, k, v],
        OpView::Assign(k, v) => seq!["config"@, "--local"@, k, v],
    }
}

fn owned(s: &str) -> (r: String)
    ensures
        r@ == s@,
{
    String::from_str(s)
}

/// The git arguments that perform `op`.
pub fn op_args(op: &GitOp) -> (r: Vec<String>)
    ensures
        views(r@) == spec_op_args(op@),
{
    let r = match op {
        GitOp::RemoveSection { section } => vec![
            owned("config"),
            owned("--local"),
            owned("--remove-section"),
            section.clone(),
        ],
        GitOp::UnsetAll { key } => vec![
            owned("config"),
            owned("--local"),
            owned("--unset-all"),
            key.clone(),
        ],
        GitOp::UnsetValue { key, value } => vec![
            owned("config"),
            owned("--local"),
            owned("--fixed-value"),
            owned("--unset-all"),
            key.clone(),
            value.clone(),
        ],
        GitOp::Add { key, value } => vec![
            owned("config"),
            owned("--local"),
            owned("--add"),
            key.clone(),
            value.clone(),
        ],
        GitOp::Assign { key, value } => vec![
            owned("config"),
            owned("--local"),
            key.clone(),
            value.clone(),
        ],
    };
    proof {
        assert(views(r@) =~= spec_op_args(op@));
    }
    r
}

/// The entries of the lines `ls` that hold a `=`: the key before the first
/// `=`, the value after it.
pub open spec fn spec_parse_entries(ls: Seq<Seq<char>>) -> Seq<EntryView>
    decreases ls.len(),
{
    if ls.len() == 0 {
        Seq::empty()
    } else {
        let r = spec_parse_entries(ls.drop_last());
        match spec_split_once(ls.last(), '=') {
            Some(kv) => r.push(kv),
            None => r,
        }
    }
}

/// The entries of a configuration listing, one `key=value` per line.
pub fn parse_entries(listing: &str) -> (r: Vec<Entry>)
    ensures
        entry_views(r@) == spec_parse_entries(spec_lines(listing@)),
{
    let ls = lines(listing);
    let mut r: Vec<Entry> = Vec::new();
    let mut i: usize = 0;
    while i < ls.len()
        invariant
            i <= ls.len(),
            views(ls@) == spec_lines(listing@),
            entry_views(r@) == spec_parse_entries(views(ls@).take(i as int)),
        decreases ls.len() - i,
    {
        proof {
            assert(views(ls@).take(i + 1).drop_last() =~= views(ls@).take(i as int));
            assert(views(ls@)[i as int] == ls@[i as int]@);
        }
        match split_once(ls[i].as_str(), '=') {
            Some((k, v)) => {
                let ghost before = r@;
                r.push(Entry::new(k, v));
                proof {
                    assert(entry_views(r@) =~= entry_views(before).push((k@, v@)));
                }
            },
            None => {},
        }
        i += 1;
    }
    proof {
        assert(views(ls@).take(ls.len() as int) =~= views(ls@));
    }
    r
}

/// The lines of `out`, each without surrounding white space.
pub open spec fn spec_parse_values(out: Seq<char>) -> Seq<Seq<char>> {
    spec_lines(out).map_values(|l: Seq<char>| spec_trim(l))
}

/// The values that git prints one per line.
pub fn parse_values(out: &str) -> (r: Vec<String>)
    ensures
        views(r@) == spec_parse_values(out@),
{
    let ls = lines(out);
    let mut r: Vec<String> = Vec::new();
    let mut i: usize = 0;
    while i < ls.len()
        invariant
            i <= ls.len(),
            views(ls@) == spec_lines(out@),
            r.len() == i,
            forall|j: int| 0 <= j < i ==> (#[trigger] r@[j])@ == spec_trim(ls@[j]@),
        decreases ls.len() - i,
    {
        r.push(trim(ls[i].as_str()));
        i += 1;
    }
    proof {
        assert forall|j: int| 0 <= j < ls.len() implies views(ls@)[j] == ls@[j]@ by {}
        assert(views(r@) =~= spec_parse_values(out@));
    }
    r
}

/// `-c key=value` for each pair, in order.
pub open spec fn flag_pairs(pairs: Seq<(Seq<char>, Seq<char>)>) -> Seq<Seq<char>>
    decreases pairs.len(),
{
    if pairs.len() == 0 {
        Seq::empty()
    } else {
        flag_pairs(pairs.drop_last()) + seq!["-c"@, pairs.last().0 + "="@ + pairs.last().1]
    }
}

/// The arguments of a one-shot command: the neutral identity, the link to
/// the profile file `file`, the profile's own entries, then the user's
/// arguments `args`, untouched.
pub open spec fn spec_exec_args(
    file: Seq<char>,
    profile: Seq<EntryView>,
    args: Seq<Seq<char>>,
) -> Seq<Seq<char>> {
    flag_pairs(spec_blind_injections()) + flag_pairs(seq![(spec_include_key(), file)]) + flag_pairs(
        profile,
    ) + args
}

fn push_flags(out: &mut Vec<String>, pairs: &Vec<(String, String)>)
    ensures
        views(final(out)@) == views(old(out)@) + flag_pairs(pair_views(pairs@)),
{
    let mut i: usize = 0;
    let ghost start = views(out@);
    proof {
        assert(pair_views(pairs@).take(0) =~= Seq::<(Seq<char>, Seq<char>)>::empty());
        assert(views(out@) =~= start + flag_pairs(pair_views(pairs@).take(0)));
    }
    while i < pairs.len()
        invariant
            i <= pairs.len(),
            views(out@) == start + flag_pairs(pair_views(pairs@).take(i as int)),
        decreases pairs.len() - i,
    {
        let flag = String::from_str("-c");
        let setting = pairs[i].0.clone().concat("=").concat(pairs[i].1.as_str());
        let ghost before = views(out@);
        out.push(flag);
        out.push(setting);
        proof {
            reveal_strlit("=");
            let t = pair_views(pairs@).take(i + 1);
            assert(t.drop_last() =~= pair_views(pairs@).take(i as int));
            assert(t.last() == (pairs@[i as int].0@, pairs@[i as int].1@));
            assert(views(out@) =~= before + seq!["-c"@, setting@]);
            assert(setting@ =~= t.last().0 + "="@ + t.last().1);
            assert(views(out@) =~= start + flag_pairs(t));
        }
        i += 1;
    }
    proof {
        assert(pair_views(pairs@).take(pairs.len() as int) =~= pair_views(pairs@));
    }
}

/// The profile's entries as pairs of strings.
fn entry_pairs(profile: &Vec<Entry>) -> (r: Vec<(String, String)>)
    ensures
        pair_views(r@) == entry_views(profile@),
{
    let mut r: Vec<(String, String)> = Vec::new();
    let mut i: usize = 0;
    while i < profile.len()
        invariant
            i <= profile.len(),
            pair_views(r@) == entry_views(profile@).take(i as int),
        decreases profile.len() - i,
    {
        let ghost before = r@;
        r.push((profile[i].key.clone(), profile[i].value.clone()));
        proof {
            assert(pair_views(r@) =~= pair_views(before).push(
                (profile@[i as int].key@, profile@[i as int].value@),
            ));
            assert(entry_views(profile@)[i as int] == profile@[i as int]@);
            assert(pair_views(r@) =~= entry_views(profile@).take(i + 1));
        }
        i += 1;
    }
    proof {
        assert(entry_views(profile@).take(profile.len() as int) =~= entry_views(profile@));
    }
    r
}

/// The git arguments of a one-shot command under profile file `file` with
/// entries `profile`.
pub fn exec_args(file: &str, profile: &Vec<Entry>, args: &Vec<String>) -> (r: Vec<String>)
    ensures
        views(r@) == spec_exec_args(file@, entry_views(profile@), views(args@)),
{
    let mut r: Vec<String> = Vec::new();
    proof {
        assert(views(r@) =~= Seq::<Seq<char>>::empty());
    }
    push_flags(&mut r, &blind_injections());
    let link = vec![(include_key(), String::from_str(file))];
    proof {
        assert(pair_views(link@) =~= seq![(spec_include_key(), file@)]);
    }
    push_flags(&mut r, &link);
    push_flags(&mut r, &entry_pairs(profile));
    let mut i: usize = 0;
    let ghost head = views(r@);
    proof {
        assert(views(args@).take(0) =~= Seq::<Seq<char>>::empty());
        assert(views(r@) =~= head + views(args@).take(0));
    }
    while i < args.len()
        invariant
            i <= args.len(),
            views(r@) == head + views(args@).take(i as int),
        decreases args.len() - i,
    {
        let ghost before = r@;
        r.push(args[i].clone());
        proof {
            assert(views(r@) =~= views(before).push(args@[i as int]@));
            assert(views(args@)[i as int] == args@[i as int]@);
            assert(views(r@) =~= head + views(args@).take(i + 1));
        }
        i += 1;
    }
    proof {
        assert(views(args@).take(args.len() as int) =~= views(args@));
    }
    r
}

/// The arguments of `args` that are no options, in order.
pub open spec fn non_flags(args: Seq<Seq<char>>) -> Seq<Seq<char>>
    decreases args.len(),
{
    if args.len() == 0 {
        Seq::empty()
    } else {
        let r = non_flags(args.drop_last());
        if is_prefix("-"@, args.last()) {
            r
        } else {
            r.push(args.last())
        }
    }
}

/// The directory that a repository-creating command `args` leaves the
/// repository in: the current one for `init`; for `clone`, the directory
/// named after the source, else one named after the source, else `repo`.
pub open spec fn spec_setup_dir(args: Seq<Seq<char>>) -> Seq<char> {
    if args.len() > 0 && args[0] == "clone"@ {
        let p = non_flags(args.drop_first());
        if p.len() >= 2 {
            p[1]
        } else if p.len() == 1 {
            spec_basename(p[0])
        } else {
            "repo"@
        }
    } else {
        "."@
    }
}

/// The directory in which a repository-creating command leaves the
/// repository.
pub fn setup_dir(args: &Vec<String>) -> (r: String)
    ensures
        r@ == spec_setup_dir(views(args@)),
{
    if args.len() == 0 || !same(args[0].as_str(), "clone") {
        return String::from_str(".");
    }
    let mut p: Vec<String> = Vec::new();
    let mut i: usize = 1;
    let ghost rest = views(args@).drop_first();
    proof {
        assert(rest.take(0) =~= Seq::<Seq<char>>::empty());
        assert(views(p@) =~= Seq::<Seq<char>>::empty());
    }
    while i < args.len()
        invariant
            1 <= i <= args.len(),
            rest == views(args@).drop_first(),
            views(p@) == non_flags(rest.take(i - 1)),
        decreases args.len() - i,
    {
        proof {
            assert(rest.take(i as int).drop_last() =~= rest.take(i - 1));
            assert(rest.take(i as int).last() == args@[i as int]@);
        }
        if !starts_with(args[i].as_str(), "-") {
            let ghost before = views(p@);
            p.push(args[i].clone());
            proof {
                assert(views(p@) =~= before.push(args@[i as int]@));
            }
        }
        i += 1;
    }
    proof {
        assert(rest.take(args.len() - 1) =~= rest);
    }
    if p.len() >= 2 {
        p[1].clone()
    } else if p.len() == 1 {
        extract_basename(p[0].as_str())
    } else {
        String::from_str("repo")
    }
}

} // verus!
