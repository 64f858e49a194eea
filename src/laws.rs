//! What a switch guarantees, proved over the in-memory model of the local
//! configuration that [`crate::applier`] defines.

use vstd::prelude::*;
use crate::applier::{include_values, spec_cleaned, spec_sanitized, spec_switch};
use crate::gitconfig::{EntryView, OpView, apply_op, apply_ops, drop_matching, in_section, keeps, removes};
use crate::plan::{flag_pairs, spec_exec_args, assignments, spec_apply_ops, spec_is_stale, spec_sanitize_ops, spec_stale_ops};
use crate::paths::{spec_absolute, spec_after_last_slash, spec_drop_dots, spec_file_name, spec_join, spec_profile_file};
use crate::policy::{spec_blacklist_keys, spec_blacklist_sections, spec_include_key};
use crate::text::is_suffix;
use crate::session::Session;
use crate::strategy::SwitchStrategy;

verus! {

/// Filtering by `p` and then by `q` is filtering by `r`, where `r` holds
/// exactly where both do.
pub proof fn lemma_filter_both<A>(
    s: Seq<A>,
    p: spec_fn(A) -> bool,
    q: spec_fn(A) -> bool,
    r: spec_fn(A) -> bool,
)
    requires
        forall|e: A| #[trigger] r(e) == (p(e) && q(e)),
    ensures
        s.filter(p).filter(q) == s.filter(r),
    decreases s.len(),
{
    reveal(Seq::filter);
    if s.len() > 0 {
        lemma_filter_both(s.drop_last(), p, q, r);
        s.drop_last().filter(p).lemma_filter_push(s.last(), q);
    }
}

/// Filtering keeps a sequence whose elements all pass.
pub proof fn lemma_filter_keeps_all<A>(s: Seq<A>, p: spec_fn(A) -> bool)
    requires
        forall|i: int| 0 <= i < s.len() ==> p(#[trigger] s[i]),
    ensures
        s.filter(p) == s,
    decreases s.len(),
{
    reveal(Seq::filter);
    if s.len() > 0 {
        lemma_filter_keeps_all(s.drop_last(), p);
        assert(s.drop_last().push(s.last()) =~= s);
    }
}

/// Filtering empties a sequence whose elements all fail.
pub proof fn lemma_filter_drops_all<A>(s: Seq<A>, p: spec_fn(A) -> bool)
    requires
        forall|i: int| 0 <= i < s.len() ==> !p(#[trigger] s[i]),
    ensures
        s.filter(p) == Seq::<A>::empty(),
    decreases s.len(),
{
    reveal(Seq::filter);
    if s.len() > 0 {
        lemma_filter_drops_all(s.drop_last(), p);
    } else {
        assert(s =~= Seq::<A>::empty());
    }
}

/// Two conditions that agree on the elements of `s` filter it alike.
pub proof fn lemma_filter_agree<A>(s: Seq<A>, p: spec_fn(A) -> bool, q: spec_fn(A) -> bool)
    requires
        forall|i: int| 0 <= i < s.len() ==> p(#[trigger] s[i]) == q(s[i]),
    ensures
        s.filter(p) == s.filter(q),
    decreases s.len(),
{
    reveal(Seq::filter);
    if s.len() > 0 {
        lemma_filter_agree(s.drop_last(), p, q);
    }
}

/// What filtering keeps passes, and was there before.
pub proof fn lemma_filter_members<A>(s: Seq<A>, p: spec_fn(A) -> bool)
    ensures
        forall|i: int|
            0 <= i < s.filter(p).len() ==> p(#[trigger] s.filter(p)[i]) && s.contains(
                s.filter(p)[i],
            ),
    decreases s.len(),
{
    reveal(Seq::filter);
    if s.len() > 0 {
        lemma_filter_members(s.drop_last(), p);
        let f = s.filter(p);
        let g = s.drop_last().filter(p);
        assert forall|i: int| 0 <= i < f.len() implies p(#[trigger] f[i]) && s.contains(f[i]) by {
            if i < g.len() {
                assert(f[i] == g[i]);
                let j = choose|j: int| 0 <= j < s.drop_last().len() && s.drop_last()[j] == g[i];
                assert(s[j] == g[i]);
            } else {
                assert(f[i] == s.last());
                assert(s[s.len() - 1] == s.last());
            }
        }
    }
}

/// No edit of `ops` adds an entry.
pub open spec fn removal_only(ops: Seq<OpView>) -> bool {
    forall|i: int| 0 <= i < ops.len() ==> !(#[trigger] ops[i] is Add) && !(ops[i] is Assign)
}

/// No edit of `ops` takes `e` away.
pub open spec fn survives(ops: Seq<OpView>, e: EntryView) -> bool {
    forall|i: int| 0 <= i < ops.len() ==> !removes(#[trigger] ops[i], e)
}

pub open spec fn survive_pred(ops: Seq<OpView>) -> spec_fn(EntryView) -> bool {
    |e: EntryView| survives(ops, e)
}

/// Edits that only remove keep the entries that none of them removes, in
/// their order.
pub proof fn lemma_removals(c: Seq<EntryView>, ops: Seq<OpView>)
    requires
        removal_only(ops),
    ensures
        apply_ops(c, ops) == c.filter(survive_pred(ops)),
    decreases ops.len(),
{
    if ops.len() == 0 {
        lemma_filter_keeps_all(c, survive_pred(ops));
    } else {
        let init = ops.drop_last();
        assert(removal_only(init)) by {
            assert forall|i: int| 0 <= i < init.len() implies !(#[trigger] init[i] is Add) && !(
            init[i] is Assign) by {
                assert(init[i] == ops[i]);
            }
        }
        lemma_removals(c, init);
        assert(!(ops[ops.len() - 1] is Add) && !(ops[ops.len() - 1] is Assign));
        assert(apply_ops(c, ops) == drop_matching(apply_ops(c, init), ops.last()));
        assert forall|e: EntryView| #[trigger] survive_pred(ops)(e) == (survive_pred(init)(e) && keeps(
            ops.last(),
        )(e)) by {
            if survives(ops, e) {
                assert forall|i: int| 0 <= i < init.len() implies !removes(#[trigger] init[i], e) by {
                    assert(init[i] == ops[i]);
                }
                assert(!removes(ops[ops.len() - 1], e));
            }
            if survives(init, e) && !removes(ops.last(), e) {
                assert forall|i: int| 0 <= i < ops.len() implies !removes(#[trigger] ops[i], e) by {
                    if i < init.len() {
                        assert(init[i] == ops[i]);
                    }
                }
            }
        }
        lemma_filter_both(c, survive_pred(init), keeps(ops.last()), survive_pred(ops));
    }
}

/// Holds of every entry but a link that a profile left.
pub open spec fn not_stale_link(dir: Seq<char>) -> spec_fn(EntryView) -> bool {
    |e: EntryView| !(e.0 == spec_include_key() && spec_is_stale(e.1, dir))
}

proof fn lemma_stale_ops(values: Seq<Seq<char>>, dir: Seq<char>)
    ensures
        forall|j: int|
            0 <= j < spec_stale_ops(values, dir).len() ==> {
                let op = #[trigger] spec_stale_ops(values, dir)[j];
                &&& op is UnsetValue
                &&& op->UnsetValue_0 == spec_include_key()
                &&& spec_is_stale(op->UnsetValue_1, dir)
            },
        forall|k: int|
            0 <= k < values.len() && spec_is_stale(#[trigger] values[k], dir) ==> spec_stale_ops(
                values,
                dir,
            ).contains(OpView::UnsetValue(spec_include_key(), values[k])),
    decreases values.len(),
{
    if values.len() > 0 {
        let init = values.drop_last();
        lemma_stale_ops(init, dir);
        let r = spec_stale_ops(init, dir);
        assert forall|k: int|
            0 <= k < values.len() && spec_is_stale(#[trigger] values[k], dir) implies spec_stale_ops(
            values,
            dir,
        ).contains(OpView::UnsetValue(spec_include_key(), values[k])) by {
            if k < init.len() {
                assert(init[k] == values[k]);
                let j = choose|j: int|
                    0 <= j < r.len() && r[j] == OpView::UnsetValue(spec_include_key(), init[k]);
                assert(spec_stale_ops(values, dir)[j] == r[j]);
            } else {
                assert(spec_stale_ops(values, dir).last() == OpView::UnsetValue(
                    spec_include_key(),
                    values[k],
                ));
            }
        }
    }
}

proof fn lemma_include_values(c: Seq<EntryView>)
    ensures
        forall|i: int|
            0 <= i < c.len() && (#[trigger] c[i]).0 == spec_include_key() ==> include_values(
                c,
            ).contains(c[i].1),
    decreases c.len(),
{
    if c.len() > 0 {
        lemma_include_values(c.drop_last());
        let r = include_values(c.drop_last());
        assert forall|i: int|
            0 <= i < c.len() && (#[trigger] c[i]).0 == spec_include_key() implies include_values(
            c,
        ).contains(c[i].1) by {
            if i < c.len() - 1 {
                assert(c.drop_last()[i] == c[i]);
                let j = choose|j: int| 0 <= j < r.len() && r[j] == c[i].1;
                assert(include_values(c)[j] == r[j]);
            } else {
                assert(include_values(c).last() == c[i].1);
            }
        }
    }
}

/// Removing stale links removes exactly the links that a profile left.
pub proof fn lemma_cleaned(c: Seq<EntryView>, dir: Seq<char>)
    ensures
        spec_cleaned(c, dir) == c.filter(not_stale_link(dir)),
{
    let values = include_values(c);
    let ops = spec_stale_ops(values, dir);
    lemma_stale_ops(values, dir);
    lemma_include_values(c);
    assert(removal_only(ops));
    lemma_removals(c, ops);
    assert forall|i: int| 0 <= i < c.len() implies survive_pred(ops)(#[trigger] c[i]) == not_stale_link(
        dir,
    )(c[i]) by {
        let e = c[i];
        if e.0 == spec_include_key() && spec_is_stale(e.1, dir) {
            assert(values.contains(e.1));
            let k = choose|k: int| 0 <= k < values.len() && values[k] == e.1;
            assert(ops.contains(OpView::UnsetValue(spec_include_key(), values[k])));
            let j = choose|j: int|
                0 <= j < ops.len() && ops[j] == OpView::UnsetValue(spec_include_key(), values[k]);
            assert(removes(ops[j], e));
        } else {
            assert forall|j: int| 0 <= j < ops.len() implies !removes(#[trigger] ops[j], e) by {}
        }
    }
    lemma_filter_agree(c, survive_pred(ops), not_stale_link(dir));
}

/// The purge that strategy `s` calls for only removes.
pub proof fn lemma_sanitize_removes(s: SwitchStrategy)
    ensures
        removal_only(spec_sanitize_ops(s)),
{
    let ops = spec_sanitize_ops(s);
    assert forall|i: int| 0 <= i < ops.len() implies !(#[trigger] ops[i] is Add) && !(
    ops[i] is Assign) by {
        if i < 5 {
            assert(ops[i] is RemoveSection);
        } else {
            assert(ops[i] is UnsetAll);
        }
    }
}

/// Before the profile is applied, a switch has kept the entries that pass
/// both the purge and the removal of stale links, in their order.
pub proof fn lemma_prepared(c: Seq<EntryView>, s: SwitchStrategy, dir: Seq<char>)
    ensures
        spec_cleaned(spec_sanitized(c, s), dir) == c.filter(survive_pred(spec_sanitize_ops(s))).filter(
            not_stale_link(dir),
        ),
{
    lemma_sanitize_removes(s);
    lemma_removals(c, spec_sanitize_ops(s));
    lemma_cleaned(spec_sanitized(c, s), dir);
}

/// Some entry of `profile` has key `k`.
pub open spec fn has_key(profile: Seq<EntryView>, k: Seq<char>) -> bool {
    exists|i: int| 0 <= i < profile.len() && profile[i].0 == k
}

/// Holds of the entries whose key `profile` does not set.
pub open spec fn not_profile_key(profile: Seq<EntryView>) -> spec_fn(EntryView) -> bool {
    |e: EntryView| !has_key(profile, e.0)
}

/// The entries that writing `profile` leaves behind: one per key, the
/// last value written.
pub open spec fn written(profile: Seq<EntryView>) -> Seq<EntryView> {
    apply_ops(Seq::empty(), assignments(profile))
}

/// Writing a profile replaces the entries of its keys and leaves every
/// other entry in place.
pub proof fn lemma_assignments(d: Seq<EntryView>, profile: Seq<EntryView>)
    ensures
        apply_ops(d, assignments(profile)) == d.filter(not_profile_key(profile)) + written(profile),
        forall|i: int|
            0 <= i < written(profile).len() ==> has_key(profile, (#[trigger] written(profile)[i]).0),
    decreases profile.len(),
{
    let w = written(profile);
    if profile.len() == 0 {
        assert(assignments(profile) =~= Seq::<OpView>::empty());
        assert forall|i: int| 0 <= i < d.len() implies not_profile_key(profile)(#[trigger] d[i]) by {}
        lemma_filter_keeps_all(d, not_profile_key(profile));
        assert(d + w =~= d);
    } else {
        let init = profile.drop_last();
        let last = profile.last();
        let unset = OpView::UnsetAll(last.0);
        lemma_assignments(d, init);
        let w0 = written(init);
        assert(assignments(profile).drop_last() =~= assignments(init));
        assert(assignments(profile).last() == OpView::Assign(last.0, last.1));
        assert(w == drop_matching(w0, unset).push((last.0, last.1)));
        let x = d.filter(not_profile_key(init));
        assert(apply_ops(d, assignments(profile)) == drop_matching(x + w0, unset).push(
            (last.0, last.1),
        ));
        Seq::filter_distributes_over_add(x, w0, keeps(unset));
        assert forall|e: EntryView| #[trigger] not_profile_key(profile)(e) == (not_profile_key(init)(
            e,
        ) && keeps(unset)(e)) by {
            if has_key(profile, e.0) {
                let i = choose|i: int| 0 <= i < profile.len() && profile[i].0 == e.0;
                if i < init.len() {
                    assert(init[i] == profile[i]);
                }
            }
            if has_key(init, e.0) {
                let i = choose|i: int| 0 <= i < init.len() && init[i].0 == e.0;
                assert(profile[i] == init[i]);
            }
            if e.0 == last.0 {
                assert(profile[profile.len() - 1] == last);
            }
        }
        lemma_filter_both(d, not_profile_key(init), keeps(unset), not_profile_key(profile));
        assert(apply_ops(d, assignments(profile)) =~= d.filter(not_profile_key(profile)) + w);
        lemma_filter_members(w0, keeps(unset));
        assert forall|i: int| 0 <= i < w.len() implies has_key(profile, (#[trigger] w[i]).0) by {
            let f = drop_matching(w0, unset);
            if i < f.len() {
                assert(w[i] == f[i]);
                let j = choose|j: int| 0 <= j < w0.len() && w0[j] == f[i];
                assert(has_key(init, w0[j].0));
                let k = choose|k: int| 0 <= k < init.len() && init[k].0 == w0[j].0;
                assert(profile[k] == init[k]);
            } else {
                assert(w[i] == (last.0, last.1));
                assert(profile[profile.len() - 1] == last);
            }
        }
    }
}

proof fn lemma_suffix_trans(a: Seq<char>, b: Seq<char>, c: Seq<char>)
    requires
        is_suffix(a, b),
        is_suffix(b, c),
    ensures
        is_suffix(a, c),
{
    assert forall|k: int| 0 <= k < a.len() implies c.subrange(c.len() - a.len(), c.len() as int)[k]
        == a[k] by {
        assert(c.subrange(c.len() - b.len(), c.len() as int)[b.len() - a.len() + k] == b[b.len()
            - a.len() + k]);
        assert(b.subrange(b.len() - a.len(), b.len() as int)[k] == a[k]);
    }
    assert(c.subrange(c.len() - a.len(), c.len() as int) =~= a);
}

proof fn lemma_join_suffix(base: Seq<char>, rel: Seq<char>)
    ensures
        is_suffix(rel, spec_join(base, rel)),
{
    let j = spec_join(base, rel);
    assert(j.subrange(j.len() - rel.len(), j.len() as int) =~= rel);
}

proof fn lemma_after_last_suffix(p: Seq<char>, s: Seq<char>)
    requires
        is_suffix(p, s),
        forall|i: int| 0 <= i < p.len() ==> p[i] != '/',
    ensures
        is_suffix(p, spec_after_last_slash(s)),
    decreases s.len(),
{
    let t = spec_after_last_slash(s);
    if p.len() == 0 {
        assert(t.subrange(t.len() as int, t.len() as int) =~= p);
    } else {
        let n = s.len() - p.len();
        assert(s.last() == p.last()) by {
            assert(s.subrange(n, s.len() as int)[p.len() - 1] == p[p.len() - 1]);
        }
        let s0 = s.drop_last();
        let p0 = p.drop_last();
        assert forall|k: int| 0 <= k < p0.len() implies s0.subrange(n, s0.len() as int)[k] == p0[k] by {
            assert(s.subrange(n, s.len() as int)[k] == p[k]);
        }
        assert(s0.subrange(n, s0.len() as int) =~= p0);
        lemma_after_last_suffix(p0, s0);
        let t0 = spec_after_last_slash(s0);
        assert(t == t0.push(s.last()));
        let m = t.len() - p.len();
        assert forall|k: int| 0 <= k < p.len() implies t.subrange(m, t.len() as int)[k] == p[k] by {
            if k < p0.len() {
                assert(t0.subrange(t0.len() - p0.len(), t0.len() as int)[k] == p0[k]);
            }
        }
        assert(t.subrange(m, t.len() as int) =~= p);
    }
}

/// A path named like a profile file has a file name named like one.
proof fn lemma_file_name_suffix(f: Seq<char>)
    requires
        is_suffix(".gitconfig"@, f),
    ensures
        is_suffix(".gitconfig"@, spec_file_name(f)),
{
    reveal_strlit(".gitconfig");
    reveal_strlit("..");
    let p = ".gitconfig"@;
    assert(f.last() == 'g') by {
        assert(f.subrange(f.len() - 10, f.len() as int)[9] == p[9]);
    }
    assert(f != seq!['.']) by {
        if f == seq!['.'] {
            assert(f.last() == '.');
        }
    }
    assert(spec_drop_dots(f) == f);
    lemma_after_last_suffix(p, f);
    let t = spec_after_last_slash(f);
    assert(t != ".."@) by {
        if t == ".."@ {
            assert(t.len() == 2);
        }
    }
}

/// A profile file, wherever it lies, is named like one.
pub proof fn lemma_profile_file_suffix(cwd: Seq<char>, dir: Seq<char>, id: Seq<char>)
    ensures
        is_suffix(".gitconfig"@, spec_absolute(cwd, spec_profile_file(dir, id))),
{
    let name = id + ".gitconfig"@;
    assert(name.subrange(name.len() - 10, name.len() as int) =~= ".gitconfig"@) by {
        reveal_strlit(".gitconfig");
    }
    reveal_strlit(".gitconfig");
    assert(is_suffix(".gitconfig"@, name));
    let f = spec_profile_file(dir, id);
    lemma_join_suffix(dir, name);
    lemma_suffix_trans(".gitconfig"@, name, f);
    lemma_join_suffix(cwd, f);
    let a = spec_absolute(cwd, f);
    if a == f {
    } else {
        lemma_suffix_trans(".gitconfig"@, f, a);
    }
}

/// The entries that the preparation of a switch keeps: those that survive
/// the purge and are no stale link.
pub open spec fn prepared(c: Seq<EntryView>, s: SwitchStrategy, dir: Seq<char>) -> Seq<EntryView> {
    c.filter(survive_pred(spec_sanitize_ops(s))).filter(not_stale_link(dir))
}

proof fn lemma_prepared_members(c: Seq<EntryView>, s: SwitchStrategy, dir: Seq<char>)
    ensures
        forall|i: int|
            0 <= i < prepared(c, s, dir).len() ==> survives(
                spec_sanitize_ops(s),
                #[trigger] prepared(c, s, dir)[i],
            ) && not_stale_link(dir)(prepared(c, s, dir)[i]),
{
    let a = c.filter(survive_pred(spec_sanitize_ops(s)));
    lemma_filter_members(a, not_stale_link(dir));
    lemma_filter_members(c, survive_pred(spec_sanitize_ops(s)));
    assert forall|i: int| 0 <= i < prepared(c, s, dir).len() implies survives(
        spec_sanitize_ops(s),
        #[trigger] prepared(c, s, dir)[i],
    ) && not_stale_link(dir)(prepared(c, s, dir)[i]) by {
        let e = prepared(c, s, dir)[i];
        let j = choose|j: int| 0 <= j < a.len() && a[j] == e;
        assert(survive_pred(spec_sanitize_ops(s))(a[j]));
    }
}

/// A prepared configuration is prepared already.
proof fn lemma_prepared_stable(d: Seq<EntryView>, s: SwitchStrategy, dir: Seq<char>)
    requires
        forall|i: int|
            0 <= i < d.len() ==> survives(spec_sanitize_ops(s), #[trigger] d[i]) && not_stale_link(
                dir,
            )(d[i]),
    ensures
        prepared(d, s, dir) == d,
{
    assert forall|i: int| 0 <= i < d.len() implies survive_pred(spec_sanitize_ops(s))(
        #[trigger] d[i],
    ) by {}
    lemma_filter_keeps_all(d, survive_pred(spec_sanitize_ops(s)));
    lemma_filter_keeps_all(d, not_stale_link(dir));
}

/// The configuration after a switch, over the entries it prepared: the link
/// appended for an include strategy; for an override strategy, the entries
/// of keys that the profile does not set, then the profile's entries.
pub proof fn lemma_switch_shape(
    c: Seq<EntryView>,
    s: SwitchStrategy,
    dir: Seq<char>,
    file: Seq<char>,
    profile: Seq<EntryView>,
)
    ensures
        s.is_include() ==> spec_switch(c, s, dir, file, profile) == prepared(c, s, dir).push(
            (spec_include_key(), file),
        ),
        !s.is_include() ==> spec_switch(c, s, dir, file, profile) == prepared(c, s, dir).filter(
            not_profile_key(profile),
        ) + written(profile),
        forall|i: int|
            0 <= i < written(profile).len() ==> has_key(profile, (#[trigger] written(profile)[i]).0),
{
    lemma_prepared(c, s, dir);
    let d = prepared(c, s, dir);
    lemma_assignments(d, profile);
    if s.is_include() {
        let ops = spec_apply_ops(s, file, profile);
        assert(ops.drop_last() =~= Seq::<OpView>::empty());
        assert(apply_ops(d, ops.drop_last()) == d);
        assert(ops.last() == OpView::Add(spec_include_key(), file));
        assert(apply_ops(d, ops) == apply_op(d, OpView::Add(spec_include_key(), file)));
    }
}

/// Applying the same profile twice gives the configuration that applying it
/// once gave, under every strategy; an include strategy leaves exactly one
/// link to the profile file, at the end.
pub proof fn law_switch_idempotent(
    c: Seq<EntryView>,
    s: SwitchStrategy,
    cwd: Seq<char>,
    dir: Seq<char>,
    id: Seq<char>,
    profile: Seq<EntryView>,
)
    ensures
        ({
            let file = spec_absolute(cwd, spec_profile_file(dir, id));
            let once = spec_switch(c, s, dir, file, profile);
            &&& spec_switch(once, s, dir, file, profile) == once
            &&& s.is_include() ==> once.len() > 0 && once.last() == (spec_include_key(), file)
                && forall|i: int| 0 <= i < once.len() - 1 ==> #[trigger] once[i] != (
                spec_include_key(),
                file,
            )
        }),
{
    let file = spec_absolute(cwd, spec_profile_file(dir, id));
    let once = spec_switch(c, s, dir, file, profile);
    let link = (spec_include_key(), file);
    lemma_profile_file_suffix(cwd, dir, id);
    lemma_file_name_suffix(file);
    assert(!not_stale_link(dir)(link));
    lemma_switch_shape(c, s, dir, file, profile);
    lemma_switch_shape(once, s, dir, file, profile);
    let d = prepared(c, s, dir);
    lemma_prepared_members(c, s, dir);
    let san = survive_pred(spec_sanitize_ops(s));
    let nsl = not_stale_link(dir);
    if s.is_include() {
        assert(once == d.push(link));
        d.lemma_filter_push(link, san);
        if san(link) {
            d.filter(san).lemma_filter_push(link, nsl);
        }
        lemma_prepared_stable(d, s, dir);
        assert(prepared(once, s, dir) == d);
        assert forall|i: int| 0 <= i < once.len() - 1 implies #[trigger] once[i] != link by {
            assert(once[i] == d[i]);
        }
    } else {
        let npk = not_profile_key(profile);
        let w = written(profile);
        let x = d.filter(npk);
        assert(once == x + w);
        lemma_filter_members(d, npk);
        assert forall|i: int| 0 <= i < x.len() implies survives(spec_sanitize_ops(s), #[trigger] x[i])
            && nsl(x[i]) by {
            let j = choose|j: int| 0 <= j < d.len() && d[j] == x[i];
        }
        lemma_prepared_stable(x, s, dir);
        Seq::filter_distributes_over_add(x, w, san);
        Seq::filter_distributes_over_add(x.filter(san), w.filter(san), nsl);
        let w2 = w.filter(san).filter(nsl);
        assert(prepared(once, s, dir) == x + w2);
        lemma_filter_members(w.filter(san), nsl);
        lemma_filter_members(w, san);
        assert forall|i: int| 0 <= i < w2.len() implies !npk(#[trigger] w2[i]) by {
            let j = choose|j: int| 0 <= j < w.filter(san).len() && w.filter(san)[j] == w2[i];
            let k = choose|k: int| 0 <= k < w.len() && w[k] == w.filter(san)[j];
        }
        lemma_filter_drops_all(w2, npk);
        Seq::filter_distributes_over_add(x, w2, npk);
        lemma_filter_members(d, npk);
        assert forall|i: int| 0 <= i < x.len() implies npk(#[trigger] x[i]) by {}
        lemma_filter_keeps_all(x, npk);
        assert(x + Seq::<EntryView>::empty() =~= x);
    }
}

/// `key` lies in a section that identifies a person or is a key that
/// enables signing or SSH identity.
pub open spec fn is_identity_setting(key: Seq<char>) -> bool {
    (exists|i: int|
        0 <= i < spec_blacklist_sections().len() && in_section(
            key,
            #[trigger] spec_blacklist_sections()[i],
        )) || spec_blacklist_keys().contains(key)
}

proof fn lemma_purged(e: EntryView, s: SwitchStrategy)
    requires
        s.is_hard(),
        survives(spec_sanitize_ops(s), e),
    ensures
        !is_identity_setting(e.0),
{
    let ops = spec_sanitize_ops(s);
    let sections = spec_blacklist_sections();
    let keys = spec_blacklist_keys();
    assert forall|i: int| 0 <= i < sections.len() implies !in_section(e.0, #[trigger] sections[i]) by {
        assert(ops[i] == OpView::RemoveSection(sections[i]));
        assert(!removes(ops[i], e));
    }
    assert forall|j: int| 0 <= j < keys.len() implies e.0 != #[trigger] keys[j] by {
        assert(ops[5 + j] == OpView::UnsetAll(keys[j]));
        assert(!removes(ops[5 + j], e));
    }
}

proof fn lemma_link_is_no_identity()
    ensures
        !is_identity_setting(spec_include_key()),
{
    reveal_strlit("include.path");
    reveal_strlit("user");
    reveal_strlit("author");
    reveal_strlit("committer");
    reveal_strlit("gpg");
    reveal_strlit("core.sshCommand");
    reveal_strlit("commit.gpgsign");
    reveal_strlit("tag.gpgsign");
    reveal_strlit("http.cookieFile");
    let k = spec_include_key();
    let sections = spec_blacklist_sections();
    assert forall|i: int| 0 <= i < sections.len() implies !in_section(k, #[trigger] sections[i]) by {
        assert(k.subrange(0, sections[i].len() as int)[0] == 'i');
        assert(sections[i][0] != 'i');
    }
    let keys = spec_blacklist_keys();
    assert forall|j: int| 0 <= j < keys.len() implies k != #[trigger] keys[j] by {
        assert(keys[j][0] != 'i');
    }
}

/// A hard switch leaves no entry of an identity section and no blacklisted
/// key behind, whatever the configuration held, except those that an
/// override strategy writes from the profile itself.
pub proof fn law_hard_purges(
    c: Seq<EntryView>,
    s: SwitchStrategy,
    dir: Seq<char>,
    file: Seq<char>,
    profile: Seq<EntryView>,
)
    requires
        s.is_hard(),
    ensures
        ({
            let r = spec_switch(c, s, dir, file, profile);
            forall|i: int|
                0 <= i < r.len() && is_identity_setting((#[trigger] r[i]).0) ==> !s.is_include()
                    && has_key(profile, r[i].0)
        }),
{
    let r = spec_switch(c, s, dir, file, profile);
    let d = prepared(c, s, dir);
    lemma_switch_shape(c, s, dir, file, profile);
    lemma_prepared_members(c, s, dir);
    lemma_link_is_no_identity();
    if s.is_include() {
        assert forall|i: int| 0 <= i < r.len() implies !is_identity_setting((#[trigger] r[i]).0) by {
            if i < d.len() {
                assert(r[i] == d[i]);
                lemma_purged(d[i], s);
            }
        }
    } else {
        let x = d.filter(not_profile_key(profile));
        lemma_filter_members(d, not_profile_key(profile));
        assert forall|i: int| 0 <= i < r.len() && is_identity_setting((#[trigger] r[i]).0) implies has_key(
            profile,
            r[i].0,
        ) by {
            if i < x.len() {
                assert(r[i] == x[i]);
                let j = choose|j: int| 0 <= j < d.len() && d[j] == x[i];
                lemma_purged(d[j], s);
            } else {
                assert(r[i] == written(profile)[i - x.len()]);
            }
        }
    }
}

/// A soft purge keeps everything.
proof fn lemma_soft_prepared(c: Seq<EntryView>, s: SwitchStrategy, dir: Seq<char>)
    requires
        !s.is_hard(),
    ensures
        prepared(c, s, dir) == c.filter(not_stale_link(dir)),
{
    assert forall|i: int| 0 <= i < c.len() implies survive_pred(spec_sanitize_ops(s))(
        #[trigger] c[i],
    ) by {}
    lemma_filter_keeps_all(c, survive_pred(spec_sanitize_ops(s)));
}

/// A soft include switch keeps every entry but the stale links, in order,
/// and appends the link to the profile file.
pub proof fn law_soft_include_keeps(
    c: Seq<EntryView>,
    dir: Seq<char>,
    file: Seq<char>,
    profile: Seq<EntryView>,
)
    ensures
        spec_switch(c, SwitchStrategy::IncludeSoft, dir, file, profile) == c.filter(
            not_stale_link(dir),
        ).push((spec_include_key(), file)),
{
    lemma_switch_shape(c, SwitchStrategy::IncludeSoft, dir, file, profile);
    lemma_soft_prepared(c, SwitchStrategy::IncludeSoft, dir);
}

/// A soft override switch keeps every entry whose key the profile does not
/// set (but the stale links), in order, and then holds the profile's
/// entries, each of a key that the profile sets.
pub proof fn law_soft_override_keeps(
    c: Seq<EntryView>,
    dir: Seq<char>,
    file: Seq<char>,
    profile: Seq<EntryView>,
)
    ensures
        spec_switch(c, SwitchStrategy::OverrideSoft, dir, file, profile) == c.filter(
            not_stale_link(dir),
        ).filter(not_profile_key(profile)) + written(profile),
        forall|i: int|
            0 <= i < written(profile).len() ==> has_key(profile, (#[trigger] written(profile)[i]).0),
{
    lemma_switch_shape(c, SwitchStrategy::OverrideSoft, dir, file, profile);
    lemma_soft_prepared(c, SwitchStrategy::OverrideSoft, dir);
}

/// A switch always leaves the profile in the configuration: the link to
/// its file last, or the entries it writes at the end.
pub proof fn law_switch_persists(
    c: Seq<EntryView>,
    s: SwitchStrategy,
    dir: Seq<char>,
    file: Seq<char>,
    profile: Seq<EntryView>,
)
    ensures
        ({
            let r = spec_switch(c, s, dir, file, profile);
            &&& s.is_include() ==> r.len() > 0 && r.last() == (spec_include_key(), file)
            &&& !s.is_include() ==> r.len() >= written(profile).len() && r.subrange(
                r.len() - written(profile).len(),
                r.len() as int,
            ) == written(profile)
        }),
{
    lemma_switch_shape(c, s, dir, file, profile);
    let r = spec_switch(c, s, dir, file, profile);
    if !s.is_include() {
        let x = prepared(c, s, dir).filter(not_profile_key(profile));
        assert(r.subrange(r.len() - written(profile).len(), r.len() as int) =~= written(profile));
    }
}

/// Performing `a` and then `b` is performing `a + b`.
pub proof fn lemma_apply_concat(c: Seq<EntryView>, a: Seq<OpView>, b: Seq<OpView>)
    ensures
        apply_ops(c, a + b) == apply_ops(apply_ops(c, a), b),
    decreases b.len(),
{
    if b.len() == 0 {
        assert(a + b =~= a);
    } else {
        assert((a + b).drop_last() =~= a + b.drop_last());
        lemma_apply_concat(c, a, b.drop_last());
    }
}

/// The edits that a session issues for a switch turn a configuration into
/// the one that the switch describes, provided git listed the links of the
/// purged configuration as they are.
pub proof fn law_session_performs_switch(c: Seq<EntryView>, session: Session)
    requires
        session.values@ == include_values(spec_sanitized(c, session.effective)),
    ensures
        apply_ops(c, session.switch_edits()) == spec_switch(
            c,
            session.effective,
            session.dir_view(),
            session.file@,
            session.profile@,
        ),
{
    let s = session.effective;
    let a = spec_sanitize_ops(s);
    let b = spec_stale_ops(session.values@, session.dir_view());
    let d = crate::plan::spec_apply_ops(s, session.file@, session.profile@);
    lemma_apply_concat(c, a + b, d);
    lemma_apply_concat(c, a, b);
}

/// A session that has issued all the edits of a switch has turned the
/// configuration it started from into the one that the switch describes,
/// under its effective strategy, for its profile file and for the profile
/// entries git read, provided git listed the links of the purged
/// configuration as they are. The laws above then hold of the run.
pub proof fn law_finished_switch(c: Seq<EntryView>, session: Session)
    requires
        session.inv(),
        session.switched@,
        session.values@ == include_values(spec_sanitized(c, session.effective)),
    ensures
        apply_ops(c, session.issued@) == spec_switch(
            c,
            session.effective,
            session.dir_view(),
            session.file@,
            session.profile@,
        ),
{
    law_session_performs_switch(c, session);
}

/// `-c key=value` flags come in pairs whose first half is `-c`.
proof fn lemma_flag_pairs(pairs: Seq<(Seq<char>, Seq<char>)>)
    ensures
        flag_pairs(pairs).len() == 2 * pairs.len(),
        forall|i: int|
            0 <= i < flag_pairs(pairs).len() && i % 2 == 0 ==> #[trigger] flag_pairs(pairs)[i]
                == "-c"@,
    decreases pairs.len(),
{
    if pairs.len() > 0 {
        lemma_flag_pairs(pairs.drop_last());
    }
}

/// The arguments of a one-shot command consist of transient `-c` settings
/// followed by the user's arguments unchanged: the command is told nothing
/// that it would keep in the repository's configuration.
pub proof fn law_exec_is_transient(file: Seq<char>, profile: Seq<EntryView>, args: Seq<Seq<char>>)
    ensures
        ({
            let r = spec_exec_args(file, profile, args);
            let n = (r.len() - args.len()) as int;
            &&& n >= 0 && n % 2 == 0
            &&& r.subrange(n, r.len() as int) == args
            &&& forall|i: int| 0 <= i < n && i % 2 == 0 ==> #[trigger] r[i] == "-c"@
        }),
{
    let neutral = crate::policy::spec_blind_injections();
    let link = seq![(spec_include_key(), file)];
    lemma_flag_pairs(neutral);
    lemma_flag_pairs(link);
    lemma_flag_pairs(profile);
    let f = flag_pairs(neutral) + flag_pairs(link) + flag_pairs(profile);
    let r = spec_exec_args(file, profile, args);
    assert(r == f + args);
    assert(r.subrange(f.len() as int, r.len() as int) =~= args);
    assert forall|i: int| 0 <= i < f.len() && i % 2 == 0 implies #[trigger] r[i] == "-c"@ by {
        let len_neutral = flag_pairs(neutral).len() as int;
        let len_link = flag_pairs(link).len() as int;
        if i < len_neutral {
            assert(r[i] == flag_pairs(neutral)[i]);
        } else if i < len_neutral + len_link {
            assert(r[i] == flag_pairs(link)[i - len_neutral]);
        } else {
            assert(r[i] == flag_pairs(profile)[i - len_neutral - len_link]);
        }
    }
}

} // verus!
