//! A model of the filesystem that plans act on, and the laws that planning
//! obeys, proved over the decision tables and that model.
//!
//! The model records the node found at each path an operation names. What
//! lies beneath a directory is not part of it, nor are the child links that a
//! `BreakDirectoryLink` creates.
use vstd::prelude::*;
use crate::errors::AppErrorModel;
use crate::fileutils::{backup_path_of, lemma_backup_path_longer};
use crate::operations::{OpModel, PathState, TraversOperation};
use crate::stow::{existing_file_cause, stop_if_directory, stow_decision, valid_link_cause};
use crate::unstow::{is_managed_link, unmanaged_cause, unstow_decision};
use crate::interpreters::{has_error, plan_operations};
use crate::walk::{lemma_walk_from, lift_ops, next_index, node_plan, walk_plan, EntryModel};

verus! {

/// What stands at a path.
pub enum Node {
    /// A real file, with its content.
    File(nat),
    /// A real directory.
    Dir,
    /// A symbolic link to the given path.
    Link(Seq<char>),
}

/// `p` exists, following a symbolic link one step.
pub open spec fn path_exists(fs: Map<Seq<char>, Node>, p: Seq<char>) -> bool {
    fs.contains_key(p) && match fs[p] {
        Node::Link(d) => fs.contains_key(d),
        _ => true,
    }
}

/// What inspecting the pair in `fs` yields.
pub open spec fn observe(fs: Map<Seq<char>, Node>, source: Seq<char>, target: Seq<char>) -> PathState {
    PathState {
        source_is_dir: fs.contains_key(source) && fs[source] is Dir,
        target_exists: path_exists(fs, target),
        target_is_symlink: fs.contains_key(target) && fs[target] is Link,
        valid_symlink: fs.contains_key(target) && fs[target] == Node::Link(source),
        backup_exists: path_exists(fs, backup_path_of(target)),
    }
}

/// The effect of one operation on `fs`.
pub open spec fn apply_op(fs: Map<Seq<char>, Node>, op: OpModel) -> Map<Seq<char>, Node> {
    match op {
        OpModel::Backup(p) => if fs.contains_key(p) {
            fs.remove(p).insert(backup_path_of(p), fs[p])
        } else {
            fs
        },
        OpModel::Restore { backup, target } => if fs.contains_key(backup) {
            fs.remove(backup).insert(target, fs[backup])
        } else {
            fs
        },
        OpModel::CreateSymlink { source, target } => fs.insert(target, Node::Link(source)),
        OpModel::CreateDirectory(p) => fs.insert(p, Node::Dir),
        OpModel::Delete(p) => fs.remove(p),
        OpModel::BreakDirectoryLink(p) => fs.insert(p, Node::Dir),
        OpModel::Nothing { .. } => fs,
    }
}

/// The effect of a sequence of operations, applied in order.
pub open spec fn apply_ops(fs: Map<Seq<char>, Node>, ops: Seq<OpModel>) -> Map<Seq<char>, Node>
    decreases ops.len(),
{
    if ops.len() == 0 {
        fs
    } else {
        apply_ops(apply_op(fs, ops[0]), ops.drop_first())
    }
}

/// The operations that stow plans for the pair as it stands in `fs`; empty
/// where the pair is refused.
pub open spec fn stow_ops(fs: Map<Seq<char>, Node>, source: Seq<char>, target: Seq<char>, force: bool, backup: bool) -> Seq<OpModel> {
    match stow_decision(source, target, observe(fs, source, target), force, backup) {
        Ok((ops, _)) => ops,
        Err(_) => seq![],
    }
}

proof fn lemma_apply_two(fs: Map<Seq<char>, Node>, a: OpModel, b: OpModel)
    ensures
        apply_ops(fs, seq![a, b]) == apply_op(apply_op(fs, a), b),
{
    reveal_with_fuel(apply_ops, 3);
    assert(seq![a, b].drop_first() =~= seq![b]);
    assert(seq![b].drop_first() =~= Seq::<OpModel>::empty());
}

proof fn lemma_apply_one(fs: Map<Seq<char>, Node>, a: OpModel)
    ensures
        apply_ops(fs, seq![a]) == apply_op(fs, a),
{
    reveal_with_fuel(apply_ops, 2);
    assert(seq![a].drop_first() =~= Seq::<OpModel>::empty());
}

/// A target that does not exist gets exactly one link to the source; the walk
/// stops there when the source is a directory.
pub proof fn lemma_stow_missing_target(
    source: Seq<char>,
    target: Seq<char>,
    st: PathState,
    force: bool,
    backup: bool,
)
    requires
        !st.target_exists,
    ensures
        stow_decision(source, target, st, force, backup) == Ok::<
            (Seq<OpModel>, TraversOperation),
            AppErrorModel,
        >((seq![OpModel::CreateSymlink { source, target }], stop_if_directory(st.source_is_dir))),
{
}

/// A target that already links to the source gets exactly one `Nothing`,
/// whatever the flags.
pub proof fn lemma_stow_valid_link(
    source: Seq<char>,
    target: Seq<char>,
    st: PathState,
    force: bool,
    backup: bool,
)
    requires
        st.target_exists,
        st.target_is_symlink,
        st.valid_symlink,
    ensures
        stow_decision(source, target, st, force, backup) == Ok::<
            (Seq<OpModel>, TraversOperation),
            AppErrorModel,
        >(
            (
                seq![OpModel::Nothing { path: target, cause: valid_link_cause() }],
                stop_if_directory(st.source_is_dir),
            ),
        ),
{
}

/// Stowing a pair a second time, once the first plan was applied, plans
/// nothing but `Nothing` operations.
pub proof fn lemma_stow_idempotent(
    fs: Map<Seq<char>, Node>,
    source: Seq<char>,
    target: Seq<char>,
    force: bool,
    backup: bool,
)
    requires
        fs.contains_key(source),
        source != target,
        stow_decision(source, target, observe(fs, source, target), force, backup) is Ok,
    ensures
        ({
            let after = apply_ops(fs, stow_ops(fs, source, target, force, backup));
            let again = stow_decision(source, target, observe(after, source, target), force, backup);
            &&& again is Ok
            &&& forall|i: int| 0 <= i < again->Ok_0.0.len() ==> (#[trigger] again->Ok_0.0[i]) is Nothing
        }),
{
    let st = observe(fs, source, target);
    let ops = stow_ops(fs, source, target, force, backup);
    let link = OpModel::CreateSymlink { source, target };
    if ops.len() == 1 {
        lemma_apply_one(fs, ops[0]);
    } else if ops.len() == 2 {
        lemma_apply_two(fs, ops[0], ops[1]);
    } else {
        assert(ops.len() == 0);
    }
    let after = apply_ops(fs, ops);
    if ops.len() > 0 && ops.last() == link {
        assert(after.contains_key(target) && after[target] == Node::Link(source));
        assert(after.contains_key(source));
    }
}

/// An existing real file is refused without force; with force it is deleted,
/// or backed up when asked, before the link is made.
pub proof fn lemma_stow_real_file(
    source: Seq<char>,
    target: Seq<char>,
    st: PathState,
    force: bool,
    backup: bool,
)
    requires
        st.target_exists,
        !st.target_is_symlink,
        !st.source_is_dir,
    ensures
        !force ==> stow_decision(source, target, st, force, backup) == Err::<
            (Seq<OpModel>, TraversOperation),
            AppErrorModel,
        >(AppErrorModel::StowPath { source, target, cause: existing_file_cause() }),
        force && !backup ==> stow_decision(source, target, st, force, backup) == Ok::<
            (Seq<OpModel>, TraversOperation),
            AppErrorModel,
        >(
            (
                seq![OpModel::Delete(target), OpModel::CreateSymlink { source, target }],
                TraversOperation::Continue,
            ),
        ),
        force && backup ==> stow_decision(source, target, st, force, backup) == Ok::<
            (Seq<OpModel>, TraversOperation),
            AppErrorModel,
        >(
            (
                seq![OpModel::Backup(target), OpModel::CreateSymlink { source, target }],
                TraversOperation::Continue,
            ),
        ),
{
}

/// An existing real directory plans no operation and lets the walk descend
/// into it, whatever the flags.
pub proof fn lemma_stow_real_directory(
    source: Seq<char>,
    target: Seq<char>,
    st: PathState,
    force: bool,
    backup: bool,
)
    requires
        st.target_exists,
        !st.target_is_symlink,
        st.source_is_dir,
    ensures
        stow_decision(source, target, st, force, backup) == Ok::<
            (Seq<OpModel>, TraversOperation),
            AppErrorModel,
        >((seq![], TraversOperation::Continue)),
{
}

/// Unstow deletes a managed link, then restores the backup found beside it;
/// anything else gets a single `Nothing` that says why.
pub proof fn lemma_unstow_outcomes(target: Seq<char>, st: PathState)
    ensures
        is_managed_link(st) && st.backup_exists ==> unstow_decision(target, st) == seq![
            OpModel::Delete(target),
            OpModel::Restore { backup: backup_path_of(target), target },
        ],
        is_managed_link(st) && !st.backup_exists ==> unstow_decision(target, st) == seq![
            OpModel::Delete(target),
        ],
        !is_managed_link(st) ==> unstow_decision(target, st) == seq![
            OpModel::Nothing { path: target, cause: unmanaged_cause(st) },
        ],
        !is_managed_link(st) ==> unmanaged_cause(st) == "Target not found"@ || unmanaged_cause(st)
            == "Target not a symlink"@ || unmanaged_cause(st) == "Target symlink invalid"@,
{
}

/// With force and backup, a real file is moved to its backup path, keeping
/// its content, and the target then links to the source.
pub proof fn lemma_backup_keeps_content(
    fs: Map<Seq<char>, Node>,
    source: Seq<char>,
    target: Seq<char>,
    content: nat,
)
    requires
        fs.contains_key(source),
        !(fs[source] is Dir),
        fs.contains_key(target),
        fs[target] == Node::File(content),
    ensures
        ({
            let after = apply_ops(fs, stow_ops(fs, source, target, true, true));
            &&& after[backup_path_of(target)] == Node::File(content)
            &&& after[target] == Node::Link(source)
        }),
{
    lemma_backup_path_longer(target);
    lemma_apply_two(fs, OpModel::Backup(target), OpModel::CreateSymlink { source, target });
}

/// The entries with their state observed anew in `fs`.
pub open spec fn reobserve(es: Seq<EntryModel>, fs: Map<Seq<char>, Node>) -> Seq<EntryModel> {
    es.map_values(
        |e: EntryModel|
            EntryModel {
                source: e.source,
                target: e.target,
                descendants: e.descendants,
                state: observe(fs, e.source, e.target),
            },
    )
}

/// Every source is present, no target nor backup path is taken, targets are
/// distinct, and no backup path of one entry is the target of another.
pub open spec fn fresh_targets(fs: Map<Seq<char>, Node>, es: Seq<EntryModel>) -> bool {
    &&& forall|i: int| 0 <= i < es.len() ==> fs.contains_key(#[trigger] es[i].source)
    &&& forall|i: int|
        0 <= i < es.len() ==> !fs.contains_key(#[trigger] es[i].target) && !fs.contains_key(
            backup_path_of(es[i].target),
        )
    &&& forall|i: int, j: int|
        0 <= i < es.len() && 0 <= j < es.len() && i != j ==> #[trigger] es[i].target
            != #[trigger] es[j].target
    &&& forall|i: int, j: int|
        0 <= i < es.len() && 0 <= j < es.len() ==> backup_path_of(#[trigger] es[i].target)
            != #[trigger] es[j].target
}

/// The entries' states are what `fs` shows, and only directories have
/// entries beneath them.
pub open spec fn observed_in(fs: Map<Seq<char>, Node>, es: Seq<EntryModel>) -> bool {
    forall|i: int|
        0 <= i < es.len() ==> (#[trigger] es[i]).state == observe(fs, es[i].source, es[i].target)
            && (!es[i].state.source_is_dir ==> es[i].descendants == 0)
}

/// The links that a stow walk from entry `i` over free targets makes.
spec fn stow_links(es: Seq<EntryModel>, i: int) -> Map<Seq<char>, Node>
    decreases es.len() - i,
{
    if i < 0 || i >= es.len() {
        Map::empty()
    } else {
        let j = i + 1 + es[i].descendants;
        let rest = if j < es.len() {
            stow_links(es, j)
        } else {
            Map::empty()
        };
        rest.insert(es[i].target, Node::Link(es[i].source))
    }
}

/// The targets of `links` that an unstow walk from entry `j` deletes.
spec fn unstow_deleted(es: Seq<EntryModel>, links: Map<Seq<char>, Node>, j: int) -> Set<Seq<char>>
    decreases es.len() - j,
{
    if j < 0 || j >= es.len() {
        Set::empty()
    } else {
        let rest = unstow_deleted(es, links, j + 1);
        if links.contains_key(es[j].target) {
            rest.insert(es[j].target)
        } else {
            rest
        }
    }
}

proof fn lemma_apply_front(fs: Map<Seq<char>, Node>, a: OpModel, rest: Seq<OpModel>)
    ensures
        apply_ops(fs, seq![a] + rest) == apply_ops(apply_op(fs, a), rest),
{
    assert((seq![a] + rest)[0] == a);
    assert((seq![a] + rest).drop_first() =~= rest);
}

proof fn lemma_plan_operations_front(a: OpModel, rest: Seq<Result<OpModel, AppErrorModel>>)
    ensures
        plan_operations(lift_ops(seq![a]) + rest) == seq![a] + plan_operations(rest),
{
    assert(plan_operations(lift_ops(seq![a]) + rest) =~= seq![a] + plan_operations(rest));
}

proof fn lemma_stow_fresh(
    fs: Map<Seq<char>, Node>,
    es: Seq<EntryModel>,
    i: int,
    force: bool,
    backup: bool,
    g: Map<Seq<char>, Node>,
)
    requires
        fresh_targets(fs, es),
        observed_in(fs, es),
        0 <= i < es.len(),
    ensures
        forall|k: int|
            0 <= k < walk_plan(es, i, force, backup, false).len() ==> (#[trigger] walk_plan(
                es,
                i,
                force,
                backup,
                false,
            )[k]) is Ok,
        apply_ops(g, plan_operations(walk_plan(es, i, force, backup, false)))
            == g.union_prefer_right(stow_links(es, i)),
        forall|t: Seq<char>|
            #[trigger] stow_links(es, i).contains_key(t) ==> exists|k: int|
                i <= k < es.len() && t == es[k].target && stow_links(es, i)[t] == Node::Link(
                    es[k].source,
                ),
    decreases es.len() - i,
{
    let e = es[i];
    let link = OpModel::CreateSymlink { source: e.source, target: e.target };
    assert(!e.state.target_exists);
    let (ops, next) = node_plan(e, force, backup, false);
    assert(ops == lift_ops(seq![link]));
    let j = next_index(es, i, next);
    assert(j == i + 1 + e.descendants);
    lemma_walk_from(es, i, force, backup, false);
    let rest = walk_plan(es, j, force, backup, false);
    let g1 = apply_op(g, link);
    lemma_plan_operations_front(link, rest);
    lemma_apply_front(g, link, plan_operations(rest));
    if j < es.len() {
        lemma_stow_fresh(fs, es, j, force, backup, g1);
        let links = stow_links(es, j);
        assert(!links.contains_key(e.target)) by {
            if links.contains_key(e.target) {
                let k = choose|k: int|
                    j <= k < es.len() && e.target == es[k].target && links[e.target]
                        == Node::Link(es[k].source);
                assert(es[i].target == es[k].target);
            }
        }
        assert(g1.union_prefer_right(links) =~= g.union_prefer_right(stow_links(es, i)));
        assert forall|t: Seq<char>| #[trigger] stow_links(es, i).contains_key(t) implies exists|k: int|
            i <= k < es.len() && t == es[k].target && stow_links(es, i)[t] == Node::Link(
                es[k].source,
            ) by {
            if t != e.target {
                assert(links.contains_key(t));
            }
        }
        assert forall|k: int| 0 <= k < walk_plan(es, i, force, backup, false).len() implies (
        #[trigger] walk_plan(es, i, force, backup, false)[k]) is Ok by {
            if k >= 1 {
                assert(walk_plan(es, i, force, backup, false)[k] == rest[k - 1]);
            }
        }
    } else {
        assert(rest =~= Seq::<Result<OpModel, AppErrorModel>>::empty());
        assert(plan_operations(rest) =~= Seq::<OpModel>::empty());
        assert(g1.union_prefer_right(Map::<Seq<char>, Node>::empty()) =~= g1);
        assert(g1 =~= g.union_prefer_right(stow_links(es, i)));
        assert forall|t: Seq<char>| #[trigger] stow_links(es, i).contains_key(t) implies exists|k: int|
            i <= k < es.len() && t == es[k].target && stow_links(es, i)[t] == Node::Link(
                es[k].source,
            ) by {
            assert(t == es[i].target);
        }
    }
}

proof fn lemma_unstow_fresh(
    fs: Map<Seq<char>, Node>,
    es: Seq<EntryModel>,
    links: Map<Seq<char>, Node>,
    j: int,
    force: bool,
    backup: bool,
    h: Map<Seq<char>, Node>,
)
    requires
        fresh_targets(fs, es),
        observed_in(fs, es),
        0 <= j <= es.len(),
        forall|t: Seq<char>|
            #[trigger] links.contains_key(t) ==> exists|k: int|
                0 <= k < es.len() && t == es[k].target && links[t] == Node::Link(es[k].source),
    ensures
        apply_ops(
            h,
            plan_operations(
                walk_plan(reobserve(es, fs.union_prefer_right(links)), j, force, backup, true),
            ),
        ) == h.remove_keys(unstow_deleted(es, links, j)),
    decreases es.len() - j,
{
    let fs1 = fs.union_prefer_right(links);
    let es2 = reobserve(es, fs1);
    if j == es.len() {
        assert(walk_plan(es2, j, force, backup, true) =~= Seq::<
            Result<OpModel, AppErrorModel>,
        >::empty());
        assert(plan_operations(walk_plan(es2, j, force, backup, true)) =~= Seq::<OpModel>::empty());
        assert(h.remove_keys(Set::empty()) =~= h);
    } else {
        let e = es[j];
        let e2 = es2[j];
        assert(e2.source == e.source && e2.target == e.target && e2.descendants == e.descendants);
        let st2 = observe(fs1, e.source, e.target);
        assert(e2.state == st2);
        assert(!links.contains_key(e.source)) by {
            if links.contains_key(e.source) {
                let k = choose|k: int|
                    0 <= k < es.len() && e.source == es[k].target && links[e.source]
                        == Node::Link(es[k].source);
                assert(!fs.contains_key(es[k].target));
            }
        }
        assert(st2.source_is_dir == e.state.source_is_dir);
        let (ops, next) = node_plan(e2, force, backup, true);
        assert(next == TraversOperation::Continue);
        assert(next_index(es2, j, next) == j + 1);
        lemma_walk_from(es2, j, force, backup, true);
        let rest = walk_plan(es2, j + 1, force, backup, true);
        lemma_unstow_fresh(fs, es, links, j + 1, force, backup, h);
        let bp = backup_path_of(e.target);
        assert(!links.contains_key(bp)) by {
            if links.contains_key(bp) {
                let k = choose|k: int|
                    0 <= k < es.len() && bp == es[k].target && links[bp] == Node::Link(
                        es[k].source,
                    );
                assert(backup_path_of(es[j].target) != es[k].target);
            }
        }
        assert(!fs1.contains_key(bp));
        if links.contains_key(e.target) {
            let k = choose|k: int|
                0 <= k < es.len() && e.target == es[k].target && links[e.target] == Node::Link(
                    es[k].source,
                );
            assert(es[j].target == es[k].target);
            assert(k == j);
            assert(fs1[e.target] == Node::Link(e.source));
            assert(is_managed_link(st2));
            assert(!st2.backup_exists);
            let del = OpModel::Delete(e.target);
            assert(ops == lift_ops(seq![del]));
            lemma_plan_operations_front(del, rest);
            lemma_apply_front(h, del, plan_operations(rest));
            lemma_unstow_fresh(fs, es, links, j + 1, force, backup, h.remove(e.target));
            assert(h.remove(e.target).remove_keys(unstow_deleted(es, links, j + 1)) =~= h.remove_keys(
                unstow_deleted(es, links, j),
            ));
        } else {
            assert(!fs1.contains_key(e.target));
            let nothing = OpModel::Nothing { path: e.target, cause: unmanaged_cause(st2) };
            assert(ops == lift_ops(seq![nothing]));
            lemma_plan_operations_front(nothing, rest);
            lemma_apply_front(h, nothing, plan_operations(rest));
        }
    }
}

proof fn lemma_deleted_are_links(es: Seq<EntryModel>, links: Map<Seq<char>, Node>, j: int)
    ensures
        forall|t: Seq<char>| #[trigger] unstow_deleted(es, links, j).contains(t) ==> links.contains_key(t),
    decreases es.len() - j,
{
    if 0 <= j < es.len() {
        lemma_deleted_are_links(es, links, j + 1);
        assert forall|t: Seq<char>| #[trigger] unstow_deleted(es, links, j).contains(t) implies links.contains_key(t) by {
            if t != es[j].target {
                assert(unstow_deleted(es, links, j + 1).contains(t));
            }
        }
    }
}

proof fn lemma_links_are_deleted(es: Seq<EntryModel>, links: Map<Seq<char>, Node>, j: int, k: int)
    requires
        0 <= j <= k < es.len(),
        links.contains_key(es[k].target),
    ensures
        unstow_deleted(es, links, j).contains(es[k].target),
    decreases k - j,
{
    if j < k {
        lemma_links_are_deleted(es, links, j + 1, k);
    }
}

proof fn lemma_restow_fresh(
    fs: Map<Seq<char>, Node>,
    es: Seq<EntryModel>,
    links: Map<Seq<char>, Node>,
    i: int,
    force: bool,
    backup: bool,
)
    requires
        fresh_targets(fs, es),
        observed_in(fs, es),
        0 <= i < es.len(),
        stow_links(es, i).submap_of(links),
        forall|t: Seq<char>|
            #[trigger] links.contains_key(t) ==> exists|k: int|
                0 <= k < es.len() && t == es[k].target && links[t] == Node::Link(es[k].source),
    ensures
        forall|k: int|
            0 <= k < walk_plan(reobserve(es, fs.union_prefer_right(links)), i, force, backup, false).len()
                ==> (#[trigger] walk_plan(
                reobserve(es, fs.union_prefer_right(links)),
                i,
                force,
                backup,
                false,
            )[k]) is Ok && walk_plan(reobserve(es, fs.union_prefer_right(links)), i, force, backup, false)[k]->Ok_0 is Nothing,
    decreases es.len() - i,
{
    let fs1 = fs.union_prefer_right(links);
    let es2 = reobserve(es, fs1);
    let e = es[i];
    let e2 = es2[i];
    assert(e2.source == e.source && e2.target == e.target && e2.descendants == e.descendants);
    let st2 = observe(fs1, e.source, e.target);
    assert(e2.state == st2);
    assert(!links.contains_key(e.source)) by {
        if links.contains_key(e.source) {
            let k = choose|k: int|
                0 <= k < es.len() && e.source == es[k].target && links[e.source] == Node::Link(
                    es[k].source,
                );
            assert(!fs.contains_key(es[k].target));
        }
    }
    assert(stow_links(es, i).contains_key(e.target));
    assert(links[e.target] == Node::Link(e.source));
    assert(st2.target_exists && st2.target_is_symlink && st2.valid_symlink);
    assert(st2.source_is_dir == e.state.source_is_dir);
    let (ops, next) = node_plan(e2, force, backup, false);
    let nothing = OpModel::Nothing { path: e.target, cause: valid_link_cause() };
    assert(ops == lift_ops(seq![nothing]));
    let j = next_index(es2, i, next);
    assert(j == i + 1 + e.descendants);
    lemma_walk_from(es2, i, force, backup, false);
    let rest = walk_plan(es2, j, force, backup, false);
    let all = walk_plan(es2, i, force, backup, false);
    if j < es.len() {
        lemma_stow_fresh(fs, es, j, force, backup, fs);
        assert(!stow_links(es, j).contains_key(e.target)) by {
            if stow_links(es, j).contains_key(e.target) {
                let k = choose|k: int|
                    j <= k < es.len() && e.target == es[k].target && stow_links(es, j)[e.target]
                        == Node::Link(es[k].source);
                assert(es[i].target == es[k].target);
            }
        }
        assert(stow_links(es, j).submap_of(links)) by {
            assert forall|t: Seq<char>| #[trigger] stow_links(es, j).contains_key(t) implies links.contains_key(t)
                && stow_links(es, j)[t] == links[t] by {
                assert(stow_links(es, i).contains_key(t));
                assert(stow_links(es, i)[t] == stow_links(es, j)[t]);
            }
        }
        lemma_restow_fresh(fs, es, links, j, force, backup);
        assert forall|k: int| 0 <= k < all.len() implies (#[trigger] all[k]) is Ok && all[k]->Ok_0 is Nothing by {
            if k >= 1 {
                assert(all[k] == rest[k - 1]);
            }
        }
    } else {
        assert(rest =~= Seq::<Result<OpModel, AppErrorModel>>::empty());
        assert(all =~= lift_ops(seq![nothing]));
    }
}

/// Stowing again a tree that was stowed over free targets plans nothing but
/// `Nothing` operations.
pub proof fn lemma_tree_restow_idempotent(
    fs: Map<Seq<char>, Node>,
    es: Seq<EntryModel>,
    force: bool,
    backup: bool,
)
    requires
        fresh_targets(fs, es),
        observed_in(fs, es),
    ensures
        ({
            let stowed = apply_ops(fs, plan_operations(walk_plan(es, 0, force, backup, false)));
            let again = walk_plan(reobserve(es, stowed), 0, force, backup, false);
            forall|k: int| 0 <= k < again.len() ==> (#[trigger] again[k]) is Ok && again[k]->Ok_0 is Nothing
        }),
{
    if es.len() == 0 {
        let stowed = apply_ops(fs, plan_operations(walk_plan(es, 0, force, backup, false)));
        assert(walk_plan(reobserve(es, stowed), 0, force, backup, false) =~= Seq::<
            Result<OpModel, AppErrorModel>,
        >::empty());
    } else {
        lemma_stow_fresh(fs, es, 0, force, backup, fs);
        let links = stow_links(es, 0);
        lemma_restow_fresh(fs, es, links, 0, force, backup);
    }
}

/// Stowing a tree whose targets are all free, then unstowing it, gives back
/// the filesystem as it was: no link and no backup is left behind. The stow
/// plan holds no error.
pub proof fn lemma_tree_round_trip(
    fs: Map<Seq<char>, Node>,
    es: Seq<EntryModel>,
    force: bool,
    backup: bool,
)
    requires
        fresh_targets(fs, es),
        observed_in(fs, es),
    ensures
        ({
            let stow_plan = walk_plan(es, 0, force, backup, false);
            let stowed = apply_ops(fs, plan_operations(stow_plan));
            let unstow_plan = walk_plan(reobserve(es, stowed), 0, force, backup, true);
            &&& !has_error(stow_plan)
            &&& apply_ops(stowed, plan_operations(unstow_plan)) == fs
        }),
{
    let stow_plan = walk_plan(es, 0, force, backup, false);
    if es.len() == 0 {
        assert(stow_plan =~= Seq::<Result<OpModel, AppErrorModel>>::empty());
        assert(plan_operations(stow_plan) =~= Seq::<OpModel>::empty());
        let es2 = reobserve(es, fs);
        assert(walk_plan(es2, 0, force, backup, true) =~= Seq::<Result<OpModel, AppErrorModel>>::empty());
        assert(plan_operations(walk_plan(es2, 0, force, backup, true)) =~= Seq::<OpModel>::empty());
    } else {
        lemma_stow_fresh(fs, es, 0, force, backup, fs);
        let links = stow_links(es, 0);
        let stowed = fs.union_prefer_right(links);
        lemma_unstow_fresh(fs, es, links, 0, force, backup, stowed);
        let deleted = unstow_deleted(es, links, 0);
        lemma_deleted_are_links(es, links, 0);
        assert forall|t: Seq<char>| links.contains_key(t) implies deleted.contains(t) && !fs.contains_key(t) by {
            let k = choose|k: int|
                0 <= k < es.len() && t == es[k].target && links[t] == Node::Link(es[k].source);
            lemma_links_are_deleted(es, links, 0, k);
            assert(!fs.contains_key(es[k].target));
        }
        assert(stowed.remove_keys(deleted) =~= fs);
        assert(!has_error(stow_plan)) by {
            if has_error(stow_plan) {
                let i = choose|i: int| 0 <= i < stow_plan.len() && (#[trigger] stow_plan[i]) is Err;
                assert(stow_plan[i] is Ok);
            }
        }
    }
}

} // verus!
