//! The tree walker: plans every source entry against its mirrored target.
use vstd::prelude::*;
use im::Vector;
use crate::errors::{AppError, AppErrorModel};
use crate::fileutils::has_file_name;
use crate::operations::{FSOperation, OpModel, PathState, TraversOperation};
use crate::stow::{stow_decision, stow_path};
use crate::unstow::{unstow_decision, unstow_path};
use crate::vector::{new_operations, operation_items, plan_items, pop_operation, push_entry};

verus! {

/// One entry of the source tree, as observed before planning.
///
/// A walk takes the entries in preorder: each directory is followed by the
/// entries beneath it, `descendants` of them.
#[derive(Debug, Clone)]
pub struct SourceEntry {
    /// The entry's path under the source root.
    pub source: String,
    /// The mirrored path under the target root.
    pub target: String,
    /// How many entries beneath this one follow it.
    pub descendants: usize,
    /// What was observed of the pair.
    pub state: PathState,
}

/// Mathematical model of a [`SourceEntry`].
pub struct EntryModel {
    pub source: Seq<char>,
    pub target: Seq<char>,
    pub descendants: nat,
    pub state: PathState,
}

impl View for SourceEntry {
    type V = EntryModel;

    open spec fn view(&self) -> EntryModel {
        EntryModel {
            source: self.source@,
            target: self.target@,
            descendants: self.descendants as nat,
            state: self.state,
        }
    }
}

/// The models of a sequence of entries.
pub open spec fn entries_model(entries: Seq<SourceEntry>) -> Seq<EntryModel> {
    entries.map_values(|e: SourceEntry| e@)
}

/// Successful operations as plan entries.
pub open spec fn lift_ops(ops: Seq<OpModel>) -> Seq<Result<OpModel, AppErrorModel>> {
    ops.map_values(|o: OpModel| Ok::<OpModel, AppErrorModel>(o))
}

/// What one entry adds to the plan, and whether the walk descends below it.
/// A refused pair adds its error and lets the walk go on.
pub open spec fn node_plan(e: EntryModel, force: bool, backup: bool, unstow: bool) -> (
    Seq<Result<OpModel, AppErrorModel>>,
    TraversOperation,
) {
    if unstow {
        (lift_ops(unstow_decision(e.target, e.state)), TraversOperation::Continue)
    } else {
        match stow_decision(e.source, e.target, e.state, force, backup) {
            Ok((ops, next)) => (lift_ops(ops), next),
            Err(err) => (seq![Err(err)], TraversOperation::Continue),
        }
    }
}

/// Where the walk goes after entry `i`: into its children, or past them.
pub open spec fn next_index(entries: Seq<EntryModel>, i: int, next: TraversOperation) -> int {
    if next == TraversOperation::Continue && entries[i].state.source_is_dir {
        i + 1
    } else {
        i + 1 + entries[i].descendants
    }
}

/// The plan that a walk from entry `i` on produces.
pub open spec fn walk_plan(
    entries: Seq<EntryModel>,
    i: int,
    force: bool,
    backup: bool,
    unstow: bool,
) -> Seq<Result<OpModel, AppErrorModel>>
    decreases entries.len() - i,
{
    if i < 0 || i >= entries.len() {
        seq![]
    } else {
        let (ops, next) = node_plan(entries[i], force, backup, unstow);
        let j = next_index(entries, i, next);
        if j < entries.len() {
            ops + walk_plan(entries, j, force, backup, unstow)
        } else {
            ops
        }
    }
}

pub(crate) proof fn lemma_walk_from(entries: Seq<EntryModel>, i: int, force: bool, backup: bool, unstow: bool)
    requires
        0 <= i < entries.len(),
    ensures
        ({
            let (ops, next) = node_plan(entries[i], force, backup, unstow);
            let j = next_index(entries, i, next);
            &&& j > i
            &&& walk_plan(entries, i, force, backup, unstow) == ops + walk_plan(
                entries,
                j,
                force,
                backup,
                unstow,
            )
        }),
{
    let (ops, next) = node_plan(entries[i], force, backup, unstow);
    let j = next_index(entries, i, next);
    if j >= entries.len() {
        assert(walk_plan(entries, j, force, backup, unstow) =~= seq![]);
        assert(ops + walk_plan(entries, j, force, backup, unstow) =~= ops);
    }
}

/// Plans one source/target pair and appends the outcome to the plan: the
/// operations on success, the error on a refusal. Returns whether to descend.
pub fn visit_node(
    source: &str,
    target: &str,
    state: &PathState,
    force: bool,
    backup: bool,
    unstow: bool,
    operations: &mut Vector<Result<FSOperation, AppError>>,
) -> (r: TraversOperation)
    requires
        unstow ==> has_file_name(target@),
    ensures
        ({
            let e = EntryModel { source: source@, target: target@, descendants: 0, state: *state };
            &&& plan_items(*final(operations)) == plan_items(*old(operations)) + node_plan(
                e,
                force,
                backup,
                unstow,
            ).0
            &&& r == node_plan(e, force, backup, unstow).1
        }),
{
    let ghost e = EntryModel { source: source@, target: target@, descendants: 0, state: *state };
    let ghost base = plan_items(*operations);
    let mut node_operations = new_operations();
    let result = if unstow {
        unstow_path(source, target, state, &mut node_operations)
    } else {
        stow_path(source, target, state, force, backup, &mut node_operations)
    };
    let ghost all = operation_items(node_operations);
    proof {
        if !unstow {
            match stow_decision(source@, target@, *state, force, backup) {
                Ok((ops, next)) => {
                    assert(all =~= Seq::<OpModel>::empty() + ops);
                    assert(result == Ok::<TraversOperation, AppError>(next));
                },
                Err(err) => {
                    assert(result is Err);
                },
            }
        } else {
            assert(all =~= Seq::<OpModel>::empty() + unstow_decision(target@, *state));
        }
    }
    match result {
        Ok(next) => {
            assert(lift_ops(all) == node_plan(e, force, backup, unstow).0);
            assert(next == node_plan(e, force, backup, unstow).1);
            loop
                invariant
                    plan_items(*operations) + lift_ops(operation_items(node_operations)) == base
                        + lift_ops(all),
                ensures
                    plan_items(*operations) == base + lift_ops(all),
                decreases operation_items(node_operations).len(),
            {
                let ghost rest = operation_items(node_operations);
                match pop_operation(&mut node_operations) {
                    Some(op) => {
                        push_entry(operations, Ok(op));
                        assert(lift_ops(rest) =~= seq![Ok::<OpModel, AppErrorModel>(rest[0])]
                            + lift_ops(rest.drop_first()));
                        assert(plan_items(*operations) + lift_ops(operation_items(node_operations))
                            =~= base + lift_ops(all));
                    },
                    None => {
                        assert(lift_ops(rest) =~= Seq::<Result<OpModel, AppErrorModel>>::empty());
                        assert(plan_items(*operations) =~= plan_items(*operations) + lift_ops(rest));
                        break;
                    },
                }
            }
            next
        },
        Err(err) => {
            assert(!unstow);
            assert(node_plan(e, force, backup, unstow).0 == seq![Err::<OpModel, AppErrorModel>(err@)]);
            push_entry(operations, Err(err));
            assert(plan_items(*operations) =~= base + node_plan(e, force, backup, unstow).0);
            TraversOperation::Continue
        },
    }
}

/// Plans every entry of a preorder snapshot of the source tree, in order,
/// descending into a directory only when its own planning says to go on.
/// Everything planned, errors included, is appended to `operations`.
#[verifier::rlimit(30)]
pub fn visit(
    entries: &Vec<SourceEntry>,
    force: bool,
    backup: bool,
    unstow: bool,
    operations: &mut Vector<Result<FSOperation, AppError>>,
)
    requires
        unstow ==> forall|j: int| 0 <= j < entries@.len() ==> has_file_name(#[trigger] entries@[j].target@),
    ensures
        plan_items(*final(operations)) == plan_items(*old(operations)) + walk_plan(
            entries_model(entries@),
            0,
            force,
            backup,
            unstow,
        ),
{
    let ghost model = entries_model(entries@);
    let ghost base = plan_items(*operations);
    let n = entries.len();
    let mut i: usize = 0;
    assert(base + walk_plan(model, 0, force, backup, unstow) =~= plan_items(*operations) + walk_plan(model, 0, force, backup, unstow));
    while i < n
        invariant
            n == entries@.len(),
            model == entries_model(entries@),
            i <= n,
            unstow ==> forall|j: int| 0 <= j < entries@.len() ==> has_file_name(#[trigger] entries@[j].target@),
            plan_items(*operations) + walk_plan(model, i as int, force, backup, unstow) == base
                + walk_plan(model, 0, force, backup, unstow),
        decreases n - i,
    {
        let entry = &entries[i];
        let ghost before = plan_items(*operations);
        assert(model[i as int] == entry@);
        let next = visit_node(
            entry.source.as_str(),
            entry.target.as_str(),
            &entry.state,
            force,
            backup,
            unstow,
            operations,
        );
        let ghost step = node_plan(model[i as int], force, backup, unstow);
        assert(step == node_plan(
            EntryModel { source: entry.source@, target: entry.target@, descendants: 0, state: entry.state },
            force,
            backup,
            unstow,
        ));
        let ghost j = next_index(model, i as int, next);
        proof {
            lemma_walk_from(model, i as int, force, backup, unstow);
        }
        if next == TraversOperation::Continue && entry.state.source_is_dir {
            i = i + 1;
        } else if entry.descendants < n - i - 1 {
            i = i + 1 + entry.descendants;
        } else {
            assert(walk_plan(model, j, force, backup, unstow) =~= walk_plan(model, n as int, force, backup, unstow));
            i = n;
        }
        assert(plan_items(*operations) + walk_plan(model, i as int, force, backup, unstow) =~= base
            + walk_plan(model, 0, force, backup, unstow));
    }
    assert(walk_plan(model, n as int, force, backup, unstow) =~= Seq::<Result<OpModel, AppErrorModel>>::empty());
    assert(plan_items(*operations) =~= plan_items(*operations) + walk_plan(model, n as int, force, backup, unstow));
}

} // verus!
