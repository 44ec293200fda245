//! What the interpreters of a plan need decided: the dry-run report, whether
//! a plan may be executed, and the steps of a composite operation.
use vstd::prelude::*;
use im::Vector;
use crate::errors::{error_message, AppError, AppErrorModel};
use crate::fileutils::{join_model, join_path};
use crate::operations::{ops_model, FSOperation, OpModel};
use crate::vector::{entry_at, plan_items, plan_len};

verus! {

/// The dry-run line of a successful operation; `is_dir` tells whether the
/// path of a `Delete` is a directory.
pub open spec fn dryrun_text(op: OpModel, is_dir: bool) -> Seq<char> {
    match op {
        OpModel::Nothing { path, cause } => "DRY-RUN : nothing to do on "@ + path + " ("@ + cause
            + ")"@,
        OpModel::Backup(p) => "DRY-RUN : backup "@ + p,
        OpModel::CreateDirectory(p) => "DRY-RUN : create directory "@ + p,
        OpModel::Restore { backup, target } => "DRY-RUN : restore "@ + backup + " -> "@ + target,
        OpModel::BreakDirectoryLink(p) => "DRY-RUN : Break directory link "@ + p
            + " and rebuild children links"@,
        OpModel::Delete(p) => if is_dir {
            "DRY-RUN : delete directory recursively "@ + p
        } else {
            "DRY-RUN : delete file "@ + p
        },
        OpModel::CreateSymlink { source, target } => "DRY-RUN : create symbolic link "@ + source
            + " -> "@ + target,
    }
}

/// The dry-run report line of one plan entry: `Ok` for an operation, `Err`
/// for an error.
pub open spec fn dryrun_entry(e: Result<OpModel, AppErrorModel>, is_dir: bool) -> Result<
    Seq<char>,
    Seq<char>,
> {
    match e {
        Ok(op) => Ok(dryrun_text(op, is_dir)),
        Err(err) => Err("DRY-RUN : Error "@ + error_message(err)),
    }
}

/// The dry-run report line of one plan entry, without touching anything.
pub fn dryrun_line(entry: &Result<FSOperation, AppError>, is_dir: bool) -> (r: Result<
    String,
    String,
>)
    ensures
        dryrun_entry(crate::vector::entry_view(*entry), is_dir) == (match r {
            Ok(l) => Ok::<Seq<char>, Seq<char>>(l@),
            Err(l) => Err(l@),
        }),
{
    match entry {
        Ok(op) => Ok(
            match op {
                FSOperation::Nothing { path, cause } => String::from_str(
                    "DRY-RUN : nothing to do on ",
                ).concat(path.as_str()).concat(" (").concat(cause.as_str()).concat(")"),
                FSOperation::Backup(p) => String::from_str("DRY-RUN : backup ").concat(p.as_str()),
                FSOperation::CreateDirectory(p) => String::from_str(
                    "DRY-RUN : create directory ",
                ).concat(p.as_str()),
                FSOperation::Restore { backup, target } => String::from_str(
                    "DRY-RUN : restore ",
                ).concat(backup.as_str()).concat(" -> ").concat(target.as_str()),
                FSOperation::BreakDirectoryLink(p) => String::from_str(
                    "DRY-RUN : Break directory link ",
                ).concat(p.as_str()).concat(" and rebuild children links"),
                FSOperation::Delete(p) => if is_dir {
                    String::from_str("DRY-RUN : delete directory recursively ").concat(p.as_str())
                } else {
                    String::from_str("DRY-RUN : delete file ").concat(p.as_str())
                },
                FSOperation::CreateSymlink { source, target } => String::from_str(
                    "DRY-RUN : create symbolic link ",
                ).concat(source.as_str()).concat(" -> ").concat(target.as_str()),
            },
        ),
        Err(err) => {
            let msg = err.message();
            Err(String::from_str("DRY-RUN : Error ").concat(msg.as_str()))
        },
    }
}

/// Whether entry `i` is flagged as a directory: `dirs[i]` where it is given.
pub open spec fn flag_at(dirs: Seq<bool>, i: int) -> bool {
    0 <= i < dirs.len() && dirs[i]
}

/// The dry-run report of a whole plan: one line per entry, in plan order.
/// `dirs[i]` tells whether the path of entry `i`, where it is a `Delete`, is a
/// directory; an entry with no flag counts as a file.
pub fn dryrun_interpreter(operations: &Vector<Result<FSOperation, AppError>>, dirs: &Vec<bool>) -> (r: Vec<
    Result<String, String>,
>)
    ensures
        r@.len() == plan_items(*operations).len(),
        forall|i: int|
            0 <= i < r@.len() ==> dryrun_entry(plan_items(*operations)[i], flag_at(dirs@, i)) == (
            match #[trigger] r@[i] {
                Ok(l) => Ok::<Seq<char>, Seq<char>>(l@),
                Err(l) => Err(l@),
            }),
{
    let n = plan_len(operations);
    let mut lines: Vec<Result<String, String>> = Vec::new();
    let mut i: usize = 0;
    while i < n
        invariant
            n == plan_items(*operations).len(),
            i <= n,
            lines@.len() == i,
            forall|k: int|
                0 <= k < i ==> dryrun_entry(plan_items(*operations)[k], flag_at(dirs@, k)) == (
                match #[trigger] lines@[k] {
                    Ok(l) => Ok::<Seq<char>, Seq<char>>(l@),
                    Err(l) => Err(l@),
                }),
        decreases n - i,
    {
        let is_dir = i < dirs.len() && dirs[i];
        let line = dryrun_line(entry_at(operations, i), is_dir);
        lines.push(line);
        i = i + 1;
    }
    lines
}

/// The plan holds at least one error.
pub open spec fn has_error(plan: Seq<Result<OpModel, AppErrorModel>>) -> bool {
    exists|i: int| 0 <= i < plan.len() && (#[trigger] plan[i]) is Err
}

/// The operations of a plan in which no error stands, in order.
pub open spec fn plan_operations(plan: Seq<Result<OpModel, AppErrorModel>>) -> Seq<OpModel> {
    plan.map_values(|e: Result<OpModel, AppErrorModel>| e->Ok_0)
}

/// The operations to execute, in plan order; a plan that holds any error is
/// refused as a whole, so that nothing of it is applied.
pub fn operations_to_apply(operations: &Vector<Result<FSOperation, AppError>>) -> (r: Result<
    Vec<FSOperation>,
    AppError,
>)
    ensures
        has_error(plan_items(*operations)) <==> r is Err,
        r is Err ==> r->Err_0@ == AppErrorModel::Apply,
        r is Ok ==> ops_model(r->Ok_0@) == plan_operations(
            plan_items(*operations),
        ),
{
    let ghost plan = plan_items(*operations);
    let n = plan_len(operations);
    let mut ops: Vec<FSOperation> = Vec::new();
    let mut i: usize = 0;
    while i < n
        invariant
            n == plan.len(),
            plan == plan_items(*operations),
            i <= n,
            ops@.len() == i,
            forall|k: int| 0 <= k < i ==> (#[trigger] plan[k]) is Ok,
            ops_model(ops@) == plan_operations(plan).subrange(0, i as int),
        decreases n - i,
    {
        match entry_at(operations, i) {
            Ok(op) => {
                let ghost prev = ops@;
                let copy = op.duplicate();
                assert(plan[i as int] == Ok::<OpModel, AppErrorModel>(op@));
                ops.push(copy);
                let ghost want = plan_operations(plan).subrange(0, i + 1);
                assert forall|k: int| 0 <= k < i + 1 implies #[trigger] ops_model(ops@)[k] == want[k] by {
                    if k < i {
                        assert(ops@[k] == prev[k]);
                        assert(ops_model(prev)[k] == plan_operations(
                            plan,
                        ).subrange(0, i as int)[k]);
                    }
                }
                assert(ops_model(ops@) =~= want);
            },
            Err(_) => {
                assert(plan[i as int] is Err);
                return Err(AppError::ApplyError);
            },
        }
        i = i + 1;
    }
    assert(plan_operations(plan).subrange(0, n as int) =~= plan_operations(plan));
    Ok(ops)
}

/// The primitive steps that replace the directory link `directory`, which
/// resolves to `link_target`, by a real directory: delete the link, create the
/// directory, then link each child name of the former link target into it.
pub open spec fn break_link_steps(
    directory: Seq<char>,
    link_target: Seq<char>,
    names: Seq<Seq<char>>,
) -> Seq<OpModel> {
    seq![OpModel::Delete(directory), OpModel::CreateDirectory(directory)] + names.map_values(
        |name: Seq<char>|
            OpModel::CreateSymlink {
                source: join_model(link_target, name),
                target: join_model(directory, name),
            },
    )
}

/// The steps of a `BreakDirectoryLink` on `directory`, given what its link
/// resolves to and the names of the entries found there.
pub fn break_directory_link(directory: &str, link_target: &str, names: &Vec<String>) -> (r: Vec<
    FSOperation,
>)
    ensures
        ops_model(r@) == break_link_steps(
            directory@,
            link_target@,
            names@.map_values(|n: String| n@),
        ),
{
    let ghost want = break_link_steps(directory@, link_target@, names@.map_values(|n: String| n@));
    let mut steps: Vec<FSOperation> = Vec::new();
    steps.push(FSOperation::Delete(String::from_str(directory)));
    steps.push(FSOperation::CreateDirectory(String::from_str(directory)));
    let mut i: usize = 0;
    while i < names.len()
        invariant
            i <= names@.len(),
            steps@.len() == i + 2,
            want == break_link_steps(directory@, link_target@, names@.map_values(|n: String| n@)),
            ops_model(steps@) == want.subrange(0, i + 2),
        decreases names@.len() - i,
    {
        let name = names[i].as_str();
        let ghost prev = steps@;
        steps.push(
            FSOperation::CreateSymlink {
                source: join_path(link_target, name),
                target: join_path(directory, name),
            },
        );
        let ghost sub = want.subrange(0, i + 3);
        assert(want[i + 2] == steps@[i + 2]@);
        assert forall|k: int| 0 <= k < i + 3 implies #[trigger] ops_model(steps@)[k] == sub[k] by {
            if k < i + 2 {
                assert(steps@[k] == prev[k]);
                assert(ops_model(prev)[k] == want.subrange(0, i + 2)[k]);
            }
        }
        assert(ops_model(steps@) =~= sub);
        i = i + 1;
    }
    assert(want.subrange(0, i + 2) =~= want);
    steps
}

} // verus!
