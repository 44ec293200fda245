//! Path arithmetic on plain strings, with `/` as the separator.
use vstd::prelude::*;

verus! {

/// Index of the last `/` in `p`, or -1 where there is none.
pub open spec fn last_slash(p: Seq<char>) -> int
    decreases p.len(),
{
    if p.len() == 0 {
        -1
    } else if p.last() == '/' {
        p.len() - 1
    } else {
        last_slash(p.drop_last())
    }
}

/// The final component of `p`.
pub open spec fn file_name(p: Seq<char>) -> Seq<char> {
    p.subrange(last_slash(p) + 1, p.len() as int)
}

/// Everything before the final component of `p`, separator included.
pub open spec fn parent_prefix(p: Seq<char>) -> Seq<char> {
    p.subrange(0, last_slash(p) + 1)
}

/// `p` ends in a component that names an entry: not empty, `.` or `..`.
pub open spec fn has_file_name(p: Seq<char>) -> bool {
    &&& p.len() > 0
    &&& p.last() != '/'
    &&& file_name(p) != seq!['.']
    &&& file_name(p) != seq!['.', '.']
}

/// Where the backup of `p` lives: a sibling of `p` named `backup-` followed
/// by the file name of `p`.
pub open spec fn backup_path_of(p: Seq<char>) -> Seq<char> {
    parent_prefix(p) + "backup-"@ + file_name(p)
}

/// `name` appended to `dir` as one more path component; with no separator
/// added where `dir` is empty or already ends in one.
pub open spec fn join_model(dir: Seq<char>, name: Seq<char>) -> Seq<char> {
    if dir.len() == 0 || dir.last() == '/' {
        dir + name
    } else {
        dir + seq!['/'] + name
    }
}

/// The last separator lies inside the path, and the backup path is longer
/// than the path it is derived from.
pub(crate) proof fn lemma_backup_path_longer(p: Seq<char>)
    ensures
        -1 <= last_slash(p) < p.len(),
        backup_path_of(p).len() > p.len(),
    decreases p.len(),
{
    if p.len() > 0 {
        lemma_backup_path_longer(p.drop_last());
    }
    reveal_strlit("backup-");
}

proof fn lemma_last_slash(p: Seq<char>, i: int)
    requires
        0 <= i <= p.len(),
        forall|j: int| i <= j < p.len() ==> p[j] != '/',
        i == 0 || p[i - 1] == '/',
    ensures
        last_slash(p) == i - 1,
    decreases p.len(),
{
    if p.len() > 0 && p.last() != '/' {
        if i == p.len() {
            assert(p[i - 1] == p.last());
        } else {
            let q = p.drop_last();
            assert forall|j: int| i <= j < q.len() implies q[j] != '/' by {
                assert(q[j] == p[j]);
            }
            if i > 0 {
                assert(q[i - 1] == p[i - 1]);
            }
            lemma_last_slash(q, i);
        }
    } else if p.len() > 0 {
        assert(p[p.len() - 1] == p.last());
    }
}

/// The position just after the last `/` of `path`, or 0 where there is none.
fn name_start(path: &str) -> (r: usize)
    ensures
        r as int == last_slash(path@) + 1,
        r <= path@.len(),
{
    let n = path.unicode_len();
    let mut i: usize = n;
    while i > 0 && path.get_char(i - 1) != '/'
        invariant
            i <= n,
            n == path@.len(),
            forall|j: int| i <= j < n ==> path@[j] != '/',
        decreases i,
    {
        i = i - 1;
    }
    proof {
        lemma_last_slash(path@, i as int);
    }
    i
}

/// Whether a backup path can be derived from `path`: it ends in a
/// component that names an entry.
pub fn path_has_file_name(path: &str) -> (r: bool)
    ensures
        r == has_file_name(path@),
{
    let n = path.unicode_len();
    if n == 0 || path.get_char(n - 1) == '/' {
        return false;
    }
    let k = name_start(path);
    let ghost name = file_name(path@);
    assert(name.len() == n - k);
    let dot = n - k == 1 && path.get_char(k) == '.';
    let dots = n - k == 2 && path.get_char(k) == '.' && path.get_char(k + 1) == '.';
    proof {
        if n - k == 1 {
            assert(name[0] == path@[k as int]);
            if dot {
                assert(name =~= seq!['.']);
            }
        }
        if n - k == 2 {
            assert(name[0] == path@[k as int]);
            assert(name[1] == path@[k + 1]);
            if dots {
                assert(name =~= seq!['.', '.']);
            }
        }
        if !dot && name == seq!['.'] {
            assert(name[0] == '.');
        }
        if !dots && name == seq!['.', '.'] {
            assert(name[0] == '.' && name[1] == '.');
        }
    }
    !dot && !dots
}

/// The path under which the previous content of `path` is kept while a link
/// stands in its place.
pub fn build_backup_path(path: &str) -> (r: String)
    requires
        has_file_name(path@),
    ensures
        r@ == backup_path_of(path@),
{
    let n = path.unicode_len();
    let k = name_start(path);
    let parent = path.substring_char(0, k);
    let name = path.substring_char(k, n);
    String::from_str(parent).concat("backup-").concat(name)
}

/// `name` appended to `dir` as one more path component.
pub fn join_path(dir: &str, name: &str) -> (r: String)
    ensures
        r@ == join_model(dir@, name@),
{
    let n = dir.unicode_len();
    if n == 0 || dir.get_char(n - 1) == '/' {
        String::from_str(dir).concat(name)
    } else {
        proof {
            reveal_strlit("/");
        }
        String::from_str(dir).concat("/").concat(name)
    }
}

} // verus!
