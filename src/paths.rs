use crate::inode_table::root_path;
use vstd::prelude::*;

verus! {

/// Relies on `String::push_str`: the text is appended at the end.
#[verifier::external_body]
pub(crate) fn push_str(s: String, t: &str) -> (r: String)
    ensures
        r@ == s@ + t@,
{
    let mut s = s;
    s.push_str(t);
    s
}

/// The path of the child `name` inside the folder `parent`.
pub open spec fn child_path_spec(parent: Seq<char>, name: Seq<char>) -> Seq<char> {
    if parent == root_path() {
        root_path() + name
    } else {
        parent + seq!['/'] + name
    }
}

/// The index of the last `/` in `p`, or -1 when there is none.
pub open spec fn last_slash(p: Seq<char>) -> int
    decreases p.len(),
{
    if p.len() == 0 {
        -1
    } else if p.last() == '/' {
        p.len() - 1
    } else {
        last_slash(p.drop_last())
    }
}

/// The folder that holds `p`: everything before its last `/`, or the root
/// when that is the leading one.
pub open spec fn parent_spec(p: Seq<char>) -> Seq<char> {
    if last_slash(p) <= 0 {
        root_path()
    } else {
        p.subrange(0, last_slash(p))
    }
}

/// Whether `path` is the mount root `/`.
pub fn is_root(path: &str) -> (r: bool)
    ensures
        r == (path@ == root_path()),
{
    if path.unicode_len() == 1 {
        let c = path.get_char(0);
        if c == '/' {
            assert(path@ =~= root_path());
            true
        } else {
            false
        }
    } else {
        false
    }
}

/// The root path as an owned string.
pub fn root_string() -> (r: String)
    ensures
        r@ == root_path(),
{
    let r = "/".to_owned();
    proof {
        reveal_strlit("/");
    }
    assert(r@ =~= root_path());
    r
}

/// The remote path under which the storage service knows a local path: the
/// same text.
pub fn to_egnyte_path(path: &str) -> (r: String)
    ensures
        r@ == path@,
{
    path.to_owned()
}

/// The path of the child `name` inside the folder `parent`.
pub fn child_path(parent: &str, name: &str) -> (r: String)
    ensures
        r@ == child_path_spec(parent@, name@),
{
    if is_root(parent) {
        push_str(root_string(), name)
    } else {
        let slash = "/";
        proof {
            reveal_strlit("/");
        }
        let with_slash = push_str(parent.to_owned(), slash);
        let r = push_str(with_slash, name);
        assert(slash@ =~= seq!['/']);
        r
    }
}

/// The folder that holds `path`.
pub fn parent_path(path: &str) -> (r: String)
    ensures
        r@ == parent_spec(path@),
{
    let n = path.unicode_len();
    let mut i: usize = n;
    while i > 0 && path.get_char(i - 1) != '/'
        invariant
            i <= n,
            n == path@.len(),
            forall|j: int| i <= j < n ==> path@[j] != '/',
        decreases i,
    {
        i = i - 1;
    }
    proof {
        lemma_last_slash_is_last(path@, i as int - 1);
    }
    if i <= 1 {
        root_string()
    } else {
        path.substring_char(0, i - 1).to_owned()
    }
}

proof fn lemma_last_slash_is_last(p: Seq<char>, k: int)
    requires
        -1 <= k < p.len(),
        k >= 0 ==> p[k] == '/',
        forall|j: int| k < j < p.len() ==> p[j] != '/',
    ensures
        last_slash(p) == k,
    decreases p.len(),
{
    if p.len() > 0 && p.last() != '/' {
        lemma_last_slash_is_last(p.drop_last(), k);
    }
}

} // verus!
