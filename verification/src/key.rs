//! Workspace identity: at most one live server instance exists per key.
//!
//! A key is the workspace root together with the command that launches the
//! language server. Reload matches keys whose workspace root is a prefix
//! of a given directory.

use vstd::prelude::*;

verus! {

/// Identity of a server instance: one workspace root and one launch
/// command (binary plus arguments). The registry keeps at most one live
/// instance per key.
pub struct WorkspaceKey {
    pub workspace_root: String,
    pub server: String,
    pub args: Vec<String>,
}

/// When two keys denote the same workspace: root, server binary and every
/// argument agree character for character.
pub open spec fn key_eq(a: WorkspaceKey, b: WorkspaceKey) -> bool {
    &&& a.workspace_root@ == b.workspace_root@
    &&& a.server@ == b.server@
    &&& a.args.deep_view() == b.args.deep_view()
}

/// Two keys equal to a third are equal to each other, either way round.
pub proof fn lemma_key_eq_same_target(a: WorkspaceKey, b: WorkspaceKey, t: WorkspaceKey)
    requires
        key_eq(a, t),
        key_eq(b, t),
    ensures
        key_eq(a, b),
        key_eq(b, a),
{
}

/// Compare two string lists element by element.
fn string_vec_eq(a: &Vec<String>, b: &Vec<String>) -> (r: bool)
    ensures
        r == (a.deep_view() == b.deep_view()),
{
    if a.len() != b.len() {
        proof {
            assert(a.deep_view().len() == a@.len());
            assert(b.deep_view().len() == b@.len());
        }
        return false;
    }
    let n: usize = a.len();
    let mut i: usize = 0;
    while i < n
        invariant
            n == a@.len() && n == b@.len(),
            i <= n,
            forall|k: int| 0 <= k < i ==> a@[k]@ == b@[k]@,
        decreases n - i,
    {
        if !(a[i] == b[i]) {
            proof {
                assert(a.deep_view()[i as int] == a@[i as int]@);
                assert(b.deep_view()[i as int] == b@[i as int]@);
            }
            return false;
        }
        i += 1;
    }
    proof {
        assert forall|k: int| 0 <= k < n implies a.deep_view()[k] == b.deep_view()[k] by {
            assert(a.deep_view()[k] == a@[k]@);
            assert(b.deep_view()[k] == b@[k]@);
        }
        assert(a.deep_view() =~= b.deep_view());
    }
    true
}

/// Copy a string list.
fn string_vec_clone(a: &Vec<String>) -> (r: Vec<String>)
    ensures
        r@ == a@,
{
    let n: usize = a.len();
    let mut r: Vec<String> = Vec::new();
    let mut i: usize = 0;
    while i < n
        invariant
            n == a@.len(),
            i <= n,
            r@.len() == i,
            forall|k: int| 0 <= k < i ==> r@[k] == a@[k],
        decreases n - i,
    {
        r.push(a[i].clone());
        i += 1;
    }
    proof {
        assert(r@ =~= a@);
    }
    r
}

impl WorkspaceKey {
    /// Decide key equality.
    pub fn same_as(&self, other: &WorkspaceKey) -> (r: bool)
        ensures
            r == key_eq(*self, *other),
    {
        self.workspace_root == other.workspace_root && self.server == other.server
            && string_vec_eq(&self.args, &other.args)
    }

    /// An exact copy of the key.
    pub fn duplicate(&self) -> (r: WorkspaceKey)
        ensures
            r.workspace_root == self.workspace_root,
            r.server == self.server,
            r.args@ == self.args@,
            key_eq(r, *self),
    {
        WorkspaceKey {
            workspace_root: self.workspace_root.clone(),
            server: self.server.clone(),
            args: string_vec_clone(&self.args),
        }
    }
}

/// Whether `root` is a prefix of the directory `dir`: reload targets every
/// instance whose workspace root lies above the directory it was issued
/// from.
pub open spec fn is_prefix_of(root: Seq<char>, dir: Seq<char>) -> bool {
    root.len() <= dir.len() && dir.subrange(0, root.len() as int) == root
}

/// Decide the prefix relation on two strings.
pub fn str_is_prefix_of(root: &String, dir: &String) -> (r: bool)
    ensures
        r == is_prefix_of(root@, dir@),
{
    let root_len: usize = root.unicode_len();
    let dir_len: usize = dir.unicode_len();
    if root_len > dir_len {
        return false;
    }
    let mut i: usize = 0;
    while i < root_len
        invariant
            root_len == root@.len(),
            dir_len == dir@.len(),
            root_len <= dir_len,
            i <= root_len,
            forall|k: int| 0 <= k < i ==> root@[k] == dir@[k],
        decreases root_len - i,
    {
        let a = root.as_str().get_char(i);
        let b = dir.as_str().get_char(i);
        if a != b {
            proof {
                assert(dir@.subrange(0, root@.len() as int)[i as int] == dir@[i as int]);
            }
            return false;
        }
        i += 1;
    }
    proof {
        assert(dir@.subrange(0, root@.len() as int) =~= root@);
    }
    true
}

} // verus!
