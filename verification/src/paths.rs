//! Locations of the files the key store owns: for a store rooted at a
//! directory, the private key file of a key, its public counterpart, and
//! the shared configuration file. Also the POSIX permission modes mandated
//! for those files.

use vstd::prelude::*;
use vstd::string::StringExecFns;

verus! {

/// Permission mode of a private key file: read and write for the owner
/// only.
pub const PRIVATE_KEY_MODE: u32 = 0o600;

/// Permission mode of a public key file: write for the owner, read for
/// everyone.
pub const PUBLIC_KEY_MODE: u32 = 0o644;

/// Permission mode of the shared configuration file after any write.
pub const CONFIG_FILE_MODE: u32 = 0o600;

/// The mode grants group and other neither read, write nor execute.
pub open spec fn denies_group_other(mode: u32) -> bool {
    mode & 0o077 == 0
}

/// The mandated private key mode denies every group/other permission bit,
/// and so does the configuration file mode.
pub proof fn lemma_locked_down_modes()
    ensures
        denies_group_other(PRIVATE_KEY_MODE),
        denies_group_other(CONFIG_FILE_MODE),
{
    assert(0o600u32 & 0o077 == 0) by (bit_vector);
}

/// The absolute path of the private key file of `name` in the store rooted
/// at `root`.
pub open spec fn private_path_spec(root: Seq<char>, name: Seq<char>) -> Seq<char> {
    root + seq!['/'] + name
}

/// The absolute path of the public key file of `name`: the private path
/// with the public suffix.
pub open spec fn public_path_spec(root: Seq<char>, name: Seq<char>) -> Seq<char> {
    private_path_spec(root, name) + seq!['.', 'p', 'u', 'b']
}

/// The absolute path of the shared configuration file of the store.
pub open spec fn config_path_spec(root: Seq<char>) -> Seq<char> {
    root + seq!['/', 'c', 'o', 'n', 'f', 'i', 'g']
}

/// Within one store, distinct key names have distinct private key paths,
/// even when one name is a prefix of the other.
pub proof fn lemma_private_path_injective(root: Seq<char>, n1: Seq<char>, n2: Seq<char>)
    requires
        n1 != n2,
    ensures
        private_path_spec(root, n1) != private_path_spec(root, n2),
{
    if private_path_spec(root, n1) == private_path_spec(root, n2) {
        let pre = root + seq!['/'];
        assert(pre + n1 == pre + n2);
        assert((pre + n1).len() == pre.len() + n1.len());
        assert((pre + n2).len() == pre.len() + n2.len());
        assert(n1 =~= n2) by {
            assert(forall|i: int|
                0 <= i < n1.len() ==> n1[i] == (pre + n1)[pre.len() + i] && n2[i] == (pre
                    + n2)[pre.len() + i]);
        }
    }
}

/// A private key path built from a root and a name without `'\n'` holds
/// no `'\n'` itself.
pub proof fn lemma_private_path_no_newline(root: Seq<char>, name: Seq<char>)
    requires
        !root.contains('\n'),
        !name.contains('\n'),
    ensures
        !private_path_spec(root, name).contains('\n'),
{
    let p = private_path_spec(root, name);
    if p.contains('\n') {
        let j = choose|j: int| 0 <= j < p.len() && p[j] == '\n';
        if j < root.len() {
            assert(root[j] == '\n');
        } else if j == root.len() {
            assert(p[j] == '/');
        } else {
            assert(name[j - root.len() - 1] == '\n');
        }
    }
}

/// Builds the private key path of `name` under `root`.
pub fn private_path(root: &str, name: &str) -> (r: String)
    ensures
        r@ == private_path_spec(root@, name@),
{
    let mut r = root.to_owned();
    r.append("/");
    r.append(name);
    proof {
        reveal_strlit("/");
        assert(r@ =~= private_path_spec(root@, name@));
    }
    r
}

/// Builds the public key path of `name` under `root`.
pub fn public_path(root: &str, name: &str) -> (r: String)
    ensures
        r@ == public_path_spec(root@, name@),
{
    let mut r = private_path(root, name);
    r.append(".pub");
    proof {
        reveal_strlit(".pub");
        assert(r@ =~= public_path_spec(root@, name@));
    }
    r
}

/// Builds the configuration file path of the store rooted at `root`.
pub fn config_path(root: &str) -> (r: String)
    ensures
        r@ == config_path_spec(root@),
{
    let mut r = root.to_owned();
    r.append("/config");
    proof {
        reveal_strlit("/config");
        assert(r@ =~= config_path_spec(root@));
    }
    r
}

} // verus!
