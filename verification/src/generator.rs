//! Planning of key generation. The external key generation tool is invoked
//! by the surrounding application; this module validates the request and
//! computes, exactly, the argument list the tool must be given, the paths
//! the key pair will occupy, and the error when the request is invalid.

use vstd::prelude::*;
use vstd::string::StrSliceExecFns;
use vstd::string::StringExecFns;

use crate::paths::private_path;
use crate::paths::private_path_spec;
use crate::paths::public_path;
use crate::paths::public_path_spec;
use crate::strutil::str_eq;

verus! {

/// Why a key operation failed.
#[derive(Debug)]
pub enum KeyOpError {
    /// The request was rejected before any I/O: the key name is empty.
    InvalidName,
    /// The requested algorithm is not in the supported set.
    UnsupportedAlgorithm,
    /// A key of the requested name already exists in the store; a key is
    /// never silently overwritten.
    AlreadyExists,
    /// No key of the requested name exists.
    NotFound,
    /// The external generation tool was unavailable or exited non-zero;
    /// holds its captured diagnostic text.
    GenerationFailed(String),
    /// A filesystem create, write, permission or delete step failed.
    StorageError(String),
    /// Reading or writing the shared configuration file failed.
    ConfigSyncError(String),
}

/// The algorithms a key may be generated with.
pub open spec fn supported_algorithm(kt: Seq<char>) -> bool {
    kt == "rsa"@ || kt == "ed25519"@ || kt == "ecdsa"@
}

/// Whether `existing` holds a string equal to `name`.
pub open spec fn names_contain(existing: Seq<String>, name: Seq<char>) -> bool {
    exists|i: int| 0 <= i < existing.len() && (#[trigger] existing[i])@ == name
}

/// The comment embedded in the generated public key: the email when one is
/// given, else the plain comment, else nothing.
pub open spec fn comment_value_spec(comment: Option<Seq<char>>, email: Option<Seq<char>>) -> Seq<
    char,
> {
    match email {
        Some(e) => e,
        None => match comment {
            Some(c) => c,
            None => Seq::empty(),
        },
    }
}

/// The argument list for the external generation tool: the key type, the
/// mandated 4096-bit length for RSA, the comment when one is present, the
/// private key path, and an empty passphrase.
pub open spec fn gen_args_spec(kt: Seq<char>, cv: Seq<char>, priv_path: Seq<char>) -> Seq<
    Seq<char>,
> {
    seq!["-t"@, kt] + (if kt == "rsa"@ {
        seq!["-b"@, "4096"@]
    } else {
        Seq::empty()
    }) + (if cv.len() > 0 {
        seq!["-C"@, cv]
    } else {
        Seq::empty()
    }) + seq!["-f"@, priv_path, "-N"@, ""@]
}

/// The view of an optional borrowed string.
pub open spec fn opt_str_view(o: Option<&str>) -> Option<Seq<char>> {
    match o {
        Some(s) => Some(s@),
        None => None,
    }
}

/// A validated plan for generating one key.
pub struct GenPlan {
    /// Arguments for the external key generation tool.
    pub args: Vec<String>,
    /// Path of the private key file the tool will write.
    pub private_path: String,
    /// Path of the public key file the tool will write.
    pub public_path: String,
}

/// Validates a generation request against the store rooted at `root` and
/// plans the tool invocation. `existing` is the set of key names already
/// in the store. The request is rejected, before any I/O, exactly when the
/// name is empty, the algorithm is unsupported, or the name is taken; no
/// passphrase is ever set, a deliberate simplicity trade-off.
pub fn plan_generation(
    root: &str,
    name: &str,
    key_type: &str,
    comment: Option<&str>,
    email: Option<&str>,
    existing: &Vec<String>,
) -> (r: Result<GenPlan, KeyOpError>)
    ensures
        r.is_err() <==> (name@.len() == 0 || !supported_algorithm(key_type@) || names_contain(
            existing@,
            name@,
        )),
        name@.len() == 0 ==> r matches Err(KeyOpError::InvalidName),
        name@.len() > 0 && !supported_algorithm(key_type@) ==> r matches Err(
            KeyOpError::UnsupportedAlgorithm,
        ),
        name@.len() > 0 && supported_algorithm(key_type@) && names_contain(existing@, name@)
            ==> r matches Err(KeyOpError::AlreadyExists),
        r matches Ok(p) ==> p.args@.map_values(|a: String| a@) == gen_args_spec(
            key_type@,
            comment_value_spec(opt_str_view(comment), opt_str_view(email)),
            private_path_spec(root@, name@),
        ) && p.private_path@ == private_path_spec(root@, name@) && p.public_path@
            == public_path_spec(root@, name@),
{
    if name.unicode_len() == 0 {
        return Err(KeyOpError::InvalidName);
    }
    if !(str_eq(key_type, "rsa") || str_eq(key_type, "ed25519") || str_eq(key_type, "ecdsa")) {
        return Err(KeyOpError::UnsupportedAlgorithm);
    }
    let mut i: usize = 0;
    while i < existing.len()
        invariant
            0 <= i <= existing@.len(),
            name@.len() > 0,
            supported_algorithm(key_type@),
            forall|j: int| 0 <= j < i ==> (#[trigger] existing@[j])@ != name@,
        decreases existing@.len() - i,
    {
        if str_eq(existing[i].as_str(), name) {
            assert(names_contain(existing@, name@));
            return Err(KeyOpError::AlreadyExists);
        }
        i = i + 1;
    }
    assert(!names_contain(existing@, name@));

    let cv: String = match email {
        Some(e) => e.to_owned(),
        None => match comment {
            Some(c) => c.to_owned(),
            None => String::new(),
        },
    };
    let priv_path = private_path(root, name);
    let pub_path = public_path(root, name);

    let mut args: Vec<String> = Vec::new();
    args.push("-t".to_owned());
    args.push(key_type.to_owned());
    if str_eq(key_type, "rsa") {
        args.push("-b".to_owned());
        args.push("4096".to_owned());
    }
    if cv.as_str().unicode_len() > 0 {
        args.push("-C".to_owned());
        args.push(cv);
    }
    args.push("-f".to_owned());
    args.push(priv_path.clone());
    args.push("-N".to_owned());
    args.push("".to_owned());
    proof {
        assert(args@.map_values(|a: String| a@) =~= gen_args_spec(
            key_type@,
            comment_value_spec(opt_str_view(comment), opt_str_view(email)),
            private_path_spec(root@, name@),
        ));
    }
    Ok(GenPlan { args, private_path: priv_path, public_path: pub_path })
}

} // verus!
