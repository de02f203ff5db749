//! The key manager: one value per key store, rooted at an explicit
//! directory so that callers (and tests) choose where the store lives. It
//! bundles the planning, cataloguing and configuration-synchronizing logic
//! of the store; the surrounding application performs the filesystem and
//! subprocess steps those computations call for.

use vstd::prelude::*;

use crate::catalog::PubFileRecord;
use crate::catalog::SSHKey;
use crate::catalog::build_catalog;
use crate::catalog::catalog_spec;
use crate::config_sync::add_entry_spec;
use crate::config_sync::add_entry_text;
use crate::config_sync::remove_entry_spec;
use crate::config_sync::remove_entry_text;
use crate::generator::GenPlan;
use crate::generator::KeyOpError;
use crate::generator::comment_value_spec;
use crate::generator::gen_args_spec;
use crate::generator::names_contain;
use crate::generator::opt_str_view;
use crate::generator::plan_generation;
use crate::generator::supported_algorithm;
use crate::paths;
use crate::paths::config_path_spec;
use crate::paths::private_path_spec;
use crate::paths::public_path_spec;
use crate::security::SecurityManager;

verus! {

/// Manages the key store rooted at one directory and the shared
/// configuration file inside it.
pub struct KeyManager {
    /// Root directory of the key store.
    pub root: String,
    /// Gate for audit logging and (future) at-rest encryption.
    pub security: SecurityManager,
}

impl KeyManager {
    /// A manager for the store rooted at `root`.
    pub fn new(root: String) -> (r: KeyManager)
        ensures
            r.root@ == root@,
    {
        KeyManager { root, security: SecurityManager::new() }
    }

    /// The private key path of `name` in this store.
    pub fn private_path(&self, name: &str) -> (r: String)
        ensures
            r@ == private_path_spec(self.root@, name@),
    {
        paths::private_path(self.root.as_str(), name)
    }

    /// The public key path of `name` in this store.
    pub fn public_path(&self, name: &str) -> (r: String)
        ensures
            r@ == public_path_spec(self.root@, name@),
    {
        paths::public_path(self.root.as_str(), name)
    }

    /// The path of this store's shared configuration file.
    pub fn config_path(&self) -> (r: String)
        ensures
            r@ == config_path_spec(self.root@),
    {
        paths::config_path(self.root.as_str())
    }

    /// Validates a generation request and plans the tool invocation; see
    /// [`plan_generation`].
    pub fn plan_generation(
        &self,
        name: &str,
        key_type: &str,
        comment: Option<&str>,
        email: Option<&str>,
        existing: &Vec<String>,
    ) -> (r: Result<GenPlan, KeyOpError>)
        ensures
            r.is_err() <==> (name@.len() == 0 || !supported_algorithm(key_type@)
                || names_contain(existing@, name@)),
            name@.len() == 0 ==> r matches Err(KeyOpError::InvalidName),
            name@.len() > 0 && !supported_algorithm(key_type@) ==> r matches Err(
                KeyOpError::UnsupportedAlgorithm,
            ),
            name@.len() > 0 && supported_algorithm(key_type@) && names_contain(existing@, name@)
                ==> r matches Err(KeyOpError::AlreadyExists),
            r matches Ok(p) ==> p.args@.map_values(|a: String| a@) == gen_args_spec(
                key_type@,
                comment_value_spec(opt_str_view(comment), opt_str_view(email)),
                private_path_spec(self.root@, name@),
            ) && p.private_path@ == private_path_spec(self.root@, name@) && p.public_path@
                == public_path_spec(self.root@, name@),
    {
        self.security.log_operation("generate_key");
        plan_generation(self.root.as_str(), name, key_type, comment, email, existing)
    }

    /// The configuration text after inserting the routing entry of `name`:
    /// unchanged when the entry's block is already present, else the block
    /// appended.
    pub fn add_entry_text(&self, name: &str, content: &str) -> (r: String)
        ensures
            r@ == add_entry_spec(content@, private_path_spec(self.root@, name@)),
    {
        self.security.log_operation("add_entry");
        let path = self.private_path(name);
        add_entry_text(content, path.as_str())
    }

    /// The configuration text after removing the routing entry of `name`:
    /// the entry's whole block goes where it stands together, a bare
    /// identity line goes alone, and every other line is kept in order.
    pub fn remove_entry_text(&self, name: &str, content: &str) -> (r: String)
        ensures
            r@ == remove_entry_spec(content@, private_path_spec(self.root@, name@)),
    {
        self.security.log_operation("remove_entry");
        let path = self.private_path(name);
        remove_entry_text(content, path.as_str())
    }

    /// The listing of managed keys, derived from the store files the
    /// application found; see [`build_catalog`].
    pub fn list_keys(&self, records: &Vec<PubFileRecord>) -> (r: Vec<SSHKey>)
        ensures
            r@.map_values(|k: SSHKey| k@) == catalog_spec(
                records@.map_values(|rec: PubFileRecord| rec@),
            ),
    {
        build_catalog(records)
    }
}

} // verus!
