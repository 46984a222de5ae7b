//! The decision part of a project migration.
//!
//! A migration rewrites the project's configuration, manifest and frontend
//! on disk and reports which plugins it moved out of the core; each of
//! those plugins must then be added to the project. Planning those add
//! steps is the part of the command that computes, so it stands here; the
//! rewriting itself is I/O and stays with the caller.

use vstd::prelude::*;

verus! {

/// Options for one plugin-add step of a migration.
#[derive(Debug, PartialEq)]
pub struct AddPluginOptions {
    /// The plugin to add.
    pub plugin: String,
    /// The git branch to install from, if any.
    pub branch: Option<String>,
    /// The git tag to install from, if any.
    pub tag: Option<String>,
    /// The git revision to install from, if any.
    pub rev: Option<String>,
}

/// Plans the plugin-add steps that finish a migration: each migrated
/// plugin is added, in declaration order, with no branch, tag or revision
/// pinned.
pub fn command(migrated_plugins: &Vec<String>) -> (r: Vec<AddPluginOptions>)
    ensures
        r@.len() == migrated_plugins@.len(),
        forall|i: int|
            0 <= i < r@.len() ==> r@[i].plugin == migrated_plugins@[i] && r@[i].branch is None
                && r@[i].tag is None && r@[i].rev is None,
{
    let mut plans: Vec<AddPluginOptions> = Vec::new();
    let mut i: usize = 0;
    while i < migrated_plugins.len()
        invariant
            plans@.len() == i,
            i <= migrated_plugins@.len(),
            forall|j: int|
                0 <= j < i ==> plans@[j].plugin == migrated_plugins@[j] && plans@[j].branch
                    is None && plans@[j].tag is None && plans@[j].rev is None,
        decreases migrated_plugins@.len() - i,
    {
        plans.push(
            AddPluginOptions {
                plugin: migrated_plugins[i].clone(),
                branch: None,
                tag: None,
                rev: None,
            },
        );
        i = i + 1;
    }
    plans
}

} // verus!
