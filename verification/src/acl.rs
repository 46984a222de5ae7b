//! Access control list types: commands, scopes, permissions and permission
//! sets, together with the deny-wins access decision.

use vstd::prelude::*;

use crate::strcmp::texts_of;
use crate::value::Value;

verus! {

/// A platform a permission may be restricted to.
#[derive(Debug, Clone, Copy, PartialEq, Eq, Hash)]
pub enum Target {
    /// Linux.
    Linux,
    /// Windows.
    Windows,
    /// macOS.
    MacOs,
    /// Android.
    Android,
    /// iOS.
    Ios,
}

/// Possible errors while processing ACL files and manifests.
#[derive(Debug, Clone, PartialEq)]
pub enum Error {
    /// A build script environment variable was expected but not found.
    BuildVar(String),
    /// The links field in the crate manifest is not set.
    LinksMissing,
    /// The links field in the crate manifest does not match the crate name.
    LinksName,
    /// Failed to read a file.
    ReadFile(String),
    /// Failed to write a file.
    WriteFile(String),
    /// Failed to create a file.
    CreateFile(String),
    /// Failed to collect crate metadata.
    Metadata(String),
    /// A glob pattern failed to run.
    Glob(String),
    /// TOML input failed to parse.
    Toml(String),
    /// JSON input failed to parse.
    Json(String),
    /// A permission file had an unknown format.
    UnknownPermissionFormat(String),
    /// A capability file had an unknown format.
    UnknownCapabilityFormat(String),
    /// A permission referenced in a set was not found.
    SetPermissionNotFound {
        /// The referenced permission identifier.
        permission: String,
        /// The identifier of the set holding the reference.
        set: String,
    },
    /// A manifest key was looked up but does not exist.
    UnknownManifest {
        /// The requested manifest key.
        key: String,
        /// The available manifest keys.
        available: String,
    },
    /// A permission was looked up in a manifest that does not hold it.
    UnknownPermission {
        /// The manifest key.
        key: String,
        /// The requested permission identifier.
        permission: String,
    },
}

/// The outcome of holding a command identifier against a `Commands` value.
#[derive(Debug, Clone, Copy, PartialEq, Eq, Structural)]
pub enum AccessDecision {
    /// The command is explicitly allowed and not denied.
    Allow,
    /// The command is explicitly denied; denial dominates any allow entry.
    Deny,
    /// The command appears in neither list; the caller's default policy
    /// decides.
    Unspecified,
}

/// Mathematical model of [`Commands`].
pub struct CommandsModel {
    /// The allowed command identifiers.
    pub allow: Seq<Seq<char>>,
    /// The denied command identifiers.
    pub deny: Seq<Seq<char>>,
}

impl CommandsModel {
    /// The deny-wins decision rule: membership in `deny` denies the command
    /// even when it is also allowed; otherwise membership in `allow` permits
    /// it; a command in neither list is left to the caller's default policy.
    pub open spec fn decision(self, command: Seq<char>) -> AccessDecision {
        if self.deny.contains(command) {
            AccessDecision::Deny
        } else if self.allow.contains(command) {
            AccessDecision::Allow
        } else {
            AccessDecision::Unspecified
        }
    }
}

/// Allowed and denied commands inside a permission.
///
/// If a command appears in both `allow` and `deny`, it is denied.
#[derive(Debug, Default, PartialEq)]
pub struct Commands {
    /// Allowed command identifiers.
    pub allow: Vec<String>,
    /// Denied command identifiers, which take priority.
    pub deny: Vec<String>,
}

impl View for Commands {
    type V = CommandsModel;

    open spec fn view(&self) -> CommandsModel {
        CommandsModel { allow: texts_of(self.allow@), deny: texts_of(self.deny@) }
    }
}

impl Commands {
    /// Decides whether this access list permits the given command, with an
    /// explicit deny dominating any allow entry. Identifiers are compared by
    /// exact string equality only.
    pub fn decide(&self, command: &String) -> (r: AccessDecision)
        ensures
            r == self@.decision(command@),
    {
        if contains_text(&self.deny, command) {
            AccessDecision::Deny
        } else if contains_text(&self.allow, command) {
            AccessDecision::Allow
        } else {
            AccessDecision::Unspecified
        }
    }
}

/// Whether a list of strings holds the given string.
pub fn contains_text(list: &Vec<String>, needle: &String) -> (r: bool)
    ensures
        r == texts_of(list@).contains(needle@),
{
    let mut i: usize = 0;
    while i < list.len()
        invariant
            i <= list@.len(),
            forall|j: int| 0 <= j < i ==> texts_of(list@)[j] != needle@,
        decreases list@.len() - i,
    {
        assert(texts_of(list@)[i as int] == list@[i as int]@);
        if list[i] == *needle {
            return true;
        }
        i = i + 1;
    }
    false
}

/// An explicit deny always wins: a command in the deny list is denied no
/// matter what the allow list holds, including when both lists are the same.
pub proof fn lemma_deny_wins(commands: CommandsModel, command: Seq<char>)
    requires
        commands.deny.contains(command),
    ensures
        commands.decision(command) == AccessDecision::Deny,
{
}

/// Mathematical model of [`Scopes`].
pub struct ScopesModel {
    /// The allowed scope entries, if any were declared.
    pub allow: Option<Seq<Value>>,
    /// The denied scope entries, if any were declared.
    pub deny: Option<Seq<Value>>,
}

/// A restriction on the actions a command may perform, carried as opaque
/// allow and deny data interpreted by the command itself.
#[derive(Debug, Default, PartialEq)]
pub struct Scopes {
    /// Data defining what the scope allows.
    pub allow: Option<Vec<Value>>,
    /// Data defining what the scope denies.
    pub deny: Option<Vec<Value>>,
}

impl View for Scopes {
    type V = ScopesModel;

    open spec fn view(&self) -> ScopesModel {
        ScopesModel {
            allow: match self.allow {
                Some(v) => Some(v@),
                None => None,
            },
            deny: match self.deny {
                Some(v) => Some(v@),
                None => None,
            },
        }
    }
}

impl Scopes {
    /// True exactly when both lists are absent. A declared but zero-length
    /// list is not absent: it still counts as scope data.
    pub fn is_empty(&self) -> (r: bool)
        ensures
            r == (self@.allow is None && self@.deny is None),
    {
        self.allow.is_none() && self.deny.is_none()
    }
}

/// Mathematical model of [`Permission`].
pub struct PermissionModel {
    /// The declared version, if any; versions are positive.
    pub version: Option<u64>,
    /// The unique identifier.
    pub identifier: Seq<char>,
    /// The human-readable description, if any.
    pub description: Option<Seq<char>>,
    /// The command access list.
    pub commands: CommandsModel,
    /// The scope data.
    pub scope: ScopesModel,
    /// The platforms the permission is restricted to, if any.
    pub platforms: Option<Seq<Target>>,
}

impl PermissionModel {
    /// A declared version is a positive integer.
    pub open spec fn valid(self) -> bool {
        self.version matches Some(v) ==> v >= 1
    }
}

/// A named, versioned unit combining a command access list, a scope and an
/// optional platform restriction.
#[derive(Debug, PartialEq)]
pub struct Permission {
    /// The version of the permission; when present it is positive.
    pub version: Option<u64>,
    /// A unique identifier; the join key used everywhere else.
    pub identifier: String,
    /// Human-readable description of what the permission does.
    pub description: Option<String>,
    /// Allowed or denied commands when using this permission.
    pub commands: Commands,
    /// Allowed or denied scope data when using this permission.
    pub scope: Scopes,
    /// Target platforms this permission applies to. When absent, all
    /// platforms are affected.
    pub platforms: Option<Vec<Target>>,
}

impl View for Permission {
    type V = PermissionModel;

    open spec fn view(&self) -> PermissionModel {
        PermissionModel {
            version: self.version,
            identifier: self.identifier@,
            description: match self.description {
                Some(d) => Some(d@),
                None => None,
            },
            commands: self.commands@,
            scope: self.scope@,
            platforms: match self.platforms {
                Some(p) => Some(p@),
                None => None,
            },
        }
    }
}

/// Mathematical model of [`PermissionSet`].
pub struct PermissionSetModel {
    /// The unique identifier.
    pub identifier: Seq<char>,
    /// The description; required on a set.
    pub description: Seq<char>,
    /// The member permission identifiers.
    pub permissions: Seq<Seq<char>>,
}

/// A set of direct permissions grouped together under a new name.
#[derive(Debug, PartialEq)]
pub struct PermissionSet {
    /// A unique identifier for the set.
    pub identifier: String,
    /// Human-readable description of what the set does; unlike on a
    /// permission, it is required.
    pub description: String,
    /// The identifiers of all permissions (or sets) this set contains.
    pub permissions: Vec<String>,
}

impl View for PermissionSet {
    type V = PermissionSetModel;

    open spec fn view(&self) -> PermissionSetModel {
        PermissionSetModel {
            identifier: self.identifier@,
            description: self.description@,
            permissions: texts_of(self.permissions@),
        }
    }
}

} // verus!
