//! Plugin manifests and their aggregation.
//!
//! A plugin declares its permissions in one or more permission files. The
//! aggregator folds the files, in order, into one canonical manifest:
//! the last file to declare a default permission wins, and a later
//! declaration of a permission or set identifier overwrites an earlier one
//! in full. Table keys are kept in sorted order so the result is
//! deterministic.

use vstd::prelude::*;
use vstd::string::StringExecFns;

use crate::acl::{Error, Permission, PermissionModel, PermissionSet, PermissionSetModel};
use crate::idmap::{id_map_get, id_map_insert, id_map_of, sorted_keys, Keyed};
use crate::value::Value;

verus! {

impl Keyed for Permission {
    open spec fn skey(&self) -> Seq<char> {
        self.identifier@
    }

    fn key(&self) -> (r: &String) {
        &self.identifier
    }
}

impl Keyed for PermissionSet {
    open spec fn skey(&self) -> Seq<char> {
        self.identifier@
    }

    fn key(&self) -> (r: &String) {
        &self.identifier
    }
}

/// The views of every element of a list.
pub open spec fn views_of<T: View>(s: Seq<T>) -> Seq<T::V> {
    s.map_values(|t: T| t@)
}

/// Mathematical model of [`DefaultPermission`].
pub struct DefaultPermissionModel {
    /// The declared version, if any; versions are positive.
    pub version: Option<u64>,
    /// The description, if any.
    pub description: Option<Seq<char>>,
    /// The member permission identifiers.
    pub permissions: Seq<Seq<char>>,
}

/// The default permission set of a plugin: what the plugin grants when the
/// consumer asks for nothing explicit. Its identity is fixed to `"default"`.
#[derive(Debug, PartialEq)]
pub struct DefaultPermission {
    /// The version of the permission; when present it is positive.
    pub version: Option<u64>,
    /// Human-readable description of what the default permission does.
    pub description: Option<String>,
    /// All permissions this set contains.
    pub permissions: Vec<String>,
}

impl View for DefaultPermission {
    type V = DefaultPermissionModel;

    open spec fn view(&self) -> DefaultPermissionModel {
        DefaultPermissionModel {
            version: self.version,
            description: match self.description {
                Some(d) => Some(d@),
                None => None,
            },
            permissions: crate::strcmp::texts_of(self.permissions@),
        }
    }
}

impl DefaultPermissionModel {
    /// A declared version is a positive integer.
    pub open spec fn valid(self) -> bool {
        self.version matches Some(v) ==> v >= 1
    }
}

/// Mathematical model of [`PermissionFile`].
pub struct PermissionFileModel {
    /// The default permission, if this file declares one.
    pub default: Option<DefaultPermissionModel>,
    /// The permission sets this file declares.
    pub set: Seq<PermissionSetModel>,
    /// The inline permissions this file declares.
    pub permission: Seq<PermissionModel>,
}

impl PermissionFileModel {
    /// Every version the file declares is a positive integer.
    pub open spec fn valid(self) -> bool {
        &&& (self.default matches Some(d) ==> d.valid())
        &&& forall|i: int| 0 <= i < self.permission.len() ==> self.permission[i].valid()
    }
}

/// A permission file as authored by a plugin: an optional default
/// permission, a list of sets and a list of inline permissions. A plugin
/// may split its declarations across many files, each independently valid.
#[derive(Debug, PartialEq)]
pub struct PermissionFile {
    /// The default permission set for the plugin.
    pub default: Option<DefaultPermission>,
    /// A list of permission sets defined in this file.
    pub set: Vec<PermissionSet>,
    /// A list of inline permissions defined in this file.
    pub permission: Vec<Permission>,
}

impl View for PermissionFile {
    type V = PermissionFileModel;

    open spec fn view(&self) -> PermissionFileModel {
        PermissionFileModel {
            default: match self.default {
                Some(d) => Some(d@),
                None => None,
            },
            set: views_of(self.set@),
            permission: views_of(self.permission@),
        }
    }
}

/// Mathematical model of [`Manifest`].
pub struct ManifestModel {
    /// The materialized default permission set, if any file declared one.
    pub default_permission: Option<PermissionSetModel>,
    /// The permissions, keyed by identifier.
    pub permissions: Map<Seq<char>, PermissionModel>,
    /// The permission sets, keyed by identifier.
    pub permission_sets: Map<Seq<char>, PermissionSetModel>,
    /// The global scope schema, held verbatim.
    pub global_scope_schema: Option<Value>,
}

impl ManifestModel {
    /// Every version the manifest holds is a positive integer.
    pub open spec fn valid(self) -> bool {
        forall|k: Seq<char>|
            self.permissions.contains_key(k) ==> self.permissions[k].valid()
    }
}

/// The canonical, build-time-resolved permission and permission-set tables
/// of one plugin; constructed once by [`Manifest::new`] and read-only
/// thereafter.
#[derive(Debug, PartialEq)]
pub struct Manifest {
    /// The materialized default permission set, if any file declared one.
    pub default_permission: Option<PermissionSet>,
    /// The plugin's permissions, held in sorted identifier order.
    pub permissions: Vec<Permission>,
    /// The plugin's permission sets, held in sorted identifier order.
    pub permission_sets: Vec<PermissionSet>,
    /// The global scope schema, held verbatim.
    pub global_scope_schema: Option<Value>,
}

impl View for Manifest {
    type V = ManifestModel;

    open spec fn view(&self) -> ManifestModel {
        ManifestModel {
            default_permission: match self.default_permission {
                Some(d) => Some(d@),
                None => None,
            },
            permissions: id_map_of(self.permissions@),
            permission_sets: id_map_of(self.permission_sets@),
            global_scope_schema: self.global_scope_schema,
        }
    }
}

/// The default permission set materialized from a declared default: its
/// identifier is forced to `"default"` and a missing description falls back
/// to a fixed text.
pub open spec fn materialize_default(d: DefaultPermissionModel) -> PermissionSetModel {
    PermissionSetModel {
        identifier: "default"@,
        description: if d.description is Some {
            d.description->0
        } else {
            "Default plugin permissions."@
        },
        permissions: d.permissions,
    }
}

/// Folds inline permissions into a table in declaration order; a later
/// declaration of an identifier overwrites an earlier one in full.
pub open spec fn permissions_fold(
    m: Map<Seq<char>, PermissionModel>,
    ps: Seq<PermissionModel>,
) -> Map<Seq<char>, PermissionModel>
    decreases ps.len(),
{
    if ps.len() == 0 {
        m
    } else {
        permissions_fold(m.insert(ps.first().identifier, ps.first()), ps.drop_first())
    }
}

/// Folds permission sets into a table in declaration order, with the same
/// last-write-wins rule.
pub open spec fn sets_fold(
    m: Map<Seq<char>, PermissionSetModel>,
    ss: Seq<PermissionSetModel>,
) -> Map<Seq<char>, PermissionSetModel>
    decreases ss.len(),
{
    if ss.len() == 0 {
        m
    } else {
        sets_fold(m.insert(ss.first().identifier, ss.first()), ss.drop_first())
    }
}

/// One aggregation step: a declared default entirely replaces the current
/// one, and the file's permissions and sets are folded into the tables.
pub open spec fn apply_file_spec(m: ManifestModel, f: PermissionFileModel) -> ManifestModel {
    ManifestModel {
        default_permission: if f.default is Some {
            Some(materialize_default(f.default->0))
        } else {
            m.default_permission
        },
        permissions: permissions_fold(m.permissions, f.permission),
        permission_sets: sets_fold(m.permission_sets, f.set),
        global_scope_schema: m.global_scope_schema,
    }
}

/// Aggregation as a fold over the ordered list of files.
pub open spec fn aggregate_files_spec(
    m: ManifestModel,
    files: Seq<PermissionFileModel>,
) -> ManifestModel
    decreases files.len(),
{
    if files.len() == 0 {
        m
    } else {
        aggregate_files_spec(apply_file_spec(m, files.first()), files.drop_first())
    }
}

/// The manifest that aggregating the given files with the given global
/// scope schema must produce.
pub open spec fn aggregate_spec(
    files: Seq<PermissionFileModel>,
    global_scope_schema: Option<Value>,
) -> ManifestModel {
    aggregate_files_spec(
        ManifestModel {
            default_permission: None,
            permissions: Map::empty(),
            permission_sets: Map::empty(),
            global_scope_schema: global_scope_schema,
        },
        files,
    )
}

impl Manifest {
    /// The manifest tables are held in strictly sorted key order.
    pub open spec fn wf(self) -> bool {
        sorted_keys(self.permissions@) && sorted_keys(self.permission_sets@)
    }

    /// Creates a manifest from the given plugin permission files and global
    /// scope schema, folding the files in order.
    pub fn new(permission_files: Vec<PermissionFile>, global_scope_schema: Option<Value>) -> (r:
        Manifest)
        ensures
            r@ == aggregate_spec(views_of(permission_files@), global_scope_schema),
            r.wf(),
    {
        let ghost all_files = views_of(permission_files@);
        let mut files = permission_files;
        let mut manifest = Manifest {
            default_permission: None,
            permissions: Vec::new(),
            permission_sets: Vec::new(),
            global_scope_schema,
        };
        proof {
            assert(manifest@.permissions =~= Map::<Seq<char>, PermissionModel>::empty());
            assert(manifest@.permission_sets =~= Map::<Seq<char>, PermissionSetModel>::empty());
            assert(views_of(files@) == all_files);
        }
        while files.len() > 0
            invariant
                manifest.wf(),
                manifest.global_scope_schema == global_scope_schema,
                aggregate_files_spec(manifest@, views_of(files@)) == aggregate_spec(
                    all_files,
                    global_scope_schema,
                ),
            decreases files@.len(),
        {
            let ghost files_before = files@;
            let file = files.remove(0);
            let ghost fv = file@;
            let ghost entry = manifest@;
            proof {
                assert(files_before.remove(0) =~= files_before.drop_first());
                assert(views_of(files_before)[0] == fv);
                assert(views_of(files_before).drop_first() =~= views_of(files@));
                assert(aggregate_files_spec(entry, views_of(files_before))
                    == aggregate_files_spec(apply_file_spec(entry, fv), views_of(files@)));
            }
            let PermissionFile { default, set, permission } = file;

            match default {
                Some(d) => {
                    let ghost dv = d@;
                    let DefaultPermission { version: _, description, permissions } = d;
                    let description = match description {
                        Some(text) => text,
                        None => String::from_str("Default plugin permissions."),
                    };
                    manifest.default_permission = Some(
                        PermissionSet {
                            identifier: String::from_str("default"),
                            description,
                            permissions,
                        },
                    );
                    proof {
                        assert(fv.default == Some(dv));
                        assert(manifest.default_permission->0@ == materialize_default(dv));
                    }
                },
                None => {},
            }
            let ghost dp_now = manifest.default_permission;
            let ghost sets_now = manifest.permission_sets@;
            proof {
                assert(match dp_now {
                    Some(d) => Some(d@),
                    None => None,
                } == apply_file_spec(entry, fv).default_permission);
            }

            let mut perms = permission;
            proof {
                assert(views_of(perms@) == fv.permission);
            }
            while perms.len() > 0
                invariant
                    sorted_keys(manifest.permissions@),
                    manifest.default_permission == dp_now,
                    manifest.permission_sets@ == sets_now,
                    manifest.global_scope_schema == global_scope_schema,
                    permissions_fold(entry.permissions, fv.permission) == permissions_fold(
                        id_map_of(manifest.permissions@),
                        views_of(perms@),
                    ),
                decreases perms@.len(),
            {
                let ghost perms_before = perms@;
                let p = perms.remove(0);
                proof {
                    assert(perms_before.remove(0) =~= perms_before.drop_first());
                    assert(views_of(perms_before)[0] == p@);
                    assert(views_of(perms_before).drop_first() =~= views_of(perms@));
                    assert(p@.identifier == p.skey());
                }
                id_map_insert(&mut manifest.permissions, p);
            }
            proof {
                assert(views_of(perms@).len() == 0);
                assert(id_map_of(manifest.permissions@) == permissions_fold(
                    entry.permissions,
                    fv.permission,
                ));
            }

            let mut sets = set;
            proof {
                assert(views_of(sets@) == fv.set);
            }
            let ghost perm_table_now = manifest.permissions@;
            while sets.len() > 0
                invariant
                    sorted_keys(manifest.permission_sets@),
                    manifest.default_permission == dp_now,
                    manifest.permissions@ == perm_table_now,
                    manifest.global_scope_schema == global_scope_schema,
                    sets_fold(entry.permission_sets, fv.set) == sets_fold(
                        id_map_of(manifest.permission_sets@),
                        views_of(sets@),
                    ),
                decreases sets@.len(),
            {
                let ghost sets_before = sets@;
                let s = sets.remove(0);
                proof {
                    assert(sets_before.remove(0) =~= sets_before.drop_first());
                    assert(views_of(sets_before)[0] == s@);
                    assert(views_of(sets_before).drop_first() =~= views_of(sets@));
                    assert(s@.identifier == s.skey());
                }
                id_map_insert(&mut manifest.permission_sets, s);
            }
            proof {
                assert(views_of(sets@).len() == 0);
                assert(id_map_of(manifest.permission_sets@) == sets_fold(
                    entry.permission_sets,
                    fv.set,
                ));
                assert(manifest@ == apply_file_spec(entry, fv));
            }
        }
        proof {
            assert(views_of(files@).len() == 0);
        }
        manifest
    }

    /// Looks up a permission by identifier.
    pub fn get_permission<'a>(&'a self, identifier: &String) -> (r: Option<&'a Permission>)
        requires
            self.wf(),
        ensures
            match r {
                Some(p) => self@.permissions.contains_key(identifier@) && p@
                    == self@.permissions[identifier@],
                None => !self@.permissions.contains_key(identifier@),
            },
    {
        id_map_get(&self.permissions, identifier)
    }

    /// Looks up a permission set by identifier.
    pub fn get_permission_set<'a>(&'a self, identifier: &String) -> (r: Option<&'a PermissionSet>)
        requires
            self.wf(),
        ensures
            match r {
                Some(s) => self@.permission_sets.contains_key(identifier@) && s@
                    == self@.permission_sets[identifier@],
                None => !self@.permission_sets.contains_key(identifier@),
            },
    {
        id_map_get(&self.permission_sets, identifier)
    }

    /// Looks up a permission, reporting the manifest key it was expected in
    /// when it does not exist.
    pub fn find_permission<'a>(&'a self, key: &String, identifier: &String) -> (r: Result<
        &'a Permission,
        Error,
    >)
        requires
            self.wf(),
        ensures
            match r {
                Ok(p) => self@.permissions.contains_key(identifier@) && p@
                    == self@.permissions[identifier@],
                Err(e) => !self@.permissions.contains_key(identifier@) && e == (
                Error::UnknownPermission { key: *key, permission: *identifier }),
            },
    {
        match self.get_permission(identifier) {
            Some(p) => Ok(p),
            None => Err(
                Error::UnknownPermission { key: key.clone(), permission: identifier.clone() },
            ),
        }
    }

    /// True when the identifier resolves inside this manifest: a declared
    /// permission, a declared set, or the default set when one exists.
    pub open spec fn spec_known(self, id: Seq<char>) -> bool {
        self@.permissions.contains_key(id) || self@.permission_sets.contains_key(id) || (id
            == "default"@ && self@.default_permission is Some)
    }

    /// Whether the identifier resolves inside this manifest.
    pub fn knows_identifier(&self, identifier: &String) -> (r: bool)
        requires
            self.wf(),
        ensures
            r == self.spec_known(identifier@),
    {
        if id_map_get(&self.permissions, identifier).is_some() {
            true
        } else if id_map_get(&self.permission_sets, identifier).is_some() {
            true
        } else {
            *identifier == String::from_str("default") && self.default_permission.is_some()
        }
    }

    /// Checks that every identifier referenced by a declared permission set
    /// resolves inside this manifest; the first dangling reference is
    /// reported with the set it was found in.
    pub fn check_set_references(&self) -> (r: Result<(), Error>)
        requires
            self.wf(),
        ensures
            r is Ok <==> (forall|i: int, j: int|
                0 <= i < self.permission_sets@.len() && 0 <= j
                    < self.permission_sets@[i]@.permissions.len() ==> self.spec_known(
                    self.permission_sets@[i]@.permissions[j],
                )),
            r matches Err(e) ==> exists|i: int, j: int|
                {
                    &&& 0 <= i < self.permission_sets@.len()
                    &&& 0 <= j < self.permission_sets@[i]@.permissions.len()
                    &&& !self.spec_known(self.permission_sets@[i]@.permissions[j])
                    &&& e == (Error::SetPermissionNotFound {
                        permission: self.permission_sets@[i].permissions@[j],
                        set: self.permission_sets@[i].identifier,
                    })
                },
    {
        let mut i: usize = 0;
        while i < self.permission_sets.len()
            invariant
                self.wf(),
                i <= self.permission_sets@.len(),
                forall|a: int, b: int|
                    0 <= a < i && 0 <= b < self.permission_sets@[a]@.permissions.len()
                        ==> self.spec_known(self.permission_sets@[a]@.permissions[b]),
            decreases self.permission_sets@.len() - i,
        {
            let mut j: usize = 0;
            while j < self.permission_sets[i].permissions.len()
                invariant
                    self.wf(),
                    i < self.permission_sets@.len(),
                    j <= self.permission_sets@[i as int]@.permissions.len(),
                    forall|b: int|
                        0 <= b < j ==> self.spec_known(
                            self.permission_sets@[i as int]@.permissions[b],
                        ),
                decreases self.permission_sets@[i as int]@.permissions.len() - j,
            {
                let member = &self.permission_sets[i].permissions[j];
                assert(member@ == self.permission_sets@[i as int]@.permissions[j as int]);
                if !self.knows_identifier(member) {
                    return Err(
                        Error::SetPermissionNotFound {
                            permission: member.clone(),
                            set: self.permission_sets[i].identifier.clone(),
                        },
                    );
                }
                j = j + 1;
            }
            i = i + 1;
        }
        Ok(())
    }
}

/// The keys of a per-plugin manifest table, in order.
pub open spec fn manifest_keys(s: Seq<(String, Manifest)>) -> Seq<Seq<char>> {
    s.map_values(|entry: (String, Manifest)| entry.0@)
}

/// The keys joined with a comma between each pair.
pub open spec fn join_texts(keys: Seq<Seq<char>>) -> Seq<char>
    decreases keys.len(),
{
    if keys.len() == 0 {
        Seq::empty()
    } else if keys.len() == 1 {
        keys[0]
    } else {
        join_texts(keys.drop_last()) + ", "@ + keys.last()
    }
}

/// Joins the keys of a per-plugin manifest table for an error report.
fn join_keys(manifests: &Vec<(String, Manifest)>) -> (r: String)
    ensures
        r@ == join_texts(manifest_keys(manifests@)),
{
    let mut out = String::new();
    let mut i: usize = 0;
    while i < manifests.len()
        invariant
            i <= manifests@.len(),
            out@ == join_texts(manifest_keys(manifests@).take(i as int)),
        decreases manifests@.len() - i,
    {
        if i > 0 {
            out.append(", ");
        }
        out.append(manifests[i].0.as_str());
        proof {
            let keys = manifest_keys(manifests@);
            assert(keys.take(i as int + 1).drop_last() =~= keys.take(i as int));
            assert(keys.take(i as int + 1).last() == keys[i as int]);
            if i == 0 {
                assert(out@ =~= keys.take(1)[0]);
            }
        }
        i = i + 1;
    }
    proof {
        assert(manifest_keys(manifests@).take(manifests@.len() as int) =~= manifest_keys(
            manifests@,
        ));
    }
    out
}

/// Looks up one plugin's manifest in the per-plugin table; an unknown key
/// is reported together with the keys that exist.
pub fn find_manifest<'a>(manifests: &'a Vec<(String, Manifest)>, key: &String) -> (r: Result<
    &'a Manifest,
    Error,
>)
    ensures
        match r {
            Ok(m) => exists|i: int|
                0 <= i < manifests@.len() && manifests@[i].0@ == key@ && *m == manifests@[i].1,
            Err(e) => {
                &&& forall|i: int| 0 <= i < manifests@.len() ==> manifests@[i].0@ != key@
                &&& e matches Error::UnknownManifest { key: requested, available } && requested@
                    == key@ && available@ == join_texts(manifest_keys(manifests@))
            },
        },
{
    let mut i: usize = 0;
    while i < manifests.len()
        invariant
            i <= manifests@.len(),
            forall|j: int| 0 <= j < i ==> manifests@[j].0@ != key@,
        decreases manifests@.len() - i,
    {
        if crate::strcmp::text_equal(&manifests[i].0, key) {
            return Ok(&manifests[i].1);
        }
        i = i + 1;
    }
    Err(Error::UnknownManifest { key: key.clone(), available: join_keys(manifests) })
}

/// Folding the concatenation of two permission lists folds the parts in
/// order.
pub proof fn lemma_permissions_fold_append(
    m: Map<Seq<char>, PermissionModel>,
    a: Seq<PermissionModel>,
    b: Seq<PermissionModel>,
)
    ensures
        permissions_fold(m, a + b) == permissions_fold(permissions_fold(m, a), b),
    decreases a.len(),
{
    if a.len() == 0 {
        assert(a + b =~= b);
    } else {
        assert((a + b).first() == a.first());
        assert((a + b).drop_first() =~= a.drop_first() + b);
        lemma_permissions_fold_append(
            m.insert(a.first().identifier, a.first()),
            a.drop_first(),
            b,
        );
    }
}

/// Folding the concatenation of two set lists folds the parts in order.
pub proof fn lemma_sets_fold_append(
    m: Map<Seq<char>, PermissionSetModel>,
    a: Seq<PermissionSetModel>,
    b: Seq<PermissionSetModel>,
)
    ensures
        sets_fold(m, a + b) == sets_fold(sets_fold(m, a), b),
    decreases a.len(),
{
    if a.len() == 0 {
        assert(a + b =~= b);
    } else {
        assert((a + b).first() == a.first());
        assert((a + b).drop_first() =~= a.drop_first() + b);
        lemma_sets_fold_append(m.insert(a.first().identifier, a.first()), a.drop_first(), b);
    }
}

/// A key is in a folded table exactly when the base table holds it or some
/// folded permission declares it.
pub proof fn lemma_permissions_fold_contains(
    m: Map<Seq<char>, PermissionModel>,
    ps: Seq<PermissionModel>,
    k: Seq<char>,
)
    ensures
        permissions_fold(m, ps).contains_key(k) <==> (m.contains_key(k) || exists|i: int|
            0 <= i < ps.len() && ps[i].identifier == k),
    decreases ps.len(),
{
    if ps.len() > 0 {
        let m2 = m.insert(ps.first().identifier, ps.first());
        lemma_permissions_fold_contains(m2, ps.drop_first(), k);
        assert(forall|i: int| 0 <= i < ps.drop_first().len() ==> ps.drop_first()[i] == ps[i + 1]);
        if permissions_fold(m, ps).contains_key(k) {
            if !m.contains_key(k) {
                if m2.contains_key(k) && !(exists|i: int|
                    0 <= i < ps.drop_first().len() && ps.drop_first()[i].identifier == k) {
                    assert(ps[0].identifier == k);
                } else if exists|i: int|
                    0 <= i < ps.drop_first().len() && ps.drop_first()[i].identifier == k {
                    let i = choose|i: int|
                        0 <= i < ps.drop_first().len() && ps.drop_first()[i].identifier == k;
                    assert(ps[i + 1].identifier == k);
                }
            }
        }
        if exists|i: int| 0 <= i < ps.len() && ps[i].identifier == k {
            let i = choose|i: int| 0 <= i < ps.len() && ps[i].identifier == k;
            if i == 0 {
                assert(m2.contains_key(k));
            } else {
                assert(ps.drop_first()[i - 1].identifier == k);
            }
        }
    }
}

/// Folding permissions that never declare a key leaves that key's entry
/// alone.
pub proof fn lemma_permissions_fold_absent(
    m: Map<Seq<char>, PermissionModel>,
    ps: Seq<PermissionModel>,
    k: Seq<char>,
)
    requires
        forall|i: int| 0 <= i < ps.len() ==> ps[i].identifier != k,
    ensures
        permissions_fold(m, ps).contains_key(k) == m.contains_key(k),
        m.contains_key(k) ==> permissions_fold(m, ps)[k] == m[k],
    decreases ps.len(),
{
    if ps.len() > 0 {
        let m2 = m.insert(ps.first().identifier, ps.first());
        assert(forall|i: int| 0 <= i < ps.drop_first().len() ==> ps.drop_first()[i] == ps[i + 1]);
        lemma_permissions_fold_absent(m2, ps.drop_first(), k);
        assert(ps[0].identifier != k);
    }
}

/// A folded table sends each declared identifier to its last declaration.
pub proof fn lemma_permissions_fold_last(
    m: Map<Seq<char>, PermissionModel>,
    ps: Seq<PermissionModel>,
    i: int,
)
    requires
        0 <= i < ps.len(),
        forall|j: int| i < j < ps.len() ==> ps[j].identifier != ps[i].identifier,
    ensures
        permissions_fold(m, ps).contains_key(ps[i].identifier),
        permissions_fold(m, ps)[ps[i].identifier] == ps[i],
    decreases ps.len(),
{
    let m2 = m.insert(ps.first().identifier, ps.first());
    assert(forall|a: int| 0 <= a < ps.drop_first().len() ==> ps.drop_first()[a] == ps[a + 1]);
    if i == 0 {
        lemma_permissions_fold_absent(m2, ps.drop_first(), ps[0].identifier);
    } else {
        lemma_permissions_fold_last(m2, ps.drop_first(), i - 1);
        assert(ps.drop_first()[i - 1] == ps[i]);
    }
}

/// All permissions declared across an ordered list of files, in order.
pub open spec fn declared_permissions(files: Seq<PermissionFileModel>) -> Seq<PermissionModel>
    decreases files.len(),
{
    if files.len() == 0 {
        Seq::empty()
    } else {
        files.first().permission + declared_permissions(files.drop_first())
    }
}

/// The aggregated permission table is the fold of every declared
/// permission, in declaration order.
pub proof fn lemma_aggregate_permissions_as_fold(m: ManifestModel, files: Seq<PermissionFileModel>)
    ensures
        aggregate_files_spec(m, files).permissions == permissions_fold(
            m.permissions,
            declared_permissions(files),
        ),
    decreases files.len(),
{
    if files.len() > 0 {
        let m1 = apply_file_spec(m, files.first());
        lemma_aggregate_permissions_as_fold(m1, files.drop_first());
        lemma_permissions_fold_append(
            m.permissions,
            files.first().permission,
            declared_permissions(files.drop_first()),
        );
    }
}

/// An identifier is in the aggregated permission table exactly when some
/// file declares a permission with it.
pub proof fn lemma_aggregation_permission_keys(
    files: Seq<PermissionFileModel>,
    schema: Option<Value>,
    k: Seq<char>,
)
    ensures
        aggregate_spec(files, schema).permissions.contains_key(k) <==> exists|i: int|
            0 <= i < declared_permissions(files).len() && declared_permissions(files)[i].identifier
                == k,
{
    let init = ManifestModel {
        default_permission: None,
        permissions: Map::empty(),
        permission_sets: Map::empty(),
        global_scope_schema: schema,
    };
    lemma_aggregate_permissions_as_fold(init, files);
    lemma_permissions_fold_contains(init.permissions, declared_permissions(files), k);
}

/// Aggregation preserves declared permissions exactly: the entry for an
/// identifier is its last declaration across all files, kept verbatim, with
/// every field unchanged.
pub proof fn lemma_aggregation_preserves_permission(
    files: Seq<PermissionFileModel>,
    schema: Option<Value>,
    i: int,
)
    requires
        0 <= i < declared_permissions(files).len(),
        forall|j: int|
            i < j < declared_permissions(files).len() ==> declared_permissions(files)[j].identifier
                != declared_permissions(files)[i].identifier,
    ensures
        aggregate_spec(files, schema).permissions.contains_key(
            declared_permissions(files)[i].identifier,
        ),
        aggregate_spec(files, schema).permissions[declared_permissions(files)[i].identifier]
            == declared_permissions(files)[i],
{
    let init = ManifestModel {
        default_permission: None,
        permissions: Map::empty(),
        permission_sets: Map::empty(),
        global_scope_schema: schema,
    };
    lemma_aggregate_permissions_as_fold(init, files);
    lemma_permissions_fold_last(init.permissions, declared_permissions(files), i);
}

/// Folding valid permissions into a table of valid permissions keeps every
/// entry valid.
proof fn lemma_permissions_fold_valid(
    m: Map<Seq<char>, PermissionModel>,
    ps: Seq<PermissionModel>,
)
    requires
        forall|k: Seq<char>| m.contains_key(k) ==> m[k].valid(),
        forall|i: int| 0 <= i < ps.len() ==> ps[i].valid(),
    ensures
        forall|k: Seq<char>|
            permissions_fold(m, ps).contains_key(k) ==> permissions_fold(m, ps)[k].valid(),
    decreases ps.len(),
{
    if ps.len() > 0 {
        let m2 = m.insert(ps.first().identifier, ps.first());
        assert(ps[0].valid());
        assert(forall|k: Seq<char>| m2.contains_key(k) ==> m2[k].valid());
        assert(forall|i: int| 0 <= i < ps.drop_first().len() ==> ps.drop_first()[i] == ps[i + 1]);
        lemma_permissions_fold_valid(m2, ps.drop_first());
        assert(permissions_fold(m, ps) == permissions_fold(m2, ps.drop_first()));
    }
}

/// Every permission declared across valid files is valid.
proof fn lemma_declared_permissions_valid(files: Seq<PermissionFileModel>)
    requires
        forall|i: int| 0 <= i < files.len() ==> files[i].valid(),
    ensures
        forall|i: int|
            0 <= i < declared_permissions(files).len() ==> declared_permissions(files)[i].valid(),
    decreases files.len(),
{
    if files.len() > 0 {
        assert(forall|i: int|
            0 <= i < files.drop_first().len() ==> files.drop_first()[i] == files[i + 1]);
        lemma_declared_permissions_valid(files.drop_first());
        let head = files.first().permission;
        let tail = declared_permissions(files.drop_first());
        assert(files[0].valid());
        assert forall|i: int|
            0 <= i < declared_permissions(files).len() implies declared_permissions(
            files,
        )[i].valid() by {
            if i < head.len() {
                assert(declared_permissions(files)[i] == head[i]);
            } else {
                assert(declared_permissions(files)[i] == tail[i - head.len()]);
            }
        }
    }
}

/// Declared versions are positive, and aggregation keeps each stored
/// permission verbatim, so every version an aggregated manifest holds is
/// positive too.
pub proof fn lemma_aggregation_preserves_validity(
    files: Seq<PermissionFileModel>,
    schema: Option<Value>,
)
    requires
        forall|i: int| 0 <= i < files.len() ==> files[i].valid(),
    ensures
        aggregate_spec(files, schema).valid(),
{
    let init = ManifestModel {
        default_permission: None,
        permissions: Map::empty(),
        permission_sets: Map::empty(),
        global_scope_schema: schema,
    };
    lemma_aggregate_permissions_as_fold(init, files);
    lemma_declared_permissions_valid(files);
    lemma_permissions_fold_valid(init.permissions, declared_permissions(files));
}

/// Aggregation is order-sensitive and last-write-wins: when two files each
/// declare a permission under the same identifier, the aggregated entry is
/// the second file's declaration exactly, never a merge of the two.
pub proof fn lemma_last_write_wins(
    fa: PermissionFileModel,
    fb: PermissionFileModel,
    schema: Option<Value>,
    pa: PermissionModel,
    pb: PermissionModel,
)
    requires
        fa.permission == seq![pa],
        fb.permission == seq![pb],
        pa.identifier == pb.identifier,
    ensures
        aggregate_spec(seq![fa, fb], schema).permissions.contains_key(pb.identifier),
        aggregate_spec(seq![fa, fb], schema).permissions[pb.identifier] == pb,
{
    let files = seq![fa, fb];
    assert(files.drop_first() =~= seq![fb]);
    assert(seq![fb].drop_first() =~= Seq::<PermissionFileModel>::empty());
    assert(declared_permissions(Seq::<PermissionFileModel>::empty())
        == Seq::<PermissionModel>::empty());
    assert(declared_permissions(seq![fb]) == fb.permission + declared_permissions(
        seq![fb].drop_first(),
    ));
    assert(declared_permissions(seq![fb]) =~= seq![pb]);
    assert(declared_permissions(files) == fa.permission + declared_permissions(
        files.drop_first(),
    ));
    assert(declared_permissions(files) =~= seq![pa, pb]);
    lemma_aggregation_preserves_permission(files, schema, 1);
}

/// Aggregating the concatenation of two lists of files aggregates the
/// parts in order.
pub proof fn lemma_aggregate_files_append(
    m: ManifestModel,
    a: Seq<PermissionFileModel>,
    b: Seq<PermissionFileModel>,
)
    ensures
        aggregate_files_spec(m, a + b) == aggregate_files_spec(aggregate_files_spec(m, a), b),
    decreases a.len(),
{
    if a.len() == 0 {
        assert(a + b =~= b);
    } else {
        assert((a + b).first() == a.first());
        assert((a + b).drop_first() =~= a.drop_first() + b);
        lemma_aggregate_files_append(apply_file_spec(m, a.first()), a.drop_first(), b);
    }
}

/// The default that two files fed in order leave behind: the second
/// file's when it declares one, else the first file's.
pub open spec fn later_default(
    first: Option<DefaultPermissionModel>,
    second: Option<DefaultPermissionModel>,
) -> Option<DefaultPermissionModel> {
    if second is Some {
        second
    } else {
        first
    }
}

/// Processing one file is the same as processing its two halves in order,
/// when the halves split its set and permission lists and its default is
/// what the two halves leave behind.
proof fn lemma_split_file(
    m: ManifestModel,
    f: PermissionFileModel,
    f1: PermissionFileModel,
    f2: PermissionFileModel,
)
    requires
        f.default == later_default(f1.default, f2.default),
        f.set == f1.set + f2.set,
        f.permission == f1.permission + f2.permission,
    ensures
        apply_file_spec(m, f) == apply_file_spec(apply_file_spec(m, f1), f2),
{
    lemma_permissions_fold_append(m.permissions, f1.permission, f2.permission);
    lemma_sets_fold_append(m.permission_sets, f1.set, f2.set);
}

/// Splitting one file's declarations across two files, fed in the same
/// order and position, yields an identical manifest.
pub proof fn lemma_aggregation_split(
    pre: Seq<PermissionFileModel>,
    f: PermissionFileModel,
    f1: PermissionFileModel,
    f2: PermissionFileModel,
    post: Seq<PermissionFileModel>,
    schema: Option<Value>,
)
    requires
        f.default == later_default(f1.default, f2.default),
        f.set == f1.set + f2.set,
        f.permission == f1.permission + f2.permission,
    ensures
        aggregate_spec(pre + seq![f] + post, schema) == aggregate_spec(
            pre + seq![f1, f2] + post,
            schema,
        ),
{
    let init = ManifestModel {
        default_permission: None,
        permissions: Map::empty(),
        permission_sets: Map::empty(),
        global_scope_schema: schema,
    };
    assert(pre + seq![f] + post =~= pre + (seq![f] + post));
    assert(pre + seq![f1, f2] + post =~= pre + (seq![f1, f2] + post));
    lemma_aggregate_files_append(init, pre, seq![f] + post);
    lemma_aggregate_files_append(init, pre, seq![f1, f2] + post);
    let mid = aggregate_files_spec(init, pre);
    lemma_aggregate_files_append(mid, seq![f], post);
    lemma_aggregate_files_append(mid, seq![f1, f2], post);
    assert(seq![f].drop_first() =~= Seq::<PermissionFileModel>::empty());
    assert(aggregate_files_spec(mid, seq![f]) == aggregate_files_spec(
        apply_file_spec(mid, f),
        seq![f].drop_first(),
    ));
    assert(aggregate_files_spec(apply_file_spec(mid, f), Seq::<PermissionFileModel>::empty())
        == apply_file_spec(mid, f));
    assert(seq![f1, f2].drop_first() =~= seq![f2]);
    assert(seq![f2].drop_first() =~= Seq::<PermissionFileModel>::empty());
    assert(aggregate_files_spec(mid, seq![f1, f2]) == aggregate_files_spec(
        apply_file_spec(mid, f1),
        seq![f1, f2].drop_first(),
    ));
    assert(aggregate_files_spec(apply_file_spec(mid, f1), seq![f2]) == aggregate_files_spec(
        apply_file_spec(apply_file_spec(mid, f1), f2),
        seq![f2].drop_first(),
    ));
    assert(aggregate_files_spec(
        apply_file_spec(apply_file_spec(mid, f1), f2),
        Seq::<PermissionFileModel>::empty(),
    ) == apply_file_spec(apply_file_spec(mid, f1), f2));
    lemma_split_file(mid, f, f1, f2);
}

/// A permission file with no declarations.
pub open spec fn empty_file() -> PermissionFileModel {
    PermissionFileModel { default: None, set: Seq::empty(), permission: Seq::empty() }
}

/// One file holding all of the fragments' declarations in order: the sets
/// and permissions concatenated, and the last declared default.
pub open spec fn concat_files(fragments: Seq<PermissionFileModel>) -> PermissionFileModel
    decreases fragments.len(),
{
    if fragments.len() == 0 {
        empty_file()
    } else {
        let rest = concat_files(fragments.drop_first());
        PermissionFileModel {
            default: later_default(fragments.first().default, rest.default),
            set: fragments.first().set + rest.set,
            permission: fragments.first().permission + rest.permission,
        }
    }
}

/// Splitting one file's declarations across any number of files, fed in
/// the same order and position, yields an identical manifest.
pub proof fn lemma_aggregation_split_many(
    pre: Seq<PermissionFileModel>,
    fragments: Seq<PermissionFileModel>,
    post: Seq<PermissionFileModel>,
    schema: Option<Value>,
)
    requires
        fragments.len() > 0,
    ensures
        aggregate_spec(pre + seq![concat_files(fragments)] + post, schema) == aggregate_spec(
            pre + fragments + post,
            schema,
        ),
    decreases fragments.len(),
{
    let f1 = fragments.first();
    let rest = fragments.drop_first();
    if fragments.len() == 1 {
        assert(concat_files(rest) == empty_file());
        assert(f1.set + Seq::<PermissionSetModel>::empty() =~= f1.set);
        assert(f1.permission + Seq::<PermissionModel>::empty() =~= f1.permission);
        assert(concat_files(fragments) == f1);
        assert(pre + seq![concat_files(fragments)] + post =~= pre + fragments + post);
    } else {
        let joined = concat_files(rest);
        lemma_aggregation_split(pre, concat_files(fragments), f1, joined, post, schema);
        lemma_aggregation_split_many(pre + seq![f1], rest, post, schema);
        assert(pre + seq![f1, joined] + post =~= (pre + seq![f1]) + seq![joined] + post);
        assert(pre + fragments + post =~= (pre + seq![f1]) + rest + post);
    }
}

/// Aggregating two files that each declare a default keeps the second
/// file's default verbatim: its description (or the fixed fallback when it
/// has none) and its permission list, under the forced identifier
/// `"default"`.
pub proof fn lemma_default_replacement(
    fa: PermissionFileModel,
    fb: PermissionFileModel,
    schema: Option<Value>,
)
    requires
        fa.default is Some,
        fb.default is Some,
    ensures
        aggregate_spec(seq![fa, fb], schema).default_permission == Some(
            materialize_default(fb.default->0),
        ),
        aggregate_spec(seq![fa, fb], schema).default_permission->0.identifier == "default"@,
        aggregate_spec(seq![fa, fb], schema).default_permission->0.permissions
            == fb.default->0.permissions,
{
    let files = seq![fa, fb];
    let init = ManifestModel {
        default_permission: None,
        permissions: Map::empty(),
        permission_sets: Map::empty(),
        global_scope_schema: schema,
    };
    assert(files.drop_first() =~= seq![fb]);
    assert(seq![fb].drop_first() =~= Seq::<PermissionFileModel>::empty());
    let m1 = apply_file_spec(init, fa);
    assert(aggregate_files_spec(init, files) == aggregate_files_spec(m1, files.drop_first()));
    let m2 = apply_file_spec(m1, fb);
    assert(aggregate_files_spec(m1, seq![fb]) == aggregate_files_spec(
        m2,
        seq![fb].drop_first(),
    ));
    assert(aggregate_files_spec(m2, Seq::<PermissionFileModel>::empty()) == m2);
}

} // verus!
