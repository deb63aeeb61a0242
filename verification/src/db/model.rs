//! The local database as a mathematical value, and what its operations make
//! of it.
//!
//! The database is a sequence of keyed records, in the order in which the
//! keys first came in. A mod stands under its unique name, a folder of which
//! no mod could be made stands under its path.

use crate::db::load::{load_message, read_outcome, LoadErrorView, ManifestFileView};
use crate::mods::local::{FailedModView, LocalModView, UnsafeLocalModView};
use crate::paths::{parent_path, stripped_path};
use crate::table::{keys_of, value_at, with_entry};
use crate::validate::ModValidationErrorView;
use vstd::prelude::*;

verus! {

/// The mod that stands under `key`, if one does.
pub open spec fn valid_at(db: Seq<(Seq<char>, UnsafeLocalModView)>, key: Seq<char>) -> Option<
    LocalModView,
> {
    match value_at(db, key) {
        Some(UnsafeLocalModView::Valid(m)) => Some(m),
        _ => None,
    }
}

/// The mod of a record, if the record is one of a mod.
pub open spec fn valid_part(record: UnsafeLocalModView) -> Option<LocalModView> {
    match record {
        UnsafeLocalModView::Valid(m) => Some(m),
        UnsafeLocalModView::Invalid(_) => None,
    }
}

/// The mods of the database, in its order.
pub open spec fn valid_records(db: Seq<(Seq<char>, UnsafeLocalModView)>) -> Seq<LocalModView> {
    db.filter_map(|e: (Seq<char>, UnsafeLocalModView)| valid_part(e.1))
}

/// The key that a record belongs under: the unique name of a mod, the path
/// of a folder of which no mod could be made.
pub open spec fn key_of(record: UnsafeLocalModView) -> Seq<char> {
    match record {
        UnsafeLocalModView::Valid(m) => m.manifest.unique_name,
        UnsafeLocalModView::Invalid(f) => f.mod_path,
    }
}

/// Whether every record of the database stands under the key that it
/// belongs under.
pub open spec fn is_keyed(db: Seq<(Seq<char>, UnsafeLocalModView)>) -> bool {
    forall|i: int| 0 <= i < db.len() ==> (#[trigger] db[i]).0 == key_of(db[i].1)
}

/// The records of the database, in its order.
pub open spec fn all_records(db: Seq<(Seq<char>, UnsafeLocalModView)>) -> Seq<UnsafeLocalModView> {
    Seq::new(db.len(), |i: int| db[i].1)
}

/// The mod of a record, if the record is one of a mod that is enabled.
pub open spec fn active_part(record: UnsafeLocalModView) -> Option<LocalModView> {
    match record {
        UnsafeLocalModView::Valid(m) => if m.enabled {
            Some(m)
        } else {
            None
        },
        UnsafeLocalModView::Invalid(_) => None,
    }
}

/// The mods of the database that are enabled, in its order.
pub open spec fn active_records(db: Seq<(Seq<char>, UnsafeLocalModView)>) -> Seq<LocalModView> {
    db.filter_map(|e: (Seq<char>, UnsafeLocalModView)| active_part(e.1))
}

/// Whether a record is to be shown as faulty: a folder of which no mod could
/// be made, or a mod that is enabled and has errors. The errors of a mod that
/// is not enabled do not count.
pub open spec fn is_invalid(record: UnsafeLocalModView) -> bool {
    match record {
        UnsafeLocalModView::Valid(m) => m.enabled && m.errors.len() > 0,
        UnsafeLocalModView::Invalid(_) => true,
    }
}

/// A record, if it is to be shown as faulty.
pub open spec fn invalid_part(record: UnsafeLocalModView) -> Option<UnsafeLocalModView> {
    if is_invalid(record) {
        Some(record)
    } else {
        None
    }
}

/// The records of the database that are to be shown as faulty, in its order.
pub open spec fn invalid_records(db: Seq<(Seq<char>, UnsafeLocalModView)>) -> Seq<
    UnsafeLocalModView,
> {
    db.filter_map(|e: (Seq<char>, UnsafeLocalModView)| invalid_part(e.1))
}

/// A record, if it is one of a folder that holds a mod whose unique name an
/// earlier folder had.
pub open spec fn duplicate_part(record: UnsafeLocalModView) -> Option<FailedModView> {
    match record {
        UnsafeLocalModView::Invalid(f) => if f.error is DuplicateMod {
            Some(f)
        } else {
            None
        },
        UnsafeLocalModView::Valid(_) => None,
    }
}

/// The records of the folders that hold a mod whose unique name an earlier
/// folder had, in the order of the database.
pub open spec fn duplicate_records(db: Seq<(Seq<char>, UnsafeLocalModView)>) -> Seq<
    FailedModView,
> {
    db.filter_map(|e: (Seq<char>, UnsafeLocalModView)| duplicate_part(e.1))
}

/// Whether the manifest of `m` names `unique_name` among its dependencies.
pub open spec fn depends_on(m: LocalModView, unique_name: Seq<char>) -> bool {
    names_in(m.manifest.dependencies).contains(unique_name)
}

/// The mod of a record, if the record is one of a mod that depends on the
/// mod of the unique name `unique_name`.
pub open spec fn dependent_part(record: UnsafeLocalModView, unique_name: Seq<char>) -> Option<
    LocalModView,
> {
    match record {
        UnsafeLocalModView::Valid(m) => if depends_on(m, unique_name) {
            Some(m)
        } else {
            None
        },
        UnsafeLocalModView::Invalid(_) => None,
    }
}

/// The mods of the database whose manifests name `unique_name` among their
/// dependencies, in the database's order.
pub open spec fn dependents(
    db: Seq<(Seq<char>, UnsafeLocalModView)>,
    unique_name: Seq<char>,
) -> Seq<LocalModView> {
    db.filter_map(|e: (Seq<char>, UnsafeLocalModView)| dependent_part(e.1, unique_name))
}

/// One manifest that the walk through the mods folder came upon: the folder
/// it lies in, that folder's path as shown to the user, and the mod that was
/// made of it, or why none was.
pub struct Discovery {
    pub path: Seq<char>,
    pub display_path: Seq<char>,
    pub outcome: Result<LocalModView, LoadErrorView>,
}

/// The record of a folder of which no mod was made.
pub open spec fn failed(d: Discovery, error: ModValidationErrorView) -> UnsafeLocalModView {
    UnsafeLocalModView::Invalid(
        FailedModView { error, mod_path: d.path, display_path: d.display_path },
    )
}

/// The database after the walk came upon `d`. A mod whose unique name no mod
/// in the database has goes in under that name. A mod whose unique name is
/// taken leaves the mod that has it untouched; its own folder goes in under
/// its path, as a duplicate of the other mod's folder. A folder of which no
/// mod could be made goes in under its path, with the reason.
pub open spec fn discovered(db: Seq<(Seq<char>, UnsafeLocalModView)>, d: Discovery) -> Seq<
    (Seq<char>, UnsafeLocalModView),
> {
    match d.outcome {
        Ok(m) => match valid_at(db, m.manifest.unique_name) {
            Some(other) => with_entry(
                db,
                d.path,
                failed(d, ModValidationErrorView::DuplicateMod(other.mod_path)),
            ),
            None => with_entry(db, m.manifest.unique_name, UnsafeLocalModView::Valid(m)),
        },
        Err(e) => with_entry(
            db,
            d.path,
            failed(d, ModValidationErrorView::InvalidManifest(load_message(e))),
        ),
    }
}

/// The database after the walk came upon each of `found`, in order, starting
/// from an empty database.
pub open spec fn built(found: Seq<Discovery>) -> Seq<(Seq<char>, UnsafeLocalModView)>
    decreases found.len(),
{
    if found.len() == 0 {
        Seq::empty()
    } else {
        discovered(built(found.drop_last()), found.last())
    }
}

/// The error for a dependency, if the mod it names is not in the database.
pub open spec fn missing_dep(db: Seq<(Seq<char>, UnsafeLocalModView)>, name: Seq<char>) -> Option<
    ModValidationErrorView,
> {
    if valid_at(db, name) is None {
        Some(ModValidationErrorView::MissingDep(name))
    } else {
        None
    }
}

/// The error for a declared conflict, if the mod it names is in the database.
pub open spec fn present_conflict(
    db: Seq<(Seq<char>, UnsafeLocalModView)>,
    name: Seq<char>,
) -> Option<ModValidationErrorView> {
    if valid_at(db, name) is Some {
        Some(ModValidationErrorView::ConflictingMod(name))
    } else {
        None
    }
}

/// The names in a list that a manifest may leave out.
pub open spec fn names_in(list: Option<Seq<Seq<char>>>) -> Seq<Seq<char>> {
    match list {
        Some(names) => names,
        None => Seq::empty(),
    }
}

/// What is wrong with `m` in the database `db`: one error for each of its
/// dependencies that is not installed, in the manifest's order, then one for
/// each mod that it declares a conflict with and that is installed.
pub open spec fn check_errors(m: LocalModView, db: Seq<(Seq<char>, UnsafeLocalModView)>) -> Seq<
    ModValidationErrorView,
> {
    names_in(m.manifest.dependencies).filter_map(|name: Seq<char>| missing_dep(db, name))
        + names_in(m.manifest.conflicts).filter_map(|name: Seq<char>| present_conflict(db, name))
}

/// `record` with the errors of a mod derived anew from `db`.
pub open spec fn validated_record(
    record: UnsafeLocalModView,
    db: Seq<(Seq<char>, UnsafeLocalModView)>,
) -> UnsafeLocalModView {
    match record {
        UnsafeLocalModView::Valid(m) => UnsafeLocalModView::Valid(
            LocalModView { errors: check_errors(m, db), ..m },
        ),
        UnsafeLocalModView::Invalid(f) => UnsafeLocalModView::Invalid(f),
    }
}

/// The database with the errors of every mod derived anew. Keys, order and
/// all else stay.
pub open spec fn validated(db: Seq<(Seq<char>, UnsafeLocalModView)>) -> Seq<
    (Seq<char>, UnsafeLocalModView),
> {
    Seq::new(db.len(), |i: int| (db[i].0, validated_record(db[i].1, db)))
}

/// Whether two databases have the same keys in the same order, with a mod
/// under a key in the one where the other has a mod.
pub open spec fn same_shape(
    a: Seq<(Seq<char>, UnsafeLocalModView)>,
    b: Seq<(Seq<char>, UnsafeLocalModView)>,
) -> bool {
    &&& a.len() == b.len()
    &&& forall|i: int| 0 <= i < a.len() ==> (#[trigger] a[i]).0 == b[i].0
    &&& forall|i: int| 0 <= i < a.len() ==> ((#[trigger] a[i]).1 is Valid <==> b[i].1 is Valid)
    &&& forall|i: int|
        0 <= i < a.len() && (#[trigger] a[i]).1 is Valid ==> a[i].1->Valid_0.manifest
            == b[i].1->Valid_0.manifest
}

/// The folder under which the walk takes in the manifest `file`: the parent
/// of the manifest's path, or that path itself where it has no parent.
pub open spec fn folder_of(file: ManifestFileView) -> Seq<char> {
    match parent_path(file.path) {
        Some(folder) => folder,
        None => file.path,
    }
}

/// The path of `folder` as shown to the user: what is left of it behind the
/// path of the mods folder, or all of it where it does not lie in there.
pub open spec fn shown_path(folder: Seq<char>, mods_path: Seq<char>) -> Seq<char> {
    match stripped_path(folder, mods_path) {
        Some(rest) => rest,
        None => folder,
    }
}

/// What the walk through the mods folder `mods_path` makes of the manifest
/// `file`: the folder it lies in, that folder's path as shown, and the
/// outcome of reading the manifest.
pub open spec fn discovery_of(mods_path: Seq<char>, file: ManifestFileView) -> Discovery {
    Discovery {
        path: folder_of(file),
        display_path: shown_path(folder_of(file), mods_path),
        outcome: read_outcome(file),
    }
}

/// What the walk through the mods folder `mods_path` makes of the manifests
/// `found`: one discovery for each, in order.
pub open spec fn discoveries(mods_path: Seq<char>, found: Seq<ManifestFileView>) -> Seq<
    Discovery,
> {
    Seq::new(found.len(), |i: int| discovery_of(mods_path, found[i]))
}

/// Two databases of the same shape have the same mods installed.
pub proof fn lemma_same_shape_valid(
    a: Seq<(Seq<char>, UnsafeLocalModView)>,
    b: Seq<(Seq<char>, UnsafeLocalModView)>,
    key: Seq<char>,
)
    requires
        same_shape(a, b),
    ensures
        valid_at(a, key) is Some <==> valid_at(b, key) is Some,
        valid_at(a, key) is Some ==> valid_at(a, key)->0.manifest == valid_at(b, key)->0.manifest,
{
    assert(keys_of(a) =~= keys_of(b)) by {
        assert forall|i: int| 0 <= i < a.len() implies keys_of(a)[i] == keys_of(b)[i] by {
            assert(a[i].0 == b[i].0);
        }
    }
    keys_of(a).index_of_first_ensures(key);
    match keys_of(a).index_of_first(key) {
        Some(i) => {
            assert(a[i].1 is Valid <==> b[i].1 is Valid);
        },
        None => {},
    }
}

/// In two databases of the same shape the same is wrong with a mod.
pub proof fn lemma_same_shape_errors(
    m: LocalModView,
    a: Seq<(Seq<char>, UnsafeLocalModView)>,
    b: Seq<(Seq<char>, UnsafeLocalModView)>,
)
    requires
        same_shape(a, b),
    ensures
        check_errors(m, a) == check_errors(m, b),
{
    let missing_a = |name: Seq<char>| missing_dep(a, name);
    let missing_b = |name: Seq<char>| missing_dep(b, name);
    let present_a = |name: Seq<char>| present_conflict(a, name);
    let present_b = |name: Seq<char>| present_conflict(b, name);
    assert forall|name: Seq<char>| #[trigger] missing_a(name) == missing_b(name) by {
        lemma_same_shape_valid(a, b, name);
    }
    assert forall|name: Seq<char>| #[trigger] present_a(name) == present_b(name) by {
        lemma_same_shape_valid(a, b, name);
    }
    assert(missing_a =~= missing_b);
    assert(present_a =~= present_b);
}

/// Deriving the errors anew leaves the shape of the database as it is.
pub proof fn lemma_validated_shape(db: Seq<(Seq<char>, UnsafeLocalModView)>)
    ensures
        same_shape(validated(db), db),
{
}

/// A discovery goes in under the key that its record belongs under.
pub proof fn lemma_discovered_keyed(db: Seq<(Seq<char>, UnsafeLocalModView)>, d: Discovery)
    requires
        is_keyed(db),
    ensures
        is_keyed(discovered(db, d)),
{
    let after = discovered(db, d);
    keys_of(db).index_of_first_ensures(d.path);
    if d.outcome is Ok {
        keys_of(db).index_of_first_ensures(d.outcome->Ok_0.manifest.unique_name);
    }
    assert forall|i: int| 0 <= i < after.len() implies (#[trigger] after[i]).0 == key_of(
        after[i].1,
    ) by {
        if i < db.len() {
            assert(db[i].0 == key_of(db[i].1));
        }
    }
}

/// Every record of a database that a walk has built stands under the key
/// that it belongs under.
pub proof fn lemma_built_keyed(found: Seq<Discovery>)
    ensures
        is_keyed(built(found)),
    decreases found.len(),
{
    if found.len() > 0 {
        lemma_built_keyed(found.drop_last());
        lemma_discovered_keyed(built(found.drop_last()), found.last());
    }
}

/// Deriving the errors anew leaves every record under its key.
pub proof fn lemma_validated_keyed(db: Seq<(Seq<char>, UnsafeLocalModView)>)
    requires
        is_keyed(db),
    ensures
        is_keyed(validated(db)),
{
    let after = validated(db);
    assert forall|i: int| 0 <= i < after.len() implies (#[trigger] after[i]).0 == key_of(
        after[i].1,
    ) by {
        assert(db[i].0 == key_of(db[i].1));
    }
}

} // verus!
