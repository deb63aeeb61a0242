//! The database of the mods on this machine.

use crate::constants::MODS_FOLDER_NAME;
use crate::db::load::{
    loaded_owml, read_outcome, text_outcome, LoadError, LoadErrorView, ManifestFile,
};
use crate::db::model::{
    active_part, active_records, all_records, built, dependent_part, dependents, discovered,
    discoveries,
    invalid_part, invalid_records, is_keyed, lemma_discovered_keyed, lemma_same_shape_errors,
    lemma_validated_keyed, names_in, same_shape, valid_at, valid_part,
    valid_records, validated, validated_record, Discovery,
};
use crate::db::remote::RemoteDatabase;
use crate::mods::local::{
    FailedMod, LocalMod, LocalModView, ModManifest, UnsafeLocalMod, UnsafeLocalModView,
};
use crate::paths::{joined, joined_path, parent_of, relative_to};
use crate::search::{search_list, search_results};
use crate::table::{value_at, with_entry, Table};
use crate::text::same_text;
use crate::updates::{
    any_outdated, check_mod_needs_update, lemma_updates_keyed, marked_record, with_updates,
};
use crate::validate::{check_mod, ModValidationError, ModValidationErrorView};
use vstd::prelude::*;

verus! {

/// The mods on this machine: each mod under its unique name, each folder of
/// which no mod could be made under its path.
#[derive(Clone, Debug, PartialEq, Eq)]
pub struct LocalDatabase {
    pub mods: Table<UnsafeLocalMod>,
}

impl View for LocalDatabase {
    type V = Seq<(Seq<char>, UnsafeLocalModView)>;

    open spec fn view(&self) -> Seq<(Seq<char>, UnsafeLocalModView)> {
        self.mods.model()
    }
}

/// The outcome of loading a mod as a mathematical value.
pub open spec fn outcome_view(outcome: Result<LocalMod, LoadError>) -> Result<
    LocalModView,
    LoadErrorView,
> {
    match outcome {
        Ok(m) => Ok(m@),
        Err(e) => Err(e@),
    }
}

/// Whether `name` is one of `names`.
pub fn is_listed(names: &Option<Vec<String>>, name: &str) -> (r: bool)
    ensures
        r == names_in(names.deep_view()).contains(name@),
{
    match names {
        None => false,
        Some(list) => {
            let mut i: usize = 0;
            while i < list.len()
                invariant
                    *names == Some(*list),
                    i <= list@.len(),
                    forall|j: int| 0 <= j < i ==> list.deep_view()[j] != name@,
                decreases list@.len() - i,
            {
                if same_text(list[i].as_str(), name) {
                    assert(list.deep_view()[i as int] == name@);
                    return true;
                }
                i += 1;
            }
            false
        },
    }
}

impl Default for LocalDatabase {
    fn default() -> (r: Self)
        ensures
            r@.len() == 0,
            r.wf(),
            r.keyed(),
    {
        LocalDatabase { mods: Table::new() }
    }
}

impl LocalDatabase {
    /// No key stands in the database twice.
    pub open spec fn wf(&self) -> bool {
        self.mods.wf()
    }

    /// Every record stands under the key that it belongs under: a mod under
    /// its unique name, a folder of which no mod could be made under its
    /// path.
    pub open spec fn keyed(&self) -> bool {
        is_keyed(self@)
    }

    /// The mod under `unique_name`, if a mod stands there.
    pub open spec fn mod_of(&self, unique_name: Seq<char>) -> Option<LocalMod> {
        match self.mods.value_of(unique_name) {
            Some(UnsafeLocalMod::Valid(m)) => Some(m),
            _ => None,
        }
    }

    /// The mod and the model's mod under a name are the same mod.
    pub proof fn lemma_mod_of(&self, unique_name: Seq<char>)
        ensures
            valid_at(self@, unique_name) == match self.mod_of(unique_name) {
                Some(m) => Some(m@),
                None => None,
            },
    {
        self.mods.lemma_model(unique_name);
    }

    /// The mod under `unique_name`. `None` where nothing stands under that
    /// name, or something that is no mod.
    pub fn get_mod(&self, unique_name: &str) -> (r: Option<&LocalMod>)
        ensures
            match r {
                Some(m) => self.mod_of(unique_name@) == Some(*m) && valid_at(
                    self@,
                    unique_name@,
                ) == Some(m@),
                None => self.mod_of(unique_name@) is None && valid_at(self@, unique_name@)
                    is None,
            },
    {
        proof {
            self.lemma_mod_of(unique_name@);
        }
        match self.mods.get(unique_name) {
            Some(UnsafeLocalMod::Valid(local_mod)) => Some(local_mod),
            _ => None,
        }
    }

    /// The record under `key`, which is the unique name of a mod or the path
    /// of a folder of which no mod could be made.
    pub fn get_mod_unsafe(&self, key: &str) -> (r: Option<&UnsafeLocalMod>)
        ensures
            match r {
                Some(record) => self.mods.value_of(key@) == Some(*record) && value_at(self@, key@)
                    == Some(record@),
                None => self.mods.value_of(key@) is None && value_at(self@, key@) is None,
            },
    {
        proof {
            self.mods.lemma_model(key@);
        }
        self.mods.get(key)
    }

    /// The mod under `unique_name`, to change it in place. The database
    /// keeps its keys and their order, and all other records.
    pub fn get_mod_mut(&mut self, unique_name: &str) -> (r: Option<&mut LocalMod>)
        ensures
            match r {
                Some(m) => {
                    &&& old(self).mod_of(unique_name@) == Some(*m)
                    &&& final(self).mods.pairs() =~= with_entry(
                        old(self).mods.pairs(),
                        unique_name@,
                        UnsafeLocalMod::Valid(*final(m)),
                    )
                    &&& final(self).mods.keys() =~= old(self).mods.keys()
                },
                None => old(self).mod_of(unique_name@) is None && final(self).mods.pairs() =~= old(
                    self,
                ).mods.pairs(),
            },
    {
        proof {
            self.mods.lemma_position(unique_name@);
        }
        match self.mods.get_mut(unique_name) {
            Some(record) => match record {
                UnsafeLocalMod::Valid(local_mod) => Some(local_mod),
                UnsafeLocalMod::Invalid(_) => None,
            },
            None => None,
        }
    }

    /// Takes in one manifest that the walk through the mods folder came
    /// upon: the folder it lies in, that folder's path as shown to the user,
    /// and the outcome of loading the mod.
    pub fn add_discovered(
        &mut self,
        path: String,
        display_path: String,
        outcome: Result<LocalMod, LoadError>,
    )
        ensures
            final(self)@ == discovered(
                old(self)@,
                Discovery {
                    path: path@,
                    display_path: display_path@,
                    outcome: outcome_view(outcome),
                },
            ),
            old(self).wf() ==> final(self).wf(),
            old(self).keyed() ==> final(self).keyed(),
    {
        let ghost d = Discovery {
            path: path@,
            display_path: display_path@,
            outcome: outcome_view(outcome),
        };
        proof {
            if self.keyed() {
                lemma_discovered_keyed(self@, d);
            }
        }
        match outcome {
            Ok(local_mod) => {
                proof {
                    self.lemma_mod_of(local_mod.manifest.unique_name@);
                }
                let taken = match self.get_mod(local_mod.manifest.unique_name.as_str()) {
                    Some(other) => Some(other.mod_path.clone()),
                    None => None,
                };
                match taken {
                    Some(other_path) => {
                        let record = UnsafeLocalMod::Invalid(
                            FailedMod {
                                error: ModValidationError::DuplicateMod(other_path),
                                mod_path: path.clone(),
                                display_path,
                            },
                        );
                        let ghost key = path;
                        let ghost value = record;
                        self.mods.insert(path, record);
                        proof {
                            Table::lemma_model_insert(old(self).mods, self.mods, key@, value);
                        }
                    },
                    None => {
                        let name = local_mod.manifest.unique_name.clone();
                        let record = UnsafeLocalMod::Valid(local_mod);
                        let ghost key = name;
                        let ghost value = record;
                        self.mods.insert(name, record);
                        proof {
                            Table::lemma_model_insert(old(self).mods, self.mods, key@, value);
                        }
                    },
                }
            },
            Err(error) => {
                let record = UnsafeLocalMod::Invalid(
                    FailedMod {
                        error: ModValidationError::InvalidManifest(error.message()),
                        mod_path: path.clone(),
                        display_path,
                    },
                );
                let ghost key = path;
                let ghost value = record;
                self.mods.insert(path, record);
                proof {
                    Table::lemma_model_insert(old(self).mods, self.mods, key@, value);
                }
            },
        }
    }

    /// Reads the mod whose manifest was found as `file`. The mod's folder is
    /// the one that the manifest file lies in; where the path names none,
    /// the error is `PathInvalid`.
    pub fn read_local_mod(file: &ManifestFile) -> (r: Result<LocalMod, LoadError>)
        ensures
            outcome_view(r) == read_outcome(file@),
            file.path@.len() == 0 ==> r is Err && r->Err_0@ is PathInvalid,
    {
        match parent_of(file.path.as_str()) {
            None => Err(LoadError::PathInvalid),
            Some(folder) => LocalMod::load(folder.as_str(), file),
        }
    }

    /// Makes the record of the mod loader in the folder `owml_path`, whose
    /// manifest file was read with the outcome `content`. The loader counts
    /// as enabled, whatever its folder says, and starts without errors.
    pub fn get_owml(owml_path: &str, content: &Result<String, String>) -> (r: Option<LocalMod>)
        ensures
            match r {
                Some(owml) => loaded_owml(owml_path@, text_outcome(*content)) == Some(owml@),
                None => loaded_owml(owml_path@, text_outcome(*content)) is None,
            },
            r is Some ==> r->0.enabled && r->0.errors@.len() == 0,
    {
        match content {
            Err(_) => None,
            Ok(text) => match ModManifest::from_text(text.as_str()) {
                Err(_) => None,
                Ok(manifest) => {
                    let owml = LocalMod {
                        enabled: true,
                        errors: Vec::new(),
                        mod_path: String::from_str(owml_path),
                        manifest,
                    };
                    assert(owml.errors.deep_view() =~= Seq::empty());
                    Some(owml)
                },
            },
        }
    }

    /// Makes the table of the mods whose manifests the walk through the
    /// folder `mods_path` found, in the order of the walk. Each manifest is
    /// loaded in the folder that it lies in and taken in with
    /// `add_discovered`. A manifest whose path names no folder is taken in
    /// under that path, as a folder of which no mod could be made.
    pub fn get_local_mods(mods_path: &str, found: &Vec<ManifestFile>) -> (r: Table<UnsafeLocalMod>)
        ensures
            r.wf(),
            is_keyed(r.model()),
            r.model() == built(discoveries(mods_path@, found.deep_view())),
    {
        let mut db = LocalDatabase::default();
        let ghost all = discoveries(mods_path@, found.deep_view());
        let mut i: usize = 0;
        assert(db@ =~= built(all.take(0)));
        while i < found.len()
            invariant
                i <= found@.len(),
                db.wf(),
                db.keyed(),
                all == discoveries(mods_path@, found.deep_view()),
                db@ == built(all.take(i as int)),
            decreases found@.len() - i,
        {
            let file = &found[i];
            let (path, outcome) = match parent_of(file.path.as_str()) {
                Some(folder) => {
                    let outcome = LocalMod::load(folder.as_str(), file);
                    (folder, outcome)
                },
                None => (file.path.clone(), Err(LoadError::PathInvalid)),
            };
            let display_path = match relative_to(path.as_str(), mods_path) {
                Some(rest) => rest,
                None => path.clone(),
            };
            let ghost d = Discovery {
                path: path@,
                display_path: display_path@,
                outcome: outcome_view(outcome),
            };
            db.add_discovered(path, display_path, outcome);
            proof {
                assert(found.deep_view()[i as int] == file@);
                assert(all[i as int] == d);
                assert(all.take(i + 1).drop_last() =~= all.take(i as int));
                assert(all.take(i + 1).last() == d);
            }
            i += 1;
        }
        assert(all.take(found@.len() as int) =~= all);
        db.mods
    }

    /// Makes the database of the mods in the mod loader's folder
    /// `owml_path`. `found` holds the manifests that lie in the mods folder
    /// or below it, in the order of the walk, and is `None` where there is
    /// no mods folder: the database is then empty. The manifests are taken
    /// in one after the other, and the errors of each mod are derived at the
    /// end.
    pub fn fetch(owml_path: &str, found: Option<&Vec<ManifestFile>>) -> (r: LocalDatabase)
        ensures
            r.wf(),
            r.keyed(),
            r@ == match found {
                Some(files) => validated(
                    built(
                        discoveries(joined_path(owml_path@, MODS_FOLDER_NAME@), files.deep_view()),
                    ),
                ),
                None => Seq::empty(),
            },
    {
        match found {
            None => LocalDatabase::default(),
            Some(files) => {
                let mods_path = joined(owml_path, MODS_FOLDER_NAME);
                let mods = LocalDatabase::get_local_mods(mods_path.as_str(), files);
                let mut db = LocalDatabase { mods };
                db.validate();
                db
            },
        }
    }

    /// Derives the errors of every mod anew from the database as it stands:
    /// what a mod had in its list before is gone, and folders of which no
    /// mod could be made stay as they are.
    pub fn validate(&mut self)
        ensures
            final(self)@ == validated(old(self)@),
            final(self).mods.keys() == old(self).mods.keys(),
            old(self).wf() ==> final(self).wf(),
            old(self).keyed() ==> final(self).keyed(),
    {
        let n: usize = self.mods.entries.len();
        let mut i: usize = 0;
        while i < n
            invariant
                n == old(self).mods.entries@.len(),
                n == self.mods.entries@.len(),
                i <= n,
                same_shape(self@, old(self)@),
                forall|j: int| 0 <= j < n ==> #[trigger] self.mods.entries@[j].0@ == old(
                    self,
                ).mods.entries@[j].0@,
                forall|j: int|
                    0 <= j < i ==> #[trigger] self@[j].1 == validated_record(
                        old(self)@[j].1,
                        old(self)@,
                    ),
                forall|j: int| i <= j < n ==> #[trigger] self@[j].1 == old(self)@[j].1,
            decreases n - i,
        {
            let errors = match &self.mods.entries[i].1 {
                UnsafeLocalMod::Valid(local_mod) => Some(check_mod(local_mod, self)),
                UnsafeLocalMod::Invalid(_) => None,
            };
            let ghost before = *self;
            proof {
                if errors is Some {
                    lemma_same_shape_errors(before@[i as int].1->Valid_0, before@, old(self)@);
                }
            }
            match errors {
                Some(errors) => {
                    match &mut self.mods.entries[i].1 {
                        UnsafeLocalMod::Valid(local_mod) => {
                            local_mod.errors = errors;
                        },
                        UnsafeLocalMod::Invalid(_) => {},
                    }
                },
                None => {},
            }
            proof {
                assert forall|j: int| 0 <= j < n && j != i implies self.mods.entries@[j]
                    == before.mods.entries@[j] by {}
                assert forall|j: int| 0 <= j < n && j != i implies #[trigger] self@[j]
                    == before@[j] by {
                    assert(self.mods.entries@[j] == before.mods.entries@[j]);
                }
            }
            i += 1;
        }
        proof {
            assert(self@ =~= validated(old(self)@));
            assert(self.mods.keys() =~= old(self).mods.keys());
            if old(self).keyed() {
                lemma_validated_keyed(old(self)@);
            }
        }
    }

    /// Checks every mod against the remote database `db`. A mod for which
    /// something newer is on offer gets one more error, which names the
    /// version on offer, unless one of its errors says so already. Nothing
    /// else changes.
    pub fn validate_updates(&mut self, db: &RemoteDatabase)
        ensures
            final(self)@ == with_updates(old(self)@, db@),
            final(self).mods.keys() == old(self).mods.keys(),
            old(self).wf() ==> final(self).wf(),
            old(self).keyed() ==> final(self).keyed(),
    {
        let n: usize = self.mods.entries.len();
        let mut i: usize = 0;
        while i < n
            invariant
                n == old(self).mods.entries@.len(),
                n == self.mods.entries@.len(),
                i <= n,
                forall|j: int| 0 <= j < n ==> #[trigger] self.mods.entries@[j].0@ == old(
                    self,
                ).mods.entries@[j].0@,
                forall|j: int|
                    0 <= j < i ==> #[trigger] self@[j].1 == marked_record(old(self)@[j].1, db@),
                forall|j: int| i <= j < n ==> #[trigger] self@[j].1 == old(self)@[j].1,
            decreases n - i,
        {
            let offered = match &self.mods.entries[i].1 {
                UnsafeLocalMod::Valid(local_mod) => {
                    let (needs_update, remote) = check_mod_needs_update(local_mod, db);
                    if needs_update && !any_outdated(&local_mod.errors) {
                        match remote {
                            Some(offer) => Some(offer.version.clone()),
                            None => None,
                        }
                    } else {
                        None
                    }
                },
                UnsafeLocalMod::Invalid(_) => None,
            };
            let ghost before = *self;
            proof {
                assert(before@[i as int].1 == old(self)@[i as int].1);
                match before.mods.entries@[i as int].1 {
                    UnsafeLocalMod::Valid(local_mod) => {
                        assert(before@[i as int].1 == UnsafeLocalModView::Valid(local_mod@));
                    },
                    UnsafeLocalMod::Invalid(failed_mod) => {
                        assert(before@[i as int].1 == UnsafeLocalModView::Invalid(failed_mod@));
                    },
                }
            }
            match offered {
                Some(version) => {
                    match &mut self.mods.entries[i].1 {
                        UnsafeLocalMod::Valid(local_mod) => {
                            let ghost errors = local_mod.errors.deep_view();
                            local_mod.errors.push(ModValidationError::Outdated(version));
                            assert(local_mod.errors.deep_view() =~= errors.push(
                                ModValidationErrorView::Outdated(version@),
                            ));
                        },
                        UnsafeLocalMod::Invalid(_) => {},
                    }
                },
                None => {},
            }
            proof {
                assert forall|j: int| 0 <= j < n && j != i implies #[trigger] self@[j]
                    == before@[j] by {
                    assert(self.mods.entries@[j] == before.mods.entries@[j]);
                }
            }
            i += 1;
        }
        proof {
            let target = with_updates(old(self)@, db@);
            assert forall|j: int| 0 <= j < n implies self@[j] == target[j] by {
                assert(self.mods.entries@[j].0@ == old(self).mods.entries@[j].0@);
                assert(self@[j].1 == marked_record(old(self)@[j].1, db@));
            }
            assert(self@ =~= target);
            assert(self.mods.keys() =~= old(self).mods.keys());
            if old(self).keyed() {
                lemma_updates_keyed(old(self)@, db@);
            }
        }
    }

    /// All records, in the order of the database.
    pub fn all(&self) -> (r: Vec<&UnsafeLocalMod>)
        ensures
            r.deep_view() == all_records(self@),
    {
        let mut out: Vec<&UnsafeLocalMod> = Vec::new();
        let mut i: usize = 0;
        while i < self.mods.entries.len()
            invariant
                i <= self.mods.entries@.len(),
                out@.len() == i,
                forall|j: int| 0 <= j < i ==> *(#[trigger] out@[j]) == self.mods.entries@[j].1,
            decreases self.mods.entries@.len() - i,
        {
            out.push(&self.mods.entries[i].1);
            i += 1;
        }
        assert(out.deep_view() =~= all_records(self@));
        out
    }

    /// All mods, in the order of the database.
    pub fn valid(&self) -> (r: Vec<&LocalMod>)
        ensures
            r.deep_view() == valid_records(self@),
    {
        let ghost select = |e: (Seq<char>, UnsafeLocalModView)| valid_part(e.1);
        let mut out: Vec<&LocalMod> = Vec::new();
        let mut i: usize = 0;
        assert(out.deep_view() =~= self@.take(0).filter_map(select));
        while i < self.mods.entries.len()
            invariant
                i <= self.mods.entries@.len(),
                select == |e: (Seq<char>, UnsafeLocalModView)| valid_part(e.1),
                out.deep_view() == self@.take(i as int).filter_map(select),
            decreases self.mods.entries@.len() - i,
        {
            proof {
                self@.lemma_filter_map_take_succ(select, i as int);
            }
            let ghost before = out.deep_view();
            match &self.mods.entries[i].1 {
                UnsafeLocalMod::Valid(local_mod) => {
                    assert(self@[i as int].1 == UnsafeLocalModView::Valid(local_mod@));
                    out.push(local_mod);
                    assert(out.deep_view() =~= before + seq![local_mod@]);
                },
                UnsafeLocalMod::Invalid(failed_mod) => {
                    assert(self@[i as int].1 == UnsafeLocalModView::Invalid(failed_mod@));
                    assert(out.deep_view() =~= before + Seq::empty());
                },
            }
            i += 1;
        }
        assert(self@.take(self.mods.entries@.len() as int) =~= self@);
        out
    }

    /// The mods that are enabled, in the order of the database.
    pub fn active(&self) -> (r: Vec<&LocalMod>)
        ensures
            r.deep_view() == active_records(self@),
    {
        let ghost select = |e: (Seq<char>, UnsafeLocalModView)| active_part(e.1);
        let mut out: Vec<&LocalMod> = Vec::new();
        let mut i: usize = 0;
        assert(out.deep_view() =~= self@.take(0).filter_map(select));
        while i < self.mods.entries.len()
            invariant
                i <= self.mods.entries@.len(),
                select == |e: (Seq<char>, UnsafeLocalModView)| active_part(e.1),
                out.deep_view() == self@.take(i as int).filter_map(select),
            decreases self.mods.entries@.len() - i,
        {
            proof {
                self@.lemma_filter_map_take_succ(select, i as int);
            }
            let ghost before = out.deep_view();
            match &self.mods.entries[i].1 {
                UnsafeLocalMod::Valid(local_mod) => {
                    assert(self@[i as int].1 == UnsafeLocalModView::Valid(local_mod@));
                    if local_mod.enabled {
                        out.push(local_mod);
                        assert(out.deep_view() =~= before + seq![local_mod@]);
                    } else {
                        assert(out.deep_view() =~= before + Seq::empty());
                    }
                },
                UnsafeLocalMod::Invalid(failed_mod) => {
                    assert(self@[i as int].1 == UnsafeLocalModView::Invalid(failed_mod@));
                    assert(out.deep_view() =~= before + Seq::empty());
                },
            }
            i += 1;
        }
        assert(self@.take(self.mods.entries@.len() as int) =~= self@);
        out
    }

    /// The records that are to be shown as faulty, in the order of the
    /// database: each folder of which no mod could be made, and each mod
    /// that is enabled and has errors.
    pub fn invalid(&self) -> (r: Vec<&UnsafeLocalMod>)
        ensures
            r.deep_view() == invalid_records(self@),
    {
        let ghost select = |e: (Seq<char>, UnsafeLocalModView)| invalid_part(e.1);
        let mut out: Vec<&UnsafeLocalMod> = Vec::new();
        let mut i: usize = 0;
        assert(out.deep_view() =~= self@.take(0).filter_map(select));
        while i < self.mods.entries.len()
            invariant
                i <= self.mods.entries@.len(),
                select == |e: (Seq<char>, UnsafeLocalModView)| invalid_part(e.1),
                out.deep_view() == self@.take(i as int).filter_map(select),
            decreases self.mods.entries@.len() - i,
        {
            proof {
                self@.lemma_filter_map_take_succ(select, i as int);
            }
            let ghost before = out.deep_view();
            let record = &self.mods.entries[i].1;
            let faulty = match record {
                UnsafeLocalMod::Valid(local_mod) => {
                    assert(self@[i as int].1 == UnsafeLocalModView::Valid(local_mod@));
                    local_mod.enabled && local_mod.errors.len() > 0
                },
                UnsafeLocalMod::Invalid(failed_mod) => {
                    assert(self@[i as int].1 == UnsafeLocalModView::Invalid(failed_mod@));
                    true
                },
            };
            if faulty {
                out.push(record);
                assert(out.deep_view() =~= before + seq![record@]);
            } else {
                assert(out.deep_view() =~= before + Seq::empty());
            }
            i += 1;
        }
        assert(self@.take(self.mods.entries@.len() as int) =~= self@);
        out
    }

    /// The mods whose manifests name `local_mod` among their dependencies,
    /// in the order of the database. A mod that only depends on such a mod
    /// is not among them.
    pub fn dependent(&self, local_mod: &LocalMod) -> (r: Vec<&LocalMod>)
        ensures
            r.deep_view() == dependents(self@, local_mod@.manifest.unique_name),
    {
        let ghost name = local_mod@.manifest.unique_name;
        let ghost select = |e: (Seq<char>, UnsafeLocalModView)| dependent_part(e.1, name);
        let mut out: Vec<&LocalMod> = Vec::new();
        let mut i: usize = 0;
        assert(out.deep_view() =~= self@.take(0).filter_map(select));
        while i < self.mods.entries.len()
            invariant
                i <= self.mods.entries@.len(),
                name == local_mod@.manifest.unique_name,
                select == |e: (Seq<char>, UnsafeLocalModView)| dependent_part(e.1, name),
                out.deep_view() == self@.take(i as int).filter_map(select),
            decreases self.mods.entries@.len() - i,
        {
            proof {
                self@.lemma_filter_map_take_succ(select, i as int);
            }
            let ghost before = out.deep_view();
            match &self.mods.entries[i].1 {
                UnsafeLocalMod::Valid(other) => {
                    assert(self@[i as int].1 == UnsafeLocalModView::Valid(other@));
                    if is_listed(
                        &other.manifest.dependencies,
                        local_mod.manifest.unique_name.as_str(),
                    ) {
                        out.push(other);
                        assert(out.deep_view() =~= before + seq![other@]);
                    } else {
                        assert(out.deep_view() =~= before + Seq::empty());
                    }
                },
                UnsafeLocalMod::Invalid(failed_mod) => {
                    assert(self@[i as int].1 == UnsafeLocalModView::Invalid(failed_mod@));
                    assert(out.deep_view() =~= before + Seq::empty());
                },
            }
            i += 1;
        }
        assert(self@.take(self.mods.entries@.len() as int) =~= self@);
        out
    }

    /// Searches the records for `search`. Returns the records that a text
    /// names exactly as `search` does, then those in whose texts it only
    /// stands somewhere, both in the order of the database.
    pub fn search(&self, search: &str) -> (r: Vec<&UnsafeLocalMod>)
        ensures
            r.deep_view() == search_results(all_records(self@), search@),
    {
        let mods = self.all();
        search_list(mods, search)
    }
}

} // verus!
