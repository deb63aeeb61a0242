//! Which mods have a newer version on offer, and what to do about it.

use crate::constants::OWML_UNIQUE_NAME;
use crate::db::local::LocalDatabase;
use crate::db::model::{is_keyed, key_of, valid_part};
use crate::db::remote::{remote_owml, RemoteDatabase};
use crate::mods::local::{LocalMod, LocalModView, UnsafeLocalMod, UnsafeLocalModView};
use crate::mods::remote::{RemoteMod, RemoteModView};
use crate::table::value_at;
use crate::text::same_text;
use crate::validate::{ModValidationError, ModValidationErrorView};
use crate::versions::{compare_versions, version_order, VersionOrder};
use vstd::prelude::*;

verus! {

/// What the remote database offers for the mod of the unique name
/// `unique_name`. For the mod loader the database is asked for the loader,
/// for any other mod for the mod of that name.
pub open spec fn remote_of(
    unique_name: Seq<char>,
    remote: Seq<(Seq<char>, RemoteModView)>,
) -> Option<RemoteModView> {
    if unique_name == OWML_UNIQUE_NAME@ {
        remote_owml(remote)
    } else {
        value_at(remote, unique_name)
    }
}

/// Whether a mod of the version `local_version` is to be updated to
/// `remote_version`, given how the remote version stands to the local one.
/// Where the two could be read as versions, the remote one must be greater.
/// Where they could not, any difference between the two texts counts.
pub open spec fn update_needed(
    order: Option<VersionOrder>,
    local_version: Seq<char>,
    remote_version: Seq<char>,
) -> bool {
    match order {
        Some(order) => order is Gt,
        None => local_version != remote_version,
    }
}

/// Whether the remote database offers something newer than `local`.
pub open spec fn needs_update(
    local: LocalModView,
    remote: Seq<(Seq<char>, RemoteModView)>,
) -> bool {
    match remote_of(local.manifest.unique_name, remote) {
        Some(offer) => update_needed(
            version_order(offer.version, local.manifest.version),
            local.manifest.version,
            offer.version,
        ),
        None => false,
    }
}

/// Whether one of `errors` says that a newer version is on offer.
pub open spec fn has_outdated(errors: Seq<ModValidationErrorView>) -> bool {
    exists|i: int| 0 <= i < errors.len() && errors[i] is Outdated
}

/// `m` after a check for updates: where something newer is on offer and no
/// error of the mod says so yet, one more error that does, with the version
/// on offer. Else the mod as it was.
pub open spec fn marked(m: LocalModView, remote: Seq<(Seq<char>, RemoteModView)>) -> LocalModView {
    if needs_update(m, remote) && !has_outdated(m.errors) {
        LocalModView {
            errors: m.errors.push(
                ModValidationErrorView::Outdated(
                    remote_of(m.manifest.unique_name, remote)->0.version,
                ),
            ),
            ..m
        }
    } else {
        m
    }
}

/// `record` after a check for updates.
pub open spec fn marked_record(
    record: UnsafeLocalModView,
    remote: Seq<(Seq<char>, RemoteModView)>,
) -> UnsafeLocalModView {
    match record {
        UnsafeLocalModView::Valid(m) => UnsafeLocalModView::Valid(marked(m, remote)),
        UnsafeLocalModView::Invalid(f) => UnsafeLocalModView::Invalid(f),
    }
}

/// The database after a check of every mod for updates. Keys, order and all
/// else stay.
pub open spec fn with_updates(
    db: Seq<(Seq<char>, UnsafeLocalModView)>,
    remote: Seq<(Seq<char>, RemoteModView)>,
) -> Seq<(Seq<char>, UnsafeLocalModView)> {
    Seq::new(db.len(), |i: int| (db[i].0, marked_record(db[i].1, remote)))
}

/// A check for updates leaves every record under its key.
pub proof fn lemma_updates_keyed(
    db: Seq<(Seq<char>, UnsafeLocalModView)>,
    remote: Seq<(Seq<char>, RemoteModView)>,
)
    requires
        is_keyed(db),
    ensures
        is_keyed(with_updates(db, remote)),
{
    let after = with_updates(db, remote);
    assert forall|i: int| 0 <= i < after.len() implies (#[trigger] after[i]).0 == key_of(
        after[i].1,
    ) by {
        assert(db[i].0 == key_of(db[i].1));
    }
}

/// The number of `errors` that say that a newer version is on offer.
pub open spec fn outdated_count(errors: Seq<ModValidationErrorView>) -> nat {
    errors.filter(|e: ModValidationErrorView| e is Outdated).len()
}

/// A second check for updates leaves a mod as the first left it.
pub proof fn lemma_marked_twice(m: LocalModView, remote: Seq<(Seq<char>, RemoteModView)>)
    ensures
        marked(marked(m, remote), remote) == marked(m, remote),
{
    if needs_update(m, remote) && !has_outdated(m.errors) {
        let once = marked(m, remote);
        assert(once.errors[m.errors.len() as int] is Outdated);
        assert(has_outdated(once.errors));
    }
}

/// A second check for updates leaves the database as the first left it.
pub proof fn lemma_updates_twice(
    db: Seq<(Seq<char>, UnsafeLocalModView)>,
    remote: Seq<(Seq<char>, RemoteModView)>,
)
    ensures
        with_updates(with_updates(db, remote), remote) == with_updates(db, remote),
{
    let once = with_updates(db, remote);
    let twice = with_updates(once, remote);
    assert forall|i: int| 0 <= i < db.len() implies twice[i] == once[i] by {
        match db[i].1 {
            UnsafeLocalModView::Valid(m) => {
                lemma_marked_twice(m, remote);
            },
            UnsafeLocalModView::Invalid(_) => {},
        }
    }
    assert(twice =~= once);
}

/// A mod that is behind the remote database and has no error that says so
/// has exactly one such error after two checks for updates, and that error
/// names the version on offer.
pub proof fn lemma_outdated_once(m: LocalModView, remote: Seq<(Seq<char>, RemoteModView)>)
    requires
        needs_update(m, remote),
        !has_outdated(m.errors),
    ensures
        marked(marked(m, remote), remote).errors == m.errors.push(
            ModValidationErrorView::Outdated(
                remote_of(m.manifest.unique_name, remote)->0.version,
            ),
        ),
        outdated_count(marked(marked(m, remote), remote).errors) == 1,
{
    lemma_marked_twice(m, remote);
    let is_outdated = |e: ModValidationErrorView| e is Outdated;
    let before = m.errors.filter(is_outdated);
    assert(before.len() == 0) by {
        if before.len() > 0 {
            m.errors.lemma_filter_pred(is_outdated, 0);
            assert(before.contains(before[0]));
            m.errors.lemma_filter_contains_rev(is_outdated, before[0]);
            let k = choose|k: int| 0 <= k < m.errors.len() && m.errors[k] == before[0];
            assert(m.errors[k] is Outdated);
        }
    }
    m.errors.lemma_filter_push(
        ModValidationErrorView::Outdated(remote_of(m.manifest.unique_name, remote)->0.version),
        is_outdated,
    );
}

/// Whether one of `errors` says that a newer version is on offer.
pub fn any_outdated(errors: &Vec<ModValidationError>) -> (r: bool)
    ensures
        r == has_outdated(errors.deep_view()),
{
    let mut i: usize = 0;
    while i < errors.len()
        invariant
            i <= errors@.len(),
            forall|j: int| 0 <= j < i ==> !(errors.deep_view()[j] is Outdated),
        decreases errors@.len() - i,
    {
        if errors[i].is_outdated() {
            assert(errors.deep_view()[i as int] is Outdated);
            return true;
        }
        i += 1;
    }
    false
}

/// Decides whether a mod is to be updated, from the outcome of comparing the
/// remote version with the local one.
pub fn is_update_needed(
    order: Option<VersionOrder>,
    local_version: &str,
    remote_version: &str,
) -> (r: bool)
    ensures
        r == update_needed(order, local_version@, remote_version@),
{
    match order {
        Some(VersionOrder::Gt) => true,
        Some(_) => false,
        None => !same_text(local_version, remote_version),
    }
}

/// Checks a mod against the remote database. Returns whether there is
/// something newer on offer, and what the database offers for the mod,
/// newer or not.
pub fn check_mod_needs_update<'a>(local_mod: &LocalMod, remote_db: &'a RemoteDatabase) -> (r: (
    bool,
    Option<&'a RemoteMod>,
))
    ensures
        r.0 == needs_update(local_mod@, remote_db@),
        match r.1 {
            Some(offer) => remote_of(local_mod@.manifest.unique_name, remote_db@) == Some(offer@)
                && remote_db.mods.values().contains(*offer),
            None => remote_of(local_mod@.manifest.unique_name, remote_db@) is None,
        },
{
    let remote_mod = if same_text(local_mod.manifest.unique_name.as_str(), OWML_UNIQUE_NAME) {
        remote_db.get_owml()
    } else {
        remote_db.get_mod(local_mod.manifest.unique_name.as_str())
    };
    match remote_mod {
        Some(offer) => {
            proof {
                let key = if local_mod.manifest.unique_name@ == OWML_UNIQUE_NAME@ {
                    OWML_UNIQUE_NAME@
                } else {
                    local_mod.manifest.unique_name@
                };
                remote_db.mods.lemma_position(key);
                let i = remote_db.mods.position(key)->0;
                assert(remote_db.mods.values()[i] == *offer);
            }
            let order = compare_versions(
                offer.version.as_str(),
                local_mod.manifest.version.as_str(),
            );
            (
                is_update_needed(
                    order,
                    local_mod.manifest.version.as_str(),
                    offer.version.as_str(),
                ),
                Some(offer),
            )
        },
        None => (false, None),
    }
}

/// What is to be updated: what the remote database offers for each mod
/// that is behind it, and what it offers for the mod loader if the loader is
/// behind.
#[derive(Debug, PartialEq, Eq)]
pub struct UpdatePlan<'a> {
    pub mods: Vec<&'a RemoteMod>,
    pub owml: Option<&'a RemoteMod>,
}

/// An `UpdatePlan` as a mathematical value.
pub struct UpdatePlanView {
    pub mods: Seq<RemoteModView>,
    pub owml: Option<RemoteModView>,
}

impl<'a> View for UpdatePlan<'a> {
    type V = UpdatePlanView;

    open spec fn view(&self) -> UpdatePlanView {
        UpdatePlanView { mods: self.mods.deep_view(), owml: self.owml.deep_view() }
    }
}

/// What the remote database offers for `m`, if that is newer than `m`.
pub open spec fn offer_for(m: LocalModView, remote: Seq<(Seq<char>, RemoteModView)>) -> Option<
    RemoteModView,
> {
    if needs_update(m, remote) {
        remote_of(m.manifest.unique_name, remote)
    } else {
        None
    }
}

/// What the remote database offers for a record of the local database, if
/// the record is a mod and the offer is newer.
pub open spec fn offer_for_record(
    record: UnsafeLocalModView,
    remote: Seq<(Seq<char>, RemoteModView)>,
) -> Option<RemoteModView> {
    match valid_part(record) {
        Some(m) => offer_for(m, remote),
        None => None,
    }
}

/// The plan for the local database `db`, the mod loader `owml` where it is
/// installed, and the remote database `remote`: the offers for the mods that
/// are behind, in the order of the local database, and the offer for the
/// loader if it is behind.
pub open spec fn planned(
    db: Seq<(Seq<char>, UnsafeLocalModView)>,
    owml: Option<LocalModView>,
    remote: Seq<(Seq<char>, RemoteModView)>,
) -> UpdatePlanView {
    UpdatePlanView {
        mods: db.filter_map(
            |e: (Seq<char>, UnsafeLocalModView)| offer_for_record(e.1, remote),
        ),
        owml: match owml {
            Some(owml) => offer_for(owml, remote),
            None => None,
        },
    }
}

/// Finds what is to be updated.
pub fn plan_updates<'a>(
    local_db: &LocalDatabase,
    owml: Option<&LocalMod>,
    remote_db: &'a RemoteDatabase,
) -> (r: UpdatePlan<'a>)
    ensures
        r@ == planned(
            local_db@,
            match owml {
                Some(owml) => Some(owml@),
                None => None,
            },
            remote_db@,
        ),
{
    let ghost select = |e: (Seq<char>, UnsafeLocalModView)| offer_for_record(e.1, remote_db@);
    let mut mods: Vec<&'a RemoteMod> = Vec::new();
    let mut i: usize = 0;
    assert(mods.deep_view() =~= local_db@.take(0).filter_map(select));
    while i < local_db.mods.entries.len()
        invariant
            i <= local_db.mods.entries@.len(),
            select == |e: (Seq<char>, UnsafeLocalModView)| offer_for_record(e.1, remote_db@),
            mods.deep_view() == local_db@.take(i as int).filter_map(select),
        decreases local_db.mods.entries@.len() - i,
    {
        proof {
            local_db@.lemma_filter_map_take_succ(select, i as int);
        }
        let ghost before = mods.deep_view();
        match &local_db.mods.entries[i].1 {
            UnsafeLocalMod::Valid(local_mod) => {
                assert(local_db@[i as int].1 == UnsafeLocalModView::Valid(local_mod@));
                let (update, remote_mod) = check_mod_needs_update(local_mod, remote_db);
                if update {
                    match remote_mod {
                        Some(offer) => {
                            mods.push(offer);
                            assert(mods.deep_view() =~= before + seq![offer@]);
                        },
                        None => {},
                    }
                } else {
                    assert(mods.deep_view() =~= before + Seq::empty());
                }
            },
            UnsafeLocalMod::Invalid(failed_mod) => {
                assert(local_db@[i as int].1 == UnsafeLocalModView::Invalid(failed_mod@));
                assert(mods.deep_view() =~= before + Seq::empty());
            },
        }
        i += 1;
    }
    assert(local_db@.take(local_db.mods.entries@.len() as int) =~= local_db@);
    let owml_offer = match owml {
        Some(owml) => {
            let (update, remote_owml) = check_mod_needs_update(owml, remote_db);
            if update {
                remote_owml
            } else {
                None
            }
        },
        None => None,
    };
    UpdatePlan { mods, owml: owml_offer }
}

/// What came back from the work that the last step of an update asked for.
#[derive(Debug, PartialEq, Eq)]
pub enum UpdateEvent {
    /// Nothing yet: the update begins.
    Started,
    /// The mod loader was installed, or could not be.
    OwmlInstalled(Result<(), String>),
    /// The mods were installed, and these are their new records; or they
    /// could not be.
    ModsInstalled(Result<Vec<LocalMod>, String>),
}

/// An `UpdateEvent` as a mathematical value.
pub enum UpdateEventView {
    Started,
    OwmlInstalled(Result<(), Seq<char>>),
    ModsInstalled(Result<Seq<LocalModView>, Seq<char>>),
}

impl View for UpdateEvent {
    type V = UpdateEventView;

    open spec fn view(&self) -> UpdateEventView {
        match self {
            UpdateEvent::Started => UpdateEventView::Started,
            UpdateEvent::OwmlInstalled(Ok(_)) => UpdateEventView::OwmlInstalled(Ok(())),
            UpdateEvent::OwmlInstalled(Err(e)) => UpdateEventView::OwmlInstalled(Err(e@)),
            UpdateEvent::ModsInstalled(Ok(updated)) => UpdateEventView::ModsInstalled(
                Ok(updated.deep_view()),
            ),
            UpdateEvent::ModsInstalled(Err(e)) => UpdateEventView::ModsInstalled(Err(e@)),
        }
    }
}

/// The next step of an update.
#[derive(Debug, PartialEq, Eq)]
pub enum UpdateAction<'a> {
    /// Install the mod loader as the remote database offers it.
    InstallOwml(&'a RemoteMod),
    /// Install the mods of these unique names, all at once.
    InstallMods(Vec<String>),
    /// The update is over. `changed` says whether anything was or is to be
    /// updated, or why the update failed; `updated` holds the unique names of
    /// the mods that were updated, each of which is to be reported.
    Finish { changed: Result<bool, String>, updated: Vec<String> },
}

/// An `UpdateAction` as a mathematical value.
pub enum UpdateActionView {
    InstallOwml(RemoteModView),
    InstallMods(Seq<Seq<char>>),
    Finish { changed: Result<bool, Seq<char>>, updated: Seq<Seq<char>> },
}

impl<'a> View for UpdateAction<'a> {
    type V = UpdateActionView;

    open spec fn view(&self) -> UpdateActionView {
        match self {
            UpdateAction::InstallOwml(offer) => UpdateActionView::InstallOwml(offer@),
            UpdateAction::InstallMods(names) => UpdateActionView::InstallMods(names.deep_view()),
            UpdateAction::Finish { changed: Ok(changed), updated } => UpdateActionView::Finish {
                changed: Ok(*changed),
                updated: updated.deep_view(),
            },
            UpdateAction::Finish { changed: Err(e), updated } => UpdateActionView::Finish {
                changed: Err(e@),
                updated: updated.deep_view(),
            },
        }
    }
}

/// The unique names of the offers `mods`.
pub open spec fn offer_names(mods: Seq<RemoteModView>) -> Seq<Seq<char>> {
    Seq::new(mods.len(), |i: int| mods[i].unique_name)
}

/// The unique names of the mods `mods`.
pub open spec fn mod_names(mods: Seq<LocalModView>) -> Seq<Seq<char>> {
    Seq::new(mods.len(), |i: int| mods[i].manifest.unique_name)
}

/// The end of an update at which nothing is to be reported.
pub open spec fn finished(changed: Result<bool, Seq<char>>) -> UpdateActionView {
    UpdateActionView::Finish { changed, updated: Seq::empty() }
}

/// The step that follows once the mod loader is dealt with. With no mod
/// behind, the update is over, and something has changed if the loader was
/// behind. With mods behind, a dry run is over too, and says that there are
/// changes; any other run installs those mods.
pub open spec fn after_owml(plan: UpdatePlanView, dry: bool) -> UpdateActionView {
    if plan.mods.len() == 0 {
        finished(Ok(plan.owml is Some))
    } else if dry {
        finished(Ok(true))
    } else {
        UpdateActionView::InstallMods(offer_names(plan.mods))
    }
}

/// The step that follows `event` in an update by `plan`. The update begins
/// with the mod loader: where it is behind it is installed, in a dry run
/// too. A failed installation ends the update with its error. Once the mods
/// are installed the update is over, with each of them to be reported.
pub open spec fn next_action(
    plan: UpdatePlanView,
    dry: bool,
    event: UpdateEventView,
) -> UpdateActionView {
    match event {
        UpdateEventView::Started => match plan.owml {
            Some(offer) => UpdateActionView::InstallOwml(offer),
            None => after_owml(plan, dry),
        },
        UpdateEventView::OwmlInstalled(Ok(_)) => after_owml(plan, dry),
        UpdateEventView::OwmlInstalled(Err(e)) => finished(Err(e)),
        UpdateEventView::ModsInstalled(Ok(updated)) => UpdateActionView::Finish {
            changed: Ok(true),
            updated: mod_names(updated),
        },
        UpdateEventView::ModsInstalled(Err(e)) => finished(Err(e)),
    }
}

/// Whether a plan holds anything to update.
pub open spec fn has_changes(plan: UpdatePlanView) -> bool {
    plan.owml is Some || plan.mods.len() > 0
}

/// The step that follows `action` where the work it asks for is done and
/// has gone well; `updated` holds the records of the mods that an
/// installation of mods gives back. The last step follows itself.
pub open spec fn next_if_well(
    plan: UpdatePlanView,
    dry: bool,
    action: UpdateActionView,
    updated: Seq<LocalModView>,
) -> UpdateActionView {
    match action {
        UpdateActionView::InstallOwml(_) => next_action(
            plan,
            dry,
            UpdateEventView::OwmlInstalled(Ok(())),
        ),
        UpdateActionView::InstallMods(_) => next_action(
            plan,
            dry,
            UpdateEventView::ModsInstalled(Ok(updated)),
        ),
        UpdateActionView::Finish { .. } => action,
    }
}

/// The mod loader is installed first wherever it is behind, in a dry run as
/// in any other.
pub proof fn lemma_owml_comes_first(plan: UpdatePlanView, dry: bool)
    requires
        plan.owml is Some,
    ensures
        next_action(plan, dry, UpdateEventView::Started) == UpdateActionView::InstallOwml(
            plan.owml->0,
        ),
{
}

/// An update in which every installation goes well is over after three
/// steps at most, and says that something has changed exactly where the plan
/// held something to update, in a dry run as in any other. Mods are
/// installed on the way exactly where some are behind and the run is not
/// dry, and then all of them at once.
pub proof fn lemma_update_outcome(plan: UpdatePlanView, dry: bool, updated: Seq<LocalModView>)
    ensures
        ({
            let first = next_action(plan, dry, UpdateEventView::Started);
            let second = next_if_well(plan, dry, first, updated);
            let third = next_if_well(plan, dry, second, updated);
            &&& third is Finish
            &&& third->changed == Ok::<bool, Seq<char>>(has_changes(plan))
            &&& (first is InstallOwml <==> plan.owml is Some)
            &&& (first is InstallMods || second is InstallMods <==> plan.mods.len() > 0 && !dry)
            &&& (first is InstallMods ==> first->InstallMods_0 == offer_names(plan.mods))
            &&& (second is InstallMods ==> second->InstallMods_0 == offer_names(plan.mods))
        }),
{
}

fn finish<'a>(changed: Result<bool, String>) -> (r: UpdateAction<'a>)
    ensures
        r@ == finished(
            match changed {
                Ok(c) => Ok(c),
                Err(e) => Err(e@),
            },
        ),
{
    let updated: Vec<String> = Vec::new();
    assert(updated.deep_view() =~= Seq::empty());
    UpdateAction::Finish { changed, updated }
}

fn step_after_owml<'a>(plan: &UpdatePlan<'a>, dry: bool) -> (r: UpdateAction<'a>)
    ensures
        r@ == after_owml(plan@, dry),
{
    if plan.mods.len() == 0 {
        finish(Ok(plan.owml.is_some()))
    } else if dry {
        finish(Ok(true))
    } else {
        let mut names: Vec<String> = Vec::new();
        let mut i: usize = 0;
        while i < plan.mods.len()
            invariant
                i <= plan.mods@.len(),
                names@.len() == i,
                forall|j: int| 0 <= j < i ==> #[trigger] names@[j]@ == plan.mods@[j].unique_name@,
            decreases plan.mods@.len() - i,
        {
            names.push(plan.mods[i].unique_name.clone());
            i += 1;
        }
        assert(names.deep_view() =~= offer_names(plan@.mods));
        UpdateAction::InstallMods(names)
    }
}

/// Decides the next step of an update of all mods and of the mod loader.
/// The caller begins with the event `Started`, does what the returned step
/// says, and comes back with what became of it, until the step is `Finish`.
pub fn update_all<'a>(plan: &UpdatePlan<'a>, dry: bool, event: UpdateEvent) -> (r: UpdateAction<'a>)
    ensures
        r@ == next_action(plan@, dry, event@),
{
    match event {
        UpdateEvent::Started => match plan.owml {
            Some(offer) => UpdateAction::InstallOwml(offer),
            None => step_after_owml(plan, dry),
        },
        UpdateEvent::OwmlInstalled(Ok(_)) => step_after_owml(plan, dry),
        UpdateEvent::OwmlInstalled(Err(e)) => finish(Err(e)),
        UpdateEvent::ModsInstalled(Ok(updated_mods)) => {
            let mut updated: Vec<String> = Vec::new();
            let mut i: usize = 0;
            while i < updated_mods.len()
                invariant
                    i <= updated_mods@.len(),
                    updated@.len() == i,
                    forall|j: int| 0 <= j < i ==> #[trigger] updated@[j]@
                        == updated_mods@[j].manifest.unique_name@,
                decreases updated_mods@.len() - i,
            {
                updated.push(updated_mods[i].manifest.unique_name.clone());
                i += 1;
            }
            assert(updated.deep_view() =~= mod_names(updated_mods.deep_view()));
            UpdateAction::Finish { changed: Ok(true), updated }
        },
        UpdateEvent::ModsInstalled(Err(e)) => finish(Err(e)),
    }
}

} // verus!
