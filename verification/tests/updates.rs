use owmods_core::db::{LocalDatabase, RemoteDatabase};
use owmods_core::mods::local::{LocalMod, ModManifest, UnsafeLocalMod};
use owmods_core::mods::remote::RemoteMod;
use owmods_core::updates::{
    check_mod_needs_update, plan_updates, update_all, UpdateAction, UpdateEvent, UpdatePlan,
};

fn local_test_mod(num: u8) -> LocalMod {
    LocalMod {
        enabled: true,
        errors: vec![],
        mod_path: format!("/mods/Example.TestMod{num}"),
        manifest: ModManifest {
            unique_name: format!("Example.TestMod{num}"),
            name: format!("Test Mod {num}"),
            version: "0.1.0".to_string(),
            dependencies: None,
            conflicts: None,
        },
    }
}

fn remote_test_mod(num: u8) -> RemoteMod {
    RemoteMod {
        unique_name: format!("Example.TestMod{num}"),
        name: format!("Test Mod {num}"),
        version: "0.1.0".to_string(),
    }
}

fn setup(local_version: &str, remote_version: &str) -> (LocalMod, RemoteDatabase) {
    let mut new_mod = local_test_mod(0);
    new_mod.manifest.version = local_version.to_string();
    let mut new_remote_mod = remote_test_mod(0);
    new_remote_mod.version = remote_version.to_string();
    let mut db = RemoteDatabase::default();
    db.mods
        .insert(new_remote_mod.unique_name.to_string(), new_remote_mod);
    (new_mod, db)
}

#[test]
fn test_check_mod_needs_update() {
    let (new_mod, db) = setup("0.1.0", "0.2.0");
    let (needs_update, remote) = check_mod_needs_update(&new_mod, &db);
    assert!(needs_update);
    assert_eq!(remote.unwrap().version, "0.2.0");
}

#[test]
fn test_check_mod_needs_update_none() {
    let (new_mod, db) = setup("0.2.0", "0.2.0");
    let (needs_update, _) = check_mod_needs_update(&new_mod, &db);
    assert!(!needs_update);
}

#[test]
fn test_check_mod_needs_update_invalid_versions() {
    let (new_mod, db) = setup("burger", "burger");
    let (needs_update, _) = check_mod_needs_update(&new_mod, &db);
    assert!(!needs_update);
}

#[test]
fn test_check_needs_update_invalid_mismatched_versions() {
    let (new_mod, db) = setup("burger", "burger2.0");
    let (needs_update, _) = check_mod_needs_update(&new_mod, &db);
    assert!(needs_update);
}

fn remote_db(mods: Vec<RemoteMod>) -> RemoteDatabase {
    let mut db = RemoteDatabase::default();
    for remote_mod in mods {
        db.mods.insert(remote_mod.unique_name.clone(), remote_mod);
    }
    db
}

fn local_db(mods: Vec<LocalMod>) -> LocalDatabase {
    let mut db = LocalDatabase::default();
    for local_mod in mods {
        db.mods.insert(
            local_mod.manifest.unique_name.clone(),
            UnsafeLocalMod::Valid(local_mod),
        );
    }
    db
}

fn versioned(num: u8, version: &str) -> RemoteMod {
    let mut remote_mod = remote_test_mod(num);
    remote_mod.version = version.to_string();
    remote_mod
}

fn owml(version: &str, remote: bool) -> (LocalMod, RemoteMod) {
    let mut local_owml = local_test_mod(9);
    local_owml.manifest.unique_name = "Alek.OWML".to_string();
    local_owml.manifest.version = if remote { "0.0.1" } else { version }.to_string();
    let remote_owml = RemoteMod {
        unique_name: "Alek.OWML".to_string(),
        name: "OWML".to_string(),
        version: version.to_string(),
    };
    (local_owml, remote_owml)
}

#[test]
fn check_mod_needs_update_without_offer() {
    let new_mod = local_test_mod(0);
    let db = remote_db(vec![versioned(1, "9.0.0")]);
    assert_eq!(check_mod_needs_update(&new_mod, &db), (false, None));
    assert_eq!(
        check_mod_needs_update(&new_mod, &RemoteDatabase::default()),
        (false, None)
    );
}

#[test]
fn check_mod_needs_update_hands_out_the_offer_of_an_older_version_too() {
    let (new_mod, db) = setup("0.2.0", "0.1.0");
    let (needs_update, remote) = check_mod_needs_update(&new_mod, &db);
    assert!(!needs_update);
    assert_eq!(remote.unwrap().version, "0.1.0");
}

#[test]
fn check_mod_needs_update_reads_versions_as_numbers() {
    let (new_mod, db) = setup("0.9.0", "0.10.0");
    assert!(check_mod_needs_update(&new_mod, &db).0);
    let (new_mod, db) = setup("1.0", "1.0.0");
    assert!(!check_mod_needs_update(&new_mod, &db).0);
    let (new_mod, db) = setup("1.0.0", "1.0.1-rc1");
    assert!(check_mod_needs_update(&new_mod, &db).0);
}

#[test]
fn check_mod_needs_update_for_the_mod_loader() {
    let (local_owml, remote_owml) = owml("2.9.0", true);
    let db = remote_db(vec![remote_owml]);
    let (needs_update, remote) = check_mod_needs_update(&local_owml, &db);
    assert!(needs_update);
    assert_eq!(remote, db.get_owml());
    assert_eq!(remote.unwrap().version, "2.9.0");
}

#[test]
fn remote_database_finds_mods_by_unique_name() {
    let db = remote_db(vec![versioned(1, "1.0.0"), versioned(2, "2.0.0")]);
    assert_eq!(db.get_mod("Example.TestMod2").unwrap().version, "2.0.0");
    assert!(db.get_mod("Example.TestMod3").is_none());
    assert!(db.get_owml().is_none());
}

#[test]
fn plan_holds_the_offers_for_what_is_behind() {
    let local = local_db(vec![local_test_mod(1), local_test_mod(2), local_test_mod(3)]);
    let remote = remote_db(vec![
        versioned(3, "0.3.0"),
        versioned(2, "0.1.0"),
        versioned(1, "0.2.0"),
        versioned(4, "4.0.0"),
    ]);
    let plan = plan_updates(&local, None, &remote);
    let versions: Vec<&str> = plan.mods.iter().map(|m| m.version.as_str()).collect();
    assert_eq!(versions, vec!["0.2.0", "0.3.0"]);
    assert_eq!(plan.owml, None);
}

#[test]
fn plan_holds_the_offer_for_the_mod_loader() {
    let (local_owml, remote_owml) = owml("2.9.0", true);
    let remote = remote_db(vec![remote_owml.clone()]);
    let plan = plan_updates(&LocalDatabase::default(), Some(&local_owml), &remote);
    assert!(plan.mods.is_empty());
    assert_eq!(plan.owml, Some(&remote_owml));
    let (current_owml, _) = owml("2.9.0", false);
    let plan = plan_updates(&LocalDatabase::default(), Some(&current_owml), &remote);
    assert_eq!(plan.owml, None);
    let plan = plan_updates(&LocalDatabase::default(), None, &remote);
    assert_eq!(plan.owml, None);
}

fn finish(changed: Result<bool, String>) -> UpdateAction<'static> {
    UpdateAction::Finish {
        changed,
        updated: vec![],
    }
}

#[test]
fn update_of_nothing_is_over_at_once() {
    let plan = UpdatePlan {
        mods: vec![],
        owml: None,
    };
    assert_eq!(update_all(&plan, false, UpdateEvent::Started), finish(Ok(false)));
    assert_eq!(update_all(&plan, true, UpdateEvent::Started), finish(Ok(false)));
}

#[test]
fn update_installs_the_mod_loader_even_in_a_dry_run() {
    let (_, remote_owml) = owml("2.9.0", true);
    let plan = UpdatePlan {
        mods: vec![],
        owml: Some(&remote_owml),
    };
    for dry in [false, true] {
        assert_eq!(
            update_all(&plan, dry, UpdateEvent::Started),
            UpdateAction::InstallOwml(&remote_owml)
        );
        assert_eq!(
            update_all(&plan, dry, UpdateEvent::OwmlInstalled(Ok(()))),
            finish(Ok(true))
        );
        assert_eq!(
            update_all(
                &plan,
                dry,
                UpdateEvent::OwmlInstalled(Err("no network".to_string()))
            ),
            finish(Err("no network".to_string()))
        );
    }
}

#[test]
fn update_installs_all_mods_at_once_and_reports_each() {
    let first = versioned(1, "0.2.0");
    let second = versioned(2, "0.2.0");
    let plan = UpdatePlan {
        mods: vec![&first, &second],
        owml: None,
    };
    assert_eq!(
        update_all(&plan, false, UpdateEvent::Started),
        UpdateAction::InstallMods(vec![
            "Example.TestMod1".to_string(),
            "Example.TestMod2".to_string()
        ])
    );
    assert_eq!(
        update_all(
            &plan,
            false,
            UpdateEvent::ModsInstalled(Ok(vec![local_test_mod(2)]))
        ),
        UpdateAction::Finish {
            changed: Ok(true),
            updated: vec!["Example.TestMod2".to_string()],
        }
    );
    assert_eq!(
        update_all(
            &plan,
            false,
            UpdateEvent::ModsInstalled(Err("disk full".to_string()))
        ),
        finish(Err("disk full".to_string()))
    );
}

#[test]
fn dry_update_installs_no_mods_and_reports_changes() {
    let first = versioned(1, "0.2.0");
    let (_, remote_owml) = owml("2.9.0", true);
    let plan = UpdatePlan {
        mods: vec![&first],
        owml: None,
    };
    assert_eq!(update_all(&plan, true, UpdateEvent::Started), finish(Ok(true)));
    let plan = UpdatePlan {
        mods: vec![&first],
        owml: Some(&remote_owml),
    };
    assert_eq!(
        update_all(&plan, true, UpdateEvent::Started),
        UpdateAction::InstallOwml(&remote_owml)
    );
    assert_eq!(
        update_all(&plan, true, UpdateEvent::OwmlInstalled(Ok(()))),
        finish(Ok(true))
    );
    assert_eq!(
        update_all(&plan, false, UpdateEvent::OwmlInstalled(Ok(()))),
        UpdateAction::InstallMods(vec!["Example.TestMod1".to_string()])
    );
}
