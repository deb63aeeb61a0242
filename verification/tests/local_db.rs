use std::path::PathBuf;

use owmods_core::db::load::{LoadError, ManifestFile};
use owmods_core::db::{LocalDatabase, RemoteDatabase};
use owmods_core::mods::local::{FailedMod, LocalMod, UnsafeLocalMod};
use owmods_core::mods::remote::RemoteMod;
use owmods_core::validate::ModValidationError;

fn get_test_file(name: &str) -> PathBuf {
    PathBuf::from("/home/user/test_files").join(name)
}

fn manifest_at(root: &PathBuf, folder: &str, content: &str) -> ManifestFile {
    ManifestFile {
        path: root
            .join("Mods")
            .join(folder)
            .join("manifest")
            .with_extension("json")
            .to_str()
            .unwrap()
            .to_string(),
        content: Ok(content.to_string()),
        enabled: Ok(true),
    }
}

fn good_files(root: &PathBuf) -> Vec<ManifestFile> {
    vec![
        manifest_at(
            root,
            "Bwc9876.TimeSaver",
            r#"{
  "$schema": "https://raw.githubusercontent.com/amazingalek/owml/master/schemas/manifest_schema.json",
  "filename": "TimeSaver.dll",
  "author": "Bwc9876",
  "name": "TimeSaver",
  "uniqueName": "Bwc9876.TimeSaver",
  "version": "1.1.1",
  "owmlVersion": "2.7.2"
}"#,
        ),
        manifest_at(
            root,
            "Bwc9876.SaveEditor",
            r#"{
  "filename": "SaveEditor.dll",
  "author": "Bwc9876",
  "name": "SaveEditor",
  "uniqueName": "Bwc9876.SaveEditor",
  "version": "1.0.0",
  "dependencies": ["Bwc9876.TimeSaver"]
}"#,
        ),
    ]
}

fn invalid_files(root: &PathBuf) -> Vec<ManifestFile> {
    vec![
        manifest_at(
            root,
            "Dupe.Mod1",
            r#"{"filename": "Dupe.dll", "author": "Dupe", "name": "Dupe", "uniqueName": "Dupe.Mod", "version": "0.1.0"}"#,
        ),
        manifest_at(
            root,
            "Dupe.Mod2",
            r#"{"filename": "Dupe.dll", "author": "Dupe", "name": "Dupe", "uniqueName": "Dupe.Mod", "version": "0.1.0"}"#,
        ),
        manifest_at(
            root,
            "Invalid.Manifest",
            r#"{"filename": "Invalid.dll", "author": "Invalid", "name": "Invalid", "uniqueName": "Invalid.Manifest", "version": 1}"#,
        ),
    ]
}

#[test]
fn test_local_db_fetch() {
    let mods_path = get_test_file("");
    let files = good_files(&mods_path);
    let db = LocalDatabase::fetch(mods_path.to_str().unwrap(), Some(&files));
    assert_eq!(db.valid().iter().count(), 2);
    assert_eq!(
        db.get_mod("Bwc9876.TimeSaver").unwrap().manifest.name,
        "TimeSaver"
    );
}

#[test]
fn test_local_db_get_owml() {
    let mods_path = get_test_file("");
    let content = Ok(r#"{
  "author": "Alek",
  "name": "OWML",
  "uniqueName": "Alek.OWML",
  "version": "2.9.0",
  "minGameVersion": "1.1.13.393"
}"#
    .to_string());
    let owml = LocalDatabase::get_owml(mods_path.to_str().unwrap(), &content);
    assert!(owml.is_some());
    assert_eq!(owml.unwrap().manifest.name, "OWML");
}

#[test]
fn test_local_db_invalid_manifest() {
    let mods_path = get_test_file("Invalid");
    let files = invalid_files(&mods_path);
    let db = LocalDatabase::fetch(mods_path.to_str().unwrap(), Some(&files));
    let bad_mod_path = mods_path.join("Mods").join("Invalid.Manifest");
    let bad_mod = db.get_mod_unsafe(bad_mod_path.to_str().unwrap()).unwrap();
    if let UnsafeLocalMod::Invalid(bad_mod) = bad_mod {
        assert_eq!(bad_mod.mod_path, bad_mod_path.to_str().unwrap());
        if let ModValidationError::InvalidManifest(e) = &bad_mod.error {
            assert!(e.to_ascii_lowercase().contains("string"));
        } else {
            panic!("Wrong Error on bad_mod!");
        }
    } else {
        panic!("Mod valid when it shouldn't be!");
    }
}

#[test]
fn test_local_db_dupe_mods() {
    let mods_path = get_test_file("Invalid");
    let files = invalid_files(&mods_path);
    let db = LocalDatabase::fetch(mods_path.to_str().unwrap(), Some(&files));
    let bad_mod_path = mods_path.join("Mods").join("Dupe.Mod2");
    let other_mod_path = mods_path.join("Mods").join("Dupe.Mod1");
    let bad_mod = db.get_mod_unsafe(bad_mod_path.to_str().unwrap()).unwrap();
    if let UnsafeLocalMod::Invalid(bad_mod) = bad_mod {
        assert_eq!(bad_mod.mod_path, bad_mod_path.to_str().unwrap());
        if let ModValidationError::DuplicateMod(other) = &bad_mod.error {
            assert_eq!(other, other_mod_path.to_str().unwrap());
        } else {
            panic!("Wrong Error on bad_mod!");
        }
    } else {
        panic!("Mod valid when it shouldn't be!");
    }
}

fn manifest_text(unique_name: &str, name: &str, version: &str, more: &str) -> String {
    format!(
        "{{\"uniqueName\": \"{unique_name}\", \"name\": \"{name}\", \"version\": \"{version}\"{more}}}"
    )
}

fn names(mods: &Vec<&LocalMod>) -> Vec<String> {
    mods.iter().map(|m| m.manifest.unique_name.clone()).collect()
}

fn keys(records: &Vec<&UnsafeLocalMod>) -> Vec<String> {
    records
        .iter()
        .map(|r| match r {
            UnsafeLocalMod::Valid(m) => m.manifest.unique_name.clone(),
            UnsafeLocalMod::Invalid(f) => f.display_path.clone(),
        })
        .collect()
}

fn sample_db() -> LocalDatabase {
    let root = get_test_file("Sample");
    let files = vec![
        manifest_at(&root, "A", &manifest_text("Author.A", "Alpha", "1.0.0", "")),
        manifest_at(
            &root,
            "B",
            &manifest_text("Author.B", "Beta", "2.0", ", \"dependencies\": [\"Author.A\"]"),
        ),
        manifest_at(
            &root,
            "C",
            &manifest_text(
                "Author.C",
                "Gamma",
                "0.3.0",
                ", \"dependencies\": [\"Author.B\", \"Author.Gone\"], \"conflicts\": [\"Author.A\", \"Author.Absent\"]",
            ),
        ),
        manifest_at(&root, "Broken", "{ not json"),
    ];
    LocalDatabase::fetch(root.to_str().unwrap(), Some(&files))
}

#[test]
fn fetch_without_mods_folder_is_empty() {
    let db = LocalDatabase::fetch("/nowhere", None);
    assert!(db.all().is_empty());
    assert!(db.valid().is_empty());
    assert!(db.mods.is_empty());
}

#[test]
fn fetch_of_empty_mods_folder_is_empty() {
    let files = vec![];
    let db = LocalDatabase::fetch("/somewhere", Some(&files));
    assert_eq!(db.mods.len(), 0);
}

#[test]
fn fetch_records_manifest_without_folder_as_failed() {
    let files = vec![
        ManifestFile {
            path: String::new(),
            content: Ok(manifest_text("Author.A", "Alpha", "1.0.0", "")),
            enabled: Ok(true),
        },
        manifest_at(
            &get_test_file("Some"),
            "B",
            &manifest_text("Author.B", "Beta", "1.0.0", ""),
        ),
    ];
    let db = LocalDatabase::fetch(get_test_file("Some").to_str().unwrap(), Some(&files));
    assert_eq!(
        db.get_mod_unsafe(""),
        Some(&UnsafeLocalMod::Invalid(FailedMod {
            error: ModValidationError::InvalidManifest("Mod Path Not Found".to_string()),
            mod_path: String::new(),
            display_path: String::new(),
        }))
    );
    assert!(db.get_mod("Author.A").is_none());
    assert_eq!(names(&db.valid()), vec!["Author.B"]);
}

#[test]
fn fetch_counts_every_distinct_mod() {
    let root = get_test_file("Three");
    let files = vec![
        manifest_at(&root, "A", &manifest_text("Author.A", "Alpha", "1.0.0", "")),
        manifest_at(&root, "B", &manifest_text("Author.B", "Beta", "1.0.0", "")),
        manifest_at(&root, "deep/er/C", &manifest_text("Author.C", "Gamma", "1.0.0", "")),
    ];
    let db = LocalDatabase::fetch(root.to_str().unwrap(), Some(&files));
    assert_eq!(db.valid().len(), 3);
    assert_eq!(
        names(&db.valid()),
        vec!["Author.A", "Author.B", "Author.C"]
    );
    assert_eq!(db.all().len(), 3);
    assert!(db.invalid().is_empty());
}

#[test]
fn fetch_keeps_first_of_two_mods_with_one_name() {
    let root = get_test_file("Invalid");
    let files = invalid_files(&root);
    let db = LocalDatabase::fetch(root.to_str().unwrap(), Some(&files));
    let first = db.get_mod("Dupe.Mod").unwrap();
    assert_eq!(
        first.mod_path,
        root.join("Mods").join("Dupe.Mod1").to_str().unwrap()
    );
    assert_eq!(db.valid().len(), 1);
    assert_eq!(db.all().len(), 3);
    assert_eq!(keys(&db.all()), vec!["Dupe.Mod", "Dupe.Mod2", "Invalid.Manifest"]);
    assert_eq!(keys(&db.invalid()), vec!["Dupe.Mod2", "Invalid.Manifest"]);
}

#[test]
fn fetch_counts_one_less_for_each_duplicate() {
    let root = get_test_file("Dupes");
    let files = vec![
        manifest_at(&root, "A1", &manifest_text("Author.A", "Alpha", "1.0.0", "")),
        manifest_at(&root, "B1", &manifest_text("Author.B", "Beta", "1.0.0", "")),
        manifest_at(&root, "A2", &manifest_text("Author.A", "Alpha", "1.0.1", "")),
        manifest_at(&root, "A3", &manifest_text("Author.A", "Alpha", "1.0.2", "")),
    ];
    let db = LocalDatabase::fetch(root.to_str().unwrap(), Some(&files));
    assert_eq!(db.valid().len(), 2);
    assert_eq!(db.get_mod("Author.A").unwrap().manifest.version, "1.0.0");
    let first_path = root.join("Mods").join("A1");
    for later in ["A2", "A3"] {
        let path = root.join("Mods").join(later);
        match db.get_mod_unsafe(path.to_str().unwrap()).unwrap() {
            UnsafeLocalMod::Invalid(failed) => {
                assert_eq!(
                    failed.error,
                    ModValidationError::DuplicateMod(first_path.to_str().unwrap().to_string())
                );
                assert_eq!(failed.display_path, later);
            }
            UnsafeLocalMod::Valid(_) => panic!("a duplicate must not be a mod"),
        }
    }
}

#[test]
fn failed_mod_shows_path_below_mods_folder() {
    let db = sample_db();
    let root = get_test_file("Sample");
    let path = root.join("Mods").join("Broken");
    match db.get_mod_unsafe(path.to_str().unwrap()).unwrap() {
        UnsafeLocalMod::Invalid(failed) => {
            assert_eq!(failed.mod_path, path.to_str().unwrap());
            assert_eq!(failed.display_path, "Broken");
            assert!(matches!(failed.error, ModValidationError::InvalidManifest(_)));
        }
        UnsafeLocalMod::Valid(_) => panic!("no mod can be made of this folder"),
    }
    assert!(db.get_mod(path.to_str().unwrap()).is_none());
}

#[test]
fn read_local_mod_reads_folder_version_and_marker() {
    let file = ManifestFile {
        path: "/mods/Author.A/manifest".to_string(),
        content: Ok(manifest_text("Author.A", "Alpha", "v1.2", "")),
        enabled: Ok(false),
    };
    let local_mod = LocalDatabase::read_local_mod(&file).unwrap();
    assert_eq!(local_mod.mod_path, "/mods/Author.A");
    assert_eq!(local_mod.manifest.unique_name, "Author.A");
    assert_eq!(local_mod.manifest.name, "Alpha");
    assert_eq!(local_mod.manifest.version, "1.2.0");
    assert_eq!(local_mod.manifest.dependencies, None);
    assert_eq!(local_mod.manifest.conflicts, None);
    assert!(!local_mod.enabled);
    assert!(local_mod.errors.is_empty());
}

#[test]
fn read_local_mod_mends_trailing_commas_and_byte_order_mark() {
    let file = ManifestFile {
        path: "/mods/Author.A/manifest".to_string(),
        content: Ok(
            "\u{feff}{\"uniqueName\": \"Author.A\", \"name\": \"Alpha\", \"version\": \"1.0.0\", \"dependencies\": [\"Author.B\", ], }"
                .to_string(),
        ),
        enabled: Ok(true),
    };
    let local_mod = LocalDatabase::read_local_mod(&file).unwrap();
    assert_eq!(
        local_mod.manifest.dependencies,
        Some(vec!["Author.B".to_string()])
    );
}

#[test]
fn read_local_mod_fails_without_folder() {
    let file = ManifestFile {
        path: String::new(),
        content: Ok(manifest_text("Author.A", "Alpha", "1.0.0", "")),
        enabled: Ok(true),
    };
    assert_eq!(
        LocalDatabase::read_local_mod(&file),
        Err(LoadError::PathInvalid)
    );
}

#[test]
fn read_local_mod_fails_on_unreadable_file() {
    let file = ManifestFile {
        path: "/mods/Author.A/manifest".to_string(),
        content: Err("permission denied".to_string()),
        enabled: Ok(true),
    };
    assert_eq!(
        LocalDatabase::read_local_mod(&file),
        Err(LoadError::Unreadable("permission denied".to_string()))
    );
}

#[test]
fn read_local_mod_fails_on_text_that_is_no_json() {
    let file = ManifestFile {
        path: "/mods/Author.A/manifest".to_string(),
        content: Ok("{ not json".to_string()),
        enabled: Ok(true),
    };
    match LocalDatabase::read_local_mod(&file) {
        Err(LoadError::InvalidManifest(message)) => {
            assert_eq!(message, "key must be a string at line 1 column 3")
        }
        other => panic!("unexpected outcome: {other:?}"),
    }
}

#[test]
fn read_local_mod_fails_on_version_that_is_no_string() {
    let file = ManifestFile {
        path: "/mods/Author.A/manifest".to_string(),
        content: Ok(r#"{"name": "Alpha", "version": 1}"#.to_string()),
        enabled: Ok(true),
    };
    assert_eq!(
        LocalDatabase::read_local_mod(&file),
        Err(LoadError::InvalidManifest(
            "invalid type: number in field `version`, expected a string".to_string()
        ))
    );
}

#[test]
fn read_local_mod_fails_on_unreadable_settings() {
    let file = ManifestFile {
        path: "/mods/Author.A/manifest".to_string(),
        content: Ok(manifest_text("Author.A", "Alpha", "1.0.0", "")),
        enabled: Err("no settings".to_string()),
    };
    assert_eq!(
        LocalDatabase::read_local_mod(&file),
        Err(LoadError::SettingsUnreadable("no settings".to_string()))
    );
}

#[test]
fn load_error_messages() {
    assert_eq!(LoadError::PathInvalid.message(), "Mod Path Not Found");
    assert_eq!(LoadError::Unreadable("a".to_string()).message(), "a");
    assert_eq!(LoadError::InvalidManifest("b".to_string()).message(), "b");
    assert_eq!(LoadError::SettingsUnreadable("c".to_string()).message(), "c");
}

#[test]
fn get_owml_is_enabled_and_without_errors() {
    let content = Ok(manifest_text("Alek.OWML", "OWML", "2.9", ""));
    let owml = LocalDatabase::get_owml("/owml", &content).unwrap();
    assert!(owml.enabled);
    assert!(owml.errors.is_empty());
    assert_eq!(owml.mod_path, "/owml");
    assert_eq!(owml.manifest.version, "2.9.0");
}

#[test]
fn get_owml_is_none_without_manifest() {
    assert_eq!(
        LocalDatabase::get_owml("/bad/path", &Err("not found".to_string())),
        None
    );
    assert_eq!(
        LocalDatabase::get_owml("/owml", &Ok("[]".to_string())),
        None
    );
    assert_eq!(
        LocalDatabase::get_owml("/owml", &Ok("{\"name\": \"OWML\"}".to_string())),
        None
    );
}

#[test]
fn validate_reports_missing_dependencies_and_present_conflicts() {
    let db = sample_db();
    assert!(db.get_mod("Author.A").unwrap().errors.is_empty());
    assert!(db.get_mod("Author.B").unwrap().errors.is_empty());
    assert_eq!(
        db.get_mod("Author.C").unwrap().errors,
        vec![
            ModValidationError::MissingDep("Author.Gone".to_string()),
            ModValidationError::ConflictingMod("Author.A".to_string()),
        ]
    );
}

#[test]
fn validate_derives_errors_anew() {
    let mut db = sample_db();
    db.get_mod_mut("Author.A")
        .unwrap()
        .errors
        .push(ModValidationError::Outdated("9.9.9".to_string()));
    db.get_mod_mut("Author.B").unwrap().manifest.dependencies =
        Some(vec!["Author.Nobody".to_string()]);
    db.validate();
    assert!(db.get_mod("Author.A").unwrap().errors.is_empty());
    assert_eq!(
        db.get_mod("Author.B").unwrap().errors,
        vec![ModValidationError::MissingDep("Author.Nobody".to_string())]
    );
    db.validate();
    assert_eq!(db.get_mod("Author.B").unwrap().errors.len(), 1);
    assert_eq!(db.get_mod("Author.C").unwrap().errors.len(), 2);
}

#[test]
fn validate_survives_dependency_cycles() {
    let root = get_test_file("Cycle");
    let files = vec![
        manifest_at(
            &root,
            "A",
            &manifest_text("Author.A", "Alpha", "1.0.0", ", \"dependencies\": [\"Author.B\"]"),
        ),
        manifest_at(
            &root,
            "B",
            &manifest_text("Author.B", "Beta", "1.0.0", ", \"dependencies\": [\"Author.A\", \"Author.B\"]"),
        ),
    ];
    let db = LocalDatabase::fetch(root.to_str().unwrap(), Some(&files));
    assert!(db.get_mod("Author.A").unwrap().errors.is_empty());
    assert!(db.get_mod("Author.B").unwrap().errors.is_empty());
}

fn remote_with(unique_name: &str, version: &str) -> RemoteDatabase {
    let mut remote = RemoteDatabase::default();
    remote.mods.insert(
        unique_name.to_string(),
        RemoteMod {
            unique_name: unique_name.to_string(),
            name: unique_name.to_string(),
            version: version.to_string(),
        },
    );
    remote
}

#[test]
fn validate_updates_marks_outdated_mod_once() {
    let mut db = sample_db();
    let remote = remote_with("Author.C", "0.4.0");
    db.validate_updates(&remote);
    db.validate_updates(&remote);
    let errors = &db.get_mod("Author.C").unwrap().errors;
    assert_eq!(
        errors,
        &vec![
            ModValidationError::MissingDep("Author.Gone".to_string()),
            ModValidationError::ConflictingMod("Author.A".to_string()),
            ModValidationError::Outdated("0.4.0".to_string()),
        ]
    );
    assert_eq!(
        errors
            .iter()
            .filter(|e| matches!(e, ModValidationError::Outdated(_)))
            .count(),
        1
    );
    assert!(db.get_mod("Author.A").unwrap().errors.is_empty());
}

#[test]
fn validate_updates_leaves_current_mods_alone() {
    let mut db = sample_db();
    let remote = remote_with("Author.A", "1.0.0");
    db.validate_updates(&remote);
    assert!(db.get_mod("Author.A").unwrap().errors.is_empty());
    let older = remote_with("Author.A", "0.9.0");
    db.validate_updates(&older);
    assert!(db.get_mod("Author.A").unwrap().errors.is_empty());
}

#[test]
fn dependent_returns_direct_dependents_only() {
    let db = sample_db();
    let a = db.get_mod("Author.A").unwrap();
    let b = db.get_mod("Author.B").unwrap();
    let c = db.get_mod("Author.C").unwrap();
    assert_eq!(names(&db.dependent(a)), vec!["Author.B"]);
    assert_eq!(names(&db.dependent(b)), vec!["Author.C"]);
    assert!(db.dependent(c).is_empty());
}

#[test]
fn active_leaves_out_disabled_mods() {
    let mut db = sample_db();
    assert_eq!(
        names(&db.active()),
        vec!["Author.A", "Author.B", "Author.C"]
    );
    db.get_mod_mut("Author.B").unwrap().enabled = false;
    assert_eq!(names(&db.active()), vec!["Author.A", "Author.C"]);
    assert_eq!(names(&db.valid()), vec!["Author.A", "Author.B", "Author.C"]);
}

#[test]
fn invalid_leaves_out_disabled_mods_with_errors() {
    let mut db = sample_db();
    assert_eq!(keys(&db.invalid()), vec!["Author.C", "Broken"]);
    db.get_mod_mut("Author.C").unwrap().enabled = false;
    assert_eq!(keys(&db.invalid()), vec!["Broken"]);
    assert_eq!(db.get_mod("Author.C").unwrap().errors.len(), 2);
    assert_eq!(db.all().len(), 4);
}

#[test]
fn get_mod_mut_is_none_for_failed_and_unknown() {
    let mut db = sample_db();
    let broken = get_test_file("Sample").join("Mods").join("Broken");
    assert!(db.get_mod_mut(broken.to_str().unwrap()).is_none());
    assert!(db.get_mod_mut("Author.Nobody").is_none());
    assert!(db.get_mod("Author.Nobody").is_none());
    assert!(db.get_mod_unsafe("Author.Nobody").is_none());
    assert_eq!(db.all().len(), 4);
}

#[test]
fn search_finds_name_part_of_name_and_author() {
    let root = get_test_file("");
    let files = good_files(&root);
    let db = LocalDatabase::fetch(root.to_str().unwrap(), Some(&files));
    let results = db.search("TimeSaver");
    assert_eq!(keys(&results)[0], "Bwc9876.TimeSaver");
    let results = db.search("Saver");
    assert_eq!(keys(&results), vec!["Bwc9876.TimeSaver"]);
    let results = db.search("Bwc9876");
    assert_eq!(
        keys(&results),
        vec!["Bwc9876.TimeSaver", "Bwc9876.SaveEditor"]
    );
    assert!(db.search("Nothing Like It").is_empty());
}

#[test]
fn search_puts_exact_matches_first_and_ignores_case() {
    let root = get_test_file("Rank");
    let files = vec![
        manifest_at(&root, "A", &manifest_text("Author.Long", "Saver Deluxe", "1.0.0", "")),
        manifest_at(&root, "B", &manifest_text("Author.Short", "Saver", "1.0.0", "")),
        manifest_at(&root, "C", &manifest_text("Author.Other", "Other", "1.0.0", "")),
    ];
    let db = LocalDatabase::fetch(root.to_str().unwrap(), Some(&files));
    assert_eq!(
        keys(&db.search("sAVER")),
        vec!["Author.Short", "Author.Long"]
    );
    assert_eq!(db.search("").len(), 3);
}

#[test]
fn read_local_mod_without_folder_looks_at_nothing_else() {
    let file = ManifestFile {
        path: String::new(),
        content: Err("permission denied".to_string()),
        enabled: Err("no settings".to_string()),
    };
    let error = LocalDatabase::read_local_mod(&file).unwrap_err();
    assert_eq!(error, LoadError::PathInvalid);
    assert_eq!(error.message(), "Mod Path Not Found");
}

#[test]
fn fetch_shows_nested_folders_below_the_mods_folder() {
    let root = get_test_file("Nested");
    let files = vec![manifest_at(&root, "deep/er/C", "{ not json")];
    let db = LocalDatabase::fetch(root.to_str().unwrap(), Some(&files));
    let path = root.join("Mods").join("deep").join("er").join("C");
    match db.get_mod_unsafe(path.to_str().unwrap()).unwrap() {
        UnsafeLocalMod::Invalid(failed) => {
            assert_eq!(failed.display_path, PathBuf::from("deep").join("er").join("C").to_str().unwrap());
        }
        UnsafeLocalMod::Valid(_) => panic!("no mod can be made of this folder"),
    }
}
