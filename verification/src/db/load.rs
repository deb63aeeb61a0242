//! From what lies in a mod's folder to the mod's record.

use crate::db::version::{fix_version, fixed_version};
use crate::json::{json_document, lemma_json_view, parse_json, Json, JsonView};
use crate::mods::local::{LocalMod, LocalModView, ModManifest, ModManifestView};
use crate::mods::manifest::{
    lemma_version_must_be_string, manifest_of, missing_field, missing_field_message,
    wrong_document, wrong_document_message, wrong_type, wrong_type_message,
};
use crate::paths::parent_path;
use crate::repair::{fix_json, repaired};
use crate::table::value_at;
use crate::text::occurs_in;
use vstd::prelude::*;

verus! {

/// What was found on disk for one manifest: the path of the manifest file,
/// the text of the file, and whether the folder's settings have the mod
/// enabled. Where the file or the settings could not be read, the message
/// that says why stands in their place.
#[derive(Debug, PartialEq, Eq)]
pub struct ManifestFile {
    pub path: String,
    pub content: Result<String, String>,
    pub enabled: Result<bool, String>,
}

/// A `ManifestFile` as a mathematical value.
pub struct ManifestFileView {
    pub path: Seq<char>,
    pub content: Result<Seq<char>, Seq<char>>,
    pub enabled: Result<bool, Seq<char>>,
}

/// The outcome of reading a text as a mathematical value.
pub open spec fn text_outcome(outcome: Result<String, String>) -> Result<Seq<char>, Seq<char>> {
    match outcome {
        Ok(text) => Ok(text@),
        Err(message) => Err(message@),
    }
}

/// The outcome of reading a setting as a mathematical value.
pub open spec fn flag_outcome(outcome: Result<bool, String>) -> Result<bool, Seq<char>> {
    match outcome {
        Ok(flag) => Ok(flag),
        Err(message) => Err(message@),
    }
}

impl View for ManifestFile {
    type V = ManifestFileView;

    open spec fn view(&self) -> ManifestFileView {
        ManifestFileView {
            path: self.path@,
            content: text_outcome(self.content),
            enabled: flag_outcome(self.enabled),
        }
    }
}

impl DeepView for ManifestFile {
    type V = ManifestFileView;

    open spec fn deep_view(&self) -> ManifestFileView {
        self@
    }
}

/// Why no mod could be made of a manifest.
#[derive(Clone, Debug, PartialEq, Eq)]
pub enum LoadError {
    /// The manifest's path names no folder that the file lies in.
    PathInvalid,
    /// The manifest file could not be read.
    Unreadable(String),
    /// The manifest's text is no JSON, or says something other than a
    /// manifest does.
    InvalidManifest(String),
    /// The folder's settings could not be read.
    SettingsUnreadable(String),
}

/// A `LoadError` as a mathematical value.
pub enum LoadErrorView {
    PathInvalid,
    Unreadable(Seq<char>),
    InvalidManifest(Seq<char>),
    SettingsUnreadable(Seq<char>),
}

impl View for LoadError {
    type V = LoadErrorView;

    open spec fn view(&self) -> LoadErrorView {
        match self {
            LoadError::PathInvalid => LoadErrorView::PathInvalid,
            LoadError::Unreadable(s) => LoadErrorView::Unreadable(s@),
            LoadError::InvalidManifest(s) => LoadErrorView::InvalidManifest(s@),
            LoadError::SettingsUnreadable(s) => LoadErrorView::SettingsUnreadable(s@),
        }
    }
}

impl DeepView for LoadError {
    type V = LoadErrorView;

    open spec fn deep_view(&self) -> LoadErrorView {
        self@
    }
}

/// The words in which a `LoadError` is reported.
pub open spec fn load_message(error: LoadErrorView) -> Seq<char> {
    match error {
        LoadErrorView::PathInvalid => "Mod Path Not Found"@,
        LoadErrorView::Unreadable(s) => s,
        LoadErrorView::InvalidManifest(s) => s,
        LoadErrorView::SettingsUnreadable(s) => s,
    }
}

impl LoadError {
    /// The words in which this error is reported.
    pub fn message(&self) -> (r: String)
        ensures
            r@ == load_message(self@),
    {
        match self {
            LoadError::PathInvalid => String::from_str("Mod Path Not Found"),
            LoadError::Unreadable(s) => s.clone(),
            LoadError::InvalidManifest(s) => s.clone(),
            LoadError::SettingsUnreadable(s) => s.clone(),
        }
    }
}

/// Whether the settings of a mod have the mod enabled, or the message that
/// says why they do not tell. The settings must be an object whose field
/// `enabled` is true or false.
pub open spec fn enabled_in(settings: JsonView) -> Result<bool, Seq<char>> {
    match settings {
        JsonView::Object(members) => match value_at(members, "enabled"@) {
            None => Err(missing_field("enabled"@)),
            Some(JsonView::Bool(enabled)) => Ok(enabled),
            Some(other) => Err(wrong_type(other, "enabled"@, "a boolean"@)),
        },
        other => Err(wrong_document(other)),
    }
}

/// Whether a mod is enabled, given the outcome of parsing the settings in
/// its folder, or `None` where the folder holds no settings: a mod without
/// settings is enabled.
pub open spec fn enabled_from_parsed(parsed: Option<Result<JsonView, Seq<char>>>) -> Result<
    bool,
    Seq<char>,
> {
    match parsed {
        None => Ok(true),
        Some(Err(message)) => Err(message),
        Some(Ok(settings)) => enabled_in(settings),
    }
}

/// Whether a mod is enabled, given the text of the settings in its folder,
/// or `None` where the folder holds no settings.
pub open spec fn enabled_by(settings: Option<Seq<char>>) -> Result<bool, Seq<char>> {
    enabled_from_parsed(
        match settings {
            Some(text) => Some(json_document(text)),
            None => None,
        },
    )
}

/// Reads from the parsed settings of a mod whether the mod is enabled.
/// `parsed` is `None` where the mod's folder holds no settings.
pub fn is_enabled_in(parsed: Option<Result<Json, String>>) -> (r: Result<bool, String>)
    ensures
        match r {
            Ok(enabled) => enabled_from_parsed(
                match parsed {
                    Some(Ok(json)) => Some(Ok(json@)),
                    Some(Err(message)) => Some(Err(message@)),
                    None => None,
                },
            ) == Ok::<bool, Seq<char>>(enabled),
            Err(message) => enabled_from_parsed(
                match parsed {
                    Some(Ok(json)) => Some(Ok(json@)),
                    Some(Err(message)) => Some(Err(message@)),
                    None => None,
                },
            ) == Err::<bool, Seq<char>>(message@),
        },
{
    match parsed {
        None => Ok(true),
        Some(Err(message)) => Err(message),
        Some(Ok(json)) => {
            proof {
                lemma_json_view(json);
            }
            match &json {
                Json::Object(members) => {
                    proof {
                        members.lemma_model("enabled"@);
                    }
                    match members.get("enabled") {
                        None => Err(missing_field_message("enabled")),
                        Some(Json::Bool(enabled)) => Ok(*enabled),
                        Some(other) => Err(wrong_type_message(other, "enabled", "a boolean")),
                    }
                },
                other => Err(wrong_document_message(other)),
            }
        },
    }
}

/// Reads from the text of the settings in a mod's folder whether the mod is
/// enabled. `settings` is `None` where the folder holds no settings.
pub fn get_mod_enabled(settings: Option<&str>) -> (r: Result<bool, String>)
    ensures
        match r {
            Ok(enabled) => enabled_by(
                match settings {
                    Some(text) => Some(text@),
                    None => None,
                },
            ) == Ok::<bool, Seq<char>>(enabled),
            Err(message) => enabled_by(
                match settings {
                    Some(text) => Some(text@),
                    None => None,
                },
            ) == Err::<bool, Seq<char>>(message@),
        },
{
    match settings {
        Some(text) => is_enabled_in(Some(parse_json(text))),
        None => is_enabled_in(None),
    }
}

/// `manifest` with its version in the form that the database keeps.
pub open spec fn with_fixed_version(manifest: ModManifestView) -> ModManifestView {
    ModManifestView { version: fixed_version(manifest.version), ..manifest }
}

/// The manifest that a parsed document gives: what the document says, with
/// the version fixed; or the message of the parser, or that of the reading.
pub open spec fn manifest_from_parsed(parsed: Result<JsonView, Seq<char>>) -> Result<
    ModManifestView,
    Seq<char>,
> {
    match parsed {
        Err(message) => Err(message),
        Ok(json) => match manifest_of(json) {
            Err(message) => Err(message),
            Ok(manifest) => Ok(with_fixed_version(manifest)),
        },
    }
}

/// The manifest that a text gives: the text is mended, parsed and read.
pub open spec fn manifest_in(text: Seq<char>) -> Result<ModManifestView, Seq<char>> {
    manifest_from_parsed(json_document(repaired(text)))
}

/// The record of the mod in `folder`, made of the outcome of reading its
/// manifest file, the manifest that the file's text gave, and the outcome of
/// reading its settings. The first of the three that failed decides the
/// error. A record starts without errors.
pub open spec fn mod_from_parts(
    folder: Seq<char>,
    content: Result<Seq<char>, Seq<char>>,
    manifest: Result<ModManifestView, Seq<char>>,
    enabled: Result<bool, Seq<char>>,
) -> Result<LocalModView, LoadErrorView> {
    match content {
        Err(message) => Err(LoadErrorView::Unreadable(message)),
        Ok(_) => match manifest {
            Err(message) => Err(LoadErrorView::InvalidManifest(message)),
            Ok(manifest) => match enabled {
                Err(message) => Err(LoadErrorView::SettingsUnreadable(message)),
                Ok(enabled) => Ok(
                    LocalModView { enabled, errors: Seq::empty(), mod_path: folder, manifest },
                ),
            },
        },
    }
}

/// The record of the mod in `folder` whose manifest was found as `file`, or
/// why there is none.
pub open spec fn loaded(folder: Seq<char>, file: ManifestFileView) -> Result<
    LocalModView,
    LoadErrorView,
> {
    mod_from_parts(
        folder,
        file.content,
        match file.content {
            Ok(text) => manifest_in(text),
            Err(message) => Err(message),
        },
        file.enabled,
    )
}

/// What reading the manifest `file` gives: the mod in the folder that the
/// manifest's path has as its parent, loaded there; `PathInvalid` where the
/// path has no parent, whatever the file holds.
pub open spec fn read_outcome(file: ManifestFileView) -> Result<LocalModView, LoadErrorView> {
    match parent_path(file.path) {
        Some(folder) => loaded(folder, file),
        None => Err(LoadErrorView::PathInvalid),
    }
}

/// A manifest whose text spells an object with a `version` that is no string
/// fails to load, in whatever folder, as an invalid manifest, and the message
/// names the string that was expected.
pub proof fn lemma_version_that_is_no_string_fails(
    folder: Seq<char>,
    file: ManifestFileView,
    members: Seq<(Seq<char>, JsonView)>,
)
    requires
        file.content is Ok,
        json_document(repaired(file.content->Ok_0)) == Ok::<JsonView, Seq<char>>(
            JsonView::Object(members),
        ),
        value_at(members, "version"@) is Some,
        !(value_at(members, "version"@)->0 is Text),
    ensures
        loaded(folder, file) is Err,
        loaded(folder, file)->Err_0 is InvalidManifest,
        occurs_in("string"@, loaded(folder, file)->Err_0->InvalidManifest_0),
{
    lemma_version_must_be_string(members);
}

/// The record of the mod loader in `folder`, whose manifest file was read
/// with the outcome `content`. The loader counts as enabled and starts
/// without errors. There is no record where the file could not be read or
/// holds no manifest.
pub open spec fn loaded_owml(folder: Seq<char>, content: Result<Seq<char>, Seq<char>>) -> Option<
    LocalModView,
> {
    match content {
        Err(_) => None,
        Ok(text) => match manifest_in(text) {
            Err(_) => None,
            Ok(manifest) => Some(
                LocalModView { enabled: true, errors: Seq::empty(), mod_path: folder, manifest },
            ),
        },
    }
}

/// The record of the mod loader, wherever there is one, is enabled and has
/// no errors; nothing but the manifest file goes into it.
pub proof fn lemma_owml_is_enabled(folder: Seq<char>, content: Result<Seq<char>, Seq<char>>)
    ensures
        loaded_owml(folder, content) is Some ==> loaded_owml(folder, content)->0.enabled
            && loaded_owml(folder, content)->0.errors.len() == 0 && loaded_owml(
            folder,
            content,
        )->0.mod_path == folder,
{
}

impl ModManifest {
    /// Makes a manifest of the outcome of parsing: reads the document and
    /// fixes the version.
    pub fn from_parsed(parsed: Result<Json, String>) -> (r: Result<ModManifest, String>)
        ensures
            match r {
                Ok(manifest) => manifest_from_parsed(
                    match parsed {
                        Ok(json) => Ok(json@),
                        Err(message) => Err(message@),
                    },
                ) == Ok::<ModManifestView, Seq<char>>(manifest@),
                Err(message) => manifest_from_parsed(
                    match parsed {
                        Ok(json) => Ok(json@),
                        Err(message) => Err(message@),
                    },
                ) == Err::<ModManifestView, Seq<char>>(message@),
            },
    {
        match parsed {
            Err(message) => Err(message),
            Ok(json) => match ModManifest::from_json(&json) {
                Err(message) => Err(message),
                Ok(manifest) => {
                    let version = fix_version(manifest.version.as_str());
                    Ok(
                        ModManifest {
                            unique_name: manifest.unique_name,
                            name: manifest.name,
                            version,
                            dependencies: manifest.dependencies,
                            conflicts: manifest.conflicts,
                        },
                    )
                },
            },
        }
    }

    /// Reads a manifest from the text of a manifest file.
    pub fn from_text(text: &str) -> (r: Result<ModManifest, String>)
        ensures
            match r {
                Ok(manifest) => manifest_in(text@) == Ok::<ModManifestView, Seq<char>>(manifest@),
                Err(message) => manifest_in(text@) == Err::<ModManifestView, Seq<char>>(message@),
            },
    {
        let mended = fix_json(text);
        ModManifest::from_parsed(parse_json(mended.as_str()))
    }
}

impl LocalMod {
    /// Makes the record of the mod in `folder` of the outcomes of reading
    /// its manifest file, its manifest and its settings.
    pub fn from_parts(
        folder: &str,
        content: &Result<String, String>,
        manifest: Result<ModManifest, String>,
        enabled: &Result<bool, String>,
    ) -> (r: Result<LocalMod, LoadError>)
        ensures
            match r {
                Ok(local_mod) => mod_from_parts(
                    folder@,
                    text_outcome(*content),
                    match manifest {
                        Ok(m) => Ok(m@),
                        Err(message) => Err(message@),
                    },
                    flag_outcome(*enabled),
                ) == Ok::<LocalModView, LoadErrorView>(local_mod@),
                Err(error) => mod_from_parts(
                    folder@,
                    text_outcome(*content),
                    match manifest {
                        Ok(m) => Ok(m@),
                        Err(message) => Err(message@),
                    },
                    flag_outcome(*enabled),
                ) == Err::<LocalModView, LoadErrorView>(error@),
            },
    {
        match content {
            Err(message) => Err(LoadError::Unreadable(message.clone())),
            Ok(_) => match manifest {
                Err(message) => Err(LoadError::InvalidManifest(message)),
                Ok(manifest) => match enabled {
                    Err(message) => Err(LoadError::SettingsUnreadable(message.clone())),
                    Ok(enabled) => {
                        let local_mod = LocalMod {
                            enabled: *enabled,
                            errors: Vec::new(),
                            mod_path: String::from_str(folder),
                            manifest,
                        };
                        assert(local_mod.errors.deep_view() =~= Seq::empty());
                        Ok(local_mod)
                    },
                },
            },
        }
    }

    /// Loads the mod in `folder` whose manifest was found as `file`.
    pub fn load(folder: &str, file: &ManifestFile) -> (r: Result<LocalMod, LoadError>)
        ensures
            match r {
                Ok(local_mod) => loaded(folder@, file@) == Ok::<LocalModView, LoadErrorView>(
                    local_mod@,
                ),
                Err(error) => loaded(folder@, file@) == Err::<LocalModView, LoadErrorView>(error@),
            },
    {
        let manifest = match &file.content {
            Ok(text) => ModManifest::from_text(text.as_str()),
            Err(message) => Err(message.clone()),
        };
        LocalMod::from_parts(folder, &file.content, manifest, &file.enabled)
    }
}

} // verus!
