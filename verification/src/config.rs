//! The settings of the application.

use crate::paths::{
    self, file_name_text, join_bytes, opt_bytes, parent_bytes, PathBytes,
};
use crate::text::{self, lower};
use std::path::{Path, PathBuf};
use vstd::prelude::*;

verus! {

/// The revision of the setup that the application asks for.
pub const CURRENT_SETUP_REVISION: u32 = 2;

/// The colours that the user prefers.
#[derive(Clone, Copy, PartialEq, Eq, Structural)]
pub enum ThemePreference {
    System,
    Light,
    Dark,
}

/// The colours that the toolkit is told to use.
#[derive(Clone, Copy, PartialEq, Eq, Structural)]
pub enum ColorScheme {
    Default,
    ForceLight,
    ForceDark,
}

impl ThemePreference {
    pub open spec fn name(self) -> Seq<char> {
        match self {
            ThemePreference::System => "System"@,
            ThemePreference::Light => "Light"@,
            ThemePreference::Dark => "Dark"@,
        }
    }

    pub fn as_str(self) -> (r: &'static str)
        ensures
            r@ == self.name(),
    {
        match self {
            ThemePreference::System => "System",
            ThemePreference::Light => "Light",
            ThemePreference::Dark => "Dark",
        }
    }

    pub fn color_scheme(self) -> (r: ColorScheme)
        ensures
            self is System <==> r is Default,
            self is Light <==> r is ForceLight,
            self is Dark <==> r is ForceDark,
    {
        match self {
            ThemePreference::System => ColorScheme::Default,
            ThemePreference::Light => ColorScheme::ForceLight,
            ThemePreference::Dark => ColorScheme::ForceDark,
        }
    }

    /// The position of a preference in the list that the user chooses from.
    pub open spec fn position(self) -> u32 {
        match self {
            ThemePreference::System => 0,
            ThemePreference::Light => 1,
            ThemePreference::Dark => 2,
        }
    }

    pub fn index(self) -> (r: u32)
        ensures
            r == self.position(),
    {
        match self {
            ThemePreference::System => 0,
            ThemePreference::Light => 1,
            ThemePreference::Dark => 2,
        }
    }

    /// The preference at a position of the list; what is not in the list counts as the first.
    pub fn from_index(index: u32) -> (r: ThemePreference)
        ensures
            index == 1 <==> r is Light,
            index == 2 <==> r is Dark,
    {
        if index == 1 {
            ThemePreference::Light
        } else if index == 2 {
            ThemePreference::Dark
        } else {
            ThemePreference::System
        }
    }
}

/// The settings.
pub struct AppConfig {
    pub setup_complete: bool,
    pub setup_revision: u32,
    pub copy_destination: String,
    pub theme: ThemePreference,
    pub game_root_path: Option<PathBuf>,
    pub addons_enabled: bool,
    pub script_mods_enabled: bool,
    pub play_settings_expanded: bool,
    pub backup_before_save: bool,
    pub last_asset_dir: Option<PathBuf>,
    pub last_image_dir: Option<PathBuf>,
    pub last_copy_dir: Option<PathBuf>,
}

/// Whether settings are those of a first start.
pub open spec fn is_default(config: AppConfig) -> bool {
    &&& !config.setup_complete
    &&& config.setup_revision == 0
    &&& config.copy_destination@ == Seq::<char>::empty()
    &&& config.theme is System
    &&& config.game_root_path is None
    &&& config.addons_enabled
    &&& !config.script_mods_enabled
    &&& !config.play_settings_expanded
    &&& config.backup_before_save
    &&& config.last_asset_dir is None
    &&& config.last_image_dir is None
    &&& config.last_copy_dir is None
}

impl Default for AppConfig {
    fn default() -> (r: Self)
        ensures
            is_default(r),
    {
        AppConfig {
            setup_complete: false,
            setup_revision: 0,
            copy_destination: String::new(),
            theme: ThemePreference::System,
            game_root_path: None,
            addons_enabled: true,
            script_mods_enabled: false,
            play_settings_expanded: false,
            backup_before_save: true,
            last_asset_dir: None,
            last_image_dir: None,
            last_copy_dir: None,
        }
    }
}

/// The settings as they stand in a file, older files included.
pub struct AppConfigFile {
    pub setup_complete: bool,
    pub setup_revision: Option<u32>,
    pub copy_destination: String,
    pub theme: Option<ThemePreference>,
    pub game_root_path: Option<PathBuf>,
    pub mod_folder_path: Option<PathBuf>,
    pub addons_enabled: Option<bool>,
    pub script_mods_enabled: Option<bool>,
    pub play_settings_expanded: Option<bool>,
    pub backup_before_save: Option<bool>,
    pub last_asset_dir: Option<PathBuf>,
    pub last_image_dir: Option<PathBuf>,
    pub last_copy_dir: Option<PathBuf>,
}

/// Whether a path names a mods folder.
pub open spec fn is_mods_folder(path: Seq<u8>) -> bool {
    file_name_text(path) matches Some(name) && lower(name) == lower("mods"@)
}

/// The game folder of a settings file: the one it names, else the folder above the mods folder.
pub open spec fn inferred_root(file: AppConfigFile) -> Option<Seq<u8>> {
    match file.game_root_path {
        Some(path) => Some(path.bytes()),
        None => match file.mod_folder_path {
            Some(mods) => if is_mods_folder(mods.bytes()) {
                parent_bytes(mods.bytes())
            } else {
                None
            },
            None => None,
        },
    }
}

/// Whether settings are those of a file.
pub open spec fn config_from(file: AppConfigFile, config: AppConfig) -> bool {
    &&& config.setup_complete == file.setup_complete
    &&& config.setup_revision == match file.setup_revision {
        Some(revision) => revision,
        None => 0,
    }
    &&& config.copy_destination == file.copy_destination
    &&& config.theme == match file.theme {
        Some(theme) => theme,
        None => ThemePreference::System,
    }
    &&& opt_bytes(config.game_root_path) == inferred_root(file)
    &&& config.addons_enabled == (file.addons_enabled != Some(false))
    &&& config.script_mods_enabled == (file.script_mods_enabled == Some(true))
    &&& config.play_settings_expanded == (file.play_settings_expanded == Some(true))
    &&& config.backup_before_save == (file.backup_before_save != Some(false))
    &&& config.last_asset_dir == file.last_asset_dir
    &&& config.last_image_dir == file.last_image_dir
    &&& config.last_copy_dir == file.last_copy_dir
}

/// Whether a path names a mods folder.
pub fn names_mods_folder(path: &Path) -> (r: bool)
    ensures
        r == is_mods_folder(path.bytes()),
{
    match paths::file_name(path) {
        Some(name) => text::same_ignoring_case(name.as_str(), "mods"),
        None => false,
    }
}

/// Whether a file holds exactly the given settings, as it does when they are written.
pub open spec fn holds(file: AppConfigFile, config: AppConfig) -> bool {
    &&& file.setup_complete == config.setup_complete
    &&& file.setup_revision == Some(config.setup_revision)
    &&& file.copy_destination == config.copy_destination
    &&& file.theme == Some(config.theme)
    &&& file.game_root_path == config.game_root_path
    &&& file.mod_folder_path is None
    &&& file.addons_enabled == Some(config.addons_enabled)
    &&& file.script_mods_enabled == Some(config.script_mods_enabled)
    &&& file.play_settings_expanded == Some(config.play_settings_expanded)
    &&& file.backup_before_save == Some(config.backup_before_save)
    &&& file.last_asset_dir == config.last_asset_dir
    &&& file.last_image_dir == config.last_image_dir
    &&& file.last_copy_dir == config.last_copy_dir
}

fn copied(path: &Option<PathBuf>) -> (r: Option<PathBuf>)
    ensures
        r == *path,
{
    match path {
        Some(path) => Some(path.clone()),
        None => None,
    }
}

fn or_flag(value: Option<bool>, otherwise: bool) -> (r: bool)
    ensures
        r == match value {
            Some(v) => v,
            None => otherwise,
        },
{
    match value {
        Some(v) => v,
        None => otherwise,
    }
}

/// The file that holds the settings.
pub open spec fn config_path(workspace: Seq<u8>) -> Seq<u8> {
    join_bytes(workspace, "config.json"@)
}

impl AppConfig {
    /// The settings of a file.
    pub fn from_file(file: AppConfigFile) -> (r: AppConfig)
        ensures
            config_from(file, r),
    {
        let game_root_path = match file.game_root_path {
            Some(path) => Some(path),
            None => match file.mod_folder_path {
                Some(mods) => if names_mods_folder(mods.as_path()) {
                    paths::parent(mods.as_path())
                } else {
                    None
                },
                None => None,
            },
        };
        AppConfig {
            setup_complete: file.setup_complete,
            setup_revision: match file.setup_revision {
                Some(revision) => revision,
                None => 0,
            },
            copy_destination: file.copy_destination,
            theme: match file.theme {
                Some(theme) => theme,
                None => ThemePreference::System,
            },
            game_root_path,
            addons_enabled: or_flag(file.addons_enabled, true),
            script_mods_enabled: or_flag(file.script_mods_enabled, false),
            play_settings_expanded: or_flag(file.play_settings_expanded, false),
            backup_before_save: or_flag(file.backup_before_save, true),
            last_asset_dir: file.last_asset_dir,
            last_image_dir: file.last_image_dir,
            last_copy_dir: file.last_copy_dir,
        }
    }

    /// The file that holds the settings.
    pub fn path(workspace_dir: &Path) -> (r: PathBuf)
        ensures
            r.bytes() == config_path(workspace_dir.bytes()),
    {
        paths::join(workspace_dir, "config.json")
    }

    /// What the settings file holds once the settings are written.
    pub fn save(&self) -> (r: AppConfigFile)
        ensures
            holds(r, *self),
    {
        AppConfigFile {
            setup_complete: self.setup_complete,
            setup_revision: Some(self.setup_revision),
            copy_destination: self.copy_destination.clone(),
            theme: Some(self.theme),
            game_root_path: copied(&self.game_root_path),
            mod_folder_path: None,
            addons_enabled: Some(self.addons_enabled),
            script_mods_enabled: Some(self.script_mods_enabled),
            play_settings_expanded: Some(self.play_settings_expanded),
            backup_before_save: Some(self.backup_before_save),
            last_asset_dir: copied(&self.last_asset_dir),
            last_image_dir: copied(&self.last_image_dir),
            last_copy_dir: copied(&self.last_copy_dir),
        }
    }

    /// The settings, given the settings file as far as there is one that can be read.
    pub fn load(file: Option<AppConfigFile>) -> (r: AppConfig)
        ensures
            match file {
                Some(found) => config_from(found, r),
                None => is_default(r),
            },
    {
        match file {
            Some(found) => AppConfig::from_file(found),
            None => AppConfig::default(),
        }
    }
}

/// Settings that were written come back as they were.
pub proof fn written_settings_come_back(file: AppConfigFile, before: AppConfig, after: AppConfig)
    requires
        holds(file, before),
        config_from(file, after),
    ensures
        after == (AppConfig { game_root_path: after.game_root_path, ..before }),
        opt_bytes(after.game_root_path) == opt_bytes(before.game_root_path),
{
}

/// A settings file that says nothing gives the settings of a first start, and what it says is taken
/// over.
pub proof fn unsaid_settings_are_those_of_a_first_start(
    file: AppConfigFile,
    config: AppConfig,
    first: AppConfig,
)
    requires
        config_from(file, config),
        is_default(first),
    ensures
        file.setup_revision is None ==> config.setup_revision == first.setup_revision,
        file.setup_revision matches Some(own) ==> config.setup_revision == own,
        file.theme is None ==> config.theme == first.theme,
        file.theme matches Some(own) ==> config.theme == own,
        file.addons_enabled is None ==> config.addons_enabled == first.addons_enabled,
        file.addons_enabled matches Some(own) ==> config.addons_enabled == own,
        file.script_mods_enabled is None ==> config.script_mods_enabled
            == first.script_mods_enabled,
        file.script_mods_enabled matches Some(own) ==> config.script_mods_enabled == own,
        file.play_settings_expanded is None ==> config.play_settings_expanded
            == first.play_settings_expanded,
        file.play_settings_expanded matches Some(own) ==> config.play_settings_expanded == own,
        file.backup_before_save is None ==> config.backup_before_save == first.backup_before_save,
        file.backup_before_save matches Some(own) ==> config.backup_before_save == own,
        config.setup_complete == file.setup_complete,
        config.copy_destination == file.copy_destination,
        config.last_asset_dir == file.last_asset_dir,
        config.last_image_dir == file.last_image_dir,
        config.last_copy_dir == file.last_copy_dir,
{
}

/// On a first start the setup is still to be done, saving makes backups, addons are on and script mods
/// are off.
pub proof fn a_first_start_is_careful(config: AppConfig)
    requires
        is_default(config),
    ensures
        !config.setup_complete && config.setup_revision < CURRENT_SETUP_REVISION,
        config.backup_before_save && config.addons_enabled && !config.script_mods_enabled,
        config.game_root_path is None && config.theme is System,
{
}

/// The game folder is the one that the file names; an older file that names only its mods folder
/// means the folder above that.
pub proof fn the_named_game_folder_counts(file: AppConfigFile)
    ensures
        file.game_root_path matches Some(root) ==> inferred_root(file) == Some(root.bytes()),
        file.game_root_path is None && file.mod_folder_path is None ==> inferred_root(file) is None,
        file.game_root_path is None ==> (file.mod_folder_path matches Some(mods) ==> inferred_root(
            file,
        ) == if file_name_text(mods.bytes()) matches Some(name) && lower(name) == "mods"@ {
            parent_bytes(mods.bytes())
        } else {
            None
        }),
{
    reveal_strlit("mods");
    assert(lower("mods"@) =~= "mods"@);
}

/// The preferences stand at different positions of the list, beginning with that of the system.
pub proof fn preferences_have_their_positions(a: ThemePreference, b: ThemePreference)
    ensures
        a != b ==> a.position() != b.position() && a.name() != b.name(),
        a.position() < 3,
        a.position() == 0 <==> a is System,
        a is Light && b is Dark ==> a.position() < b.position(),
{
    reveal_strlit("System");
    reveal_strlit("Light");
    reveal_strlit("Dark");
    assert("System"@.len() == 6 && "Light"@.len() == 5 && "Dark"@.len() == 4);
}

}
