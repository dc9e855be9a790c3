//! The state of the application: settings, folders and what is selected.

use crate::assets::ImportedAsset;
use crate::config::{AppConfig, CURRENT_SETUP_REVISION};
use crate::launcher::LauncherDependencyStatus;
use crate::paths::{
    self, join_bytes, lies_under, opt_bytes, parent_bytes, path_class, shown_path, title_of,
    PathBytes, PathSet,
};
use crate::sections::EditorState;
use crate::setup::{SetupStatus, SetupStep, ToolPaths};
use crate::text::{self, decimal, joined, lower, texts, trimmed};
use std::path::{Path, PathBuf};
use vstd::prelude::*;
use vstd::utf8::encode_utf8;

verus! {

/// The identifier of the folder above all others.
pub const ROOT_FOLDER_ID: u64 = 0;

/// A folder of the workspace.
pub struct FolderNode {
    pub id: u64,
    pub parent_id: u64,
    pub name: String,
}

/// A text that is being edited.
pub struct TextEditorState {
    pub asset_index: usize,
    pub entry_path: String,
    pub draft_text: String,
    pub validation_message: Option<String>,
}

/// The pages of the window.
#[derive(Clone, Copy, PartialEq, Eq, Structural)]
pub enum Page {
    Setup,
    Dashboard,
    Browser,
    Editor,
}

/// The state of the application.
pub struct App {
    pub tool_paths: ToolPaths,
    pub config: AppConfig,
    pub setup_step: SetupStep,
    pub setup_status: SetupStatus,
    pub launcher_status: LauncherDependencyStatus,
    pub folders: Vec<FolderNode>,
    pub next_folder_id: u64,
    pub selected_folder_id: u64,
    pub mod_tree_expanded_paths: PathSet,
    pub selected_mod_path: Option<PathBuf>,
    pub pending_import_paths: PathSet,
    pub assets: Vec<ImportedAsset>,
    pub selected_asset: Option<usize>,
    pub current_mod_browser_path: Option<PathBuf>,
    pub selected_texture: Option<usize>,
    pub editor: Option<EditorState>,
    pub text_editor: Option<TextEditorState>,
    pub last_asset_dir: Option<PathBuf>,
    pub last_image_dir: Option<PathBuf>,
    pub last_copy_dir: Option<PathBuf>,
    pub pending_jobs: usize,
    pub status: String,
}

/// Whether the folders of a workspace were made one after another, each below an earlier one.
pub open spec fn folders_in_order(folders: Seq<FolderNode>, next: u64) -> bool {
    &&& next > 0
    &&& forall|i: int|
        0 <= i < folders.len() ==> folders[i].parent_id < (#[trigger] folders[i]).id
            && folders[i].id < next
    &&& forall|i: int, j: int|
        0 <= i < j < folders.len() ==> (#[trigger] folders[i]).id < (#[trigger] folders[j]).id
}

impl App {
    /// Whether what is selected or edited is among the opened assets, and the folders are in
    /// order.
    pub open spec fn well_formed(self) -> bool {
        &&& self.selected_asset matches Some(i) ==> i < self.assets@.len()
        &&& self.editor matches Some(editor) ==> editor.asset_index < self.assets@.len()
            && editor.well_formed()
        &&& folders_in_order(self.folders@, self.next_folder_id)
        &&& self.selected_folder_id < self.next_folder_id
    }

    /// The game folder, as far as it is configured and exists.
    pub open spec fn game_root(self, root_is_dir: bool) -> Option<PathBuf> {
        if root_is_dir {
            self.config.game_root_path
        } else {
            None
        }
    }

    /// A path below the game folder.
    pub open spec fn under_root(self, root_is_dir: bool, name: Seq<char>) -> Option<Seq<u8>> {
        match self.game_root(root_is_dir) {
            Some(root) => Some(join_bytes(root.bytes(), name)),
            None => None,
        }
    }

    /// The mods folder, as far as addons are enabled.
    pub open spec fn mods_root(self, root_is_dir: bool) -> Option<Seq<u8>> {
        if self.config.addons_enabled {
            self.under_root(root_is_dir, "mods"@)
        } else {
            None
        }
    }

    /// Whether the setup has to be gone through.
    pub open spec fn needs_setup(self, root_is_dir: bool) -> bool {
        self.config.setup_revision < CURRENT_SETUP_REVISION || !self.config.setup_complete
            || !self.setup_status.ready() || self.game_root(root_is_dir) is None
    }

    /// Whether the editor can be used.
    pub open spec fn can_edit(self, root_is_dir: bool) -> bool {
        self.game_root(root_is_dir) is Some && self.config.addons_enabled
    }

    /// The state at the start.
    pub fn launch(
        tool_paths: ToolPaths,
        config: AppConfig,
        setup_status: SetupStatus,
        launcher_status: LauncherDependencyStatus,
    ) -> (r: App)
        ensures
            r.well_formed(),
            r.tool_paths == tool_paths,
            r.config == (AppConfig { copy_destination: r.config.copy_destination, ..config }),
            r.config.copy_destination@ == if config.copy_destination@.len() == 0 {
                shown_path(tool_paths.builds_dir.bytes())
            } else {
                config.copy_destination@
            },
            r.setup_step is Welcome,
            r.setup_status == setup_status,
            r.launcher_status == launcher_status,
            r.folders@.len() == 0,
            r.next_folder_id == 1,
            r.selected_folder_id == ROOT_FOLDER_ID,
            r.mod_tree_expanded_paths@ == Set::<Seq<Seq<u8>>>::empty(),
            r.selected_mod_path is None,
            r.pending_import_paths@ == Set::<Seq<Seq<u8>>>::empty(),
            r.assets@.len() == 0,
            r.selected_asset is None,
            r.current_mod_browser_path is None,
            r.selected_texture is None,
            r.editor is None,
            r.text_editor is None,
            r.last_asset_dir == config.last_asset_dir,
            r.last_image_dir == config.last_image_dir,
            r.last_copy_dir == config.last_copy_dir,
            r.pending_jobs == 0,
            r.status@ == if config.game_root_path is Some {
                "Ready."@
            } else {
                "Ready. Choose the GTA V Linux game folder to begin."@
            },
    {
        let mut config = config;
        proof {
            reveal_strlit("");
            if config.copy_destination@.len() == 0 {
                assert(config.copy_destination@ =~= ""@);
            }
        }
        if text::same_text(config.copy_destination.as_str(), "") {
            config.copy_destination = paths::shown(tool_paths.builds_dir.as_path());
        }
        let status = if config.game_root_path.is_some() {
            "Ready.".to_owned()
        } else {
            "Ready. Choose the GTA V Linux game folder to begin.".to_owned()
        };
        let last_asset_dir = config.last_asset_dir.clone();
        let last_image_dir = config.last_image_dir.clone();
        let last_copy_dir = config.last_copy_dir.clone();
        App {
            tool_paths,
            config,
            setup_step: SetupStep::Welcome,
            setup_status,
            launcher_status,
            folders: Vec::new(),
            next_folder_id: 1,
            selected_folder_id: ROOT_FOLDER_ID,
            mod_tree_expanded_paths: PathSet::new(),
            selected_mod_path: None,
            pending_import_paths: PathSet::new(),
            assets: Vec::new(),
            selected_asset: None,
            current_mod_browser_path: None,
            selected_texture: None,
            editor: None,
            text_editor: None,
            last_asset_dir,
            last_image_dir,
            last_copy_dir,
            pending_jobs: 0,
            status,
        }
    }

    pub fn setup_required(&self, root_is_dir: bool) -> (r: bool)
        ensures
            r == self.needs_setup(root_is_dir),
    {
        self.should_open_setup_on_start(root_is_dir)
    }

    pub fn should_open_setup_on_start(&self, root_is_dir: bool) -> (r: bool)
        ensures
            r == self.needs_setup(root_is_dir),
    {
        self.config.setup_revision < CURRENT_SETUP_REVISION || !self.config.setup_complete
            || !self.setup_status.setup_ready() || self.game_root_path(root_is_dir).is_none()
    }

    pub fn game_root_path(&self, root_is_dir: bool) -> (r: Option<&PathBuf>)
        ensures
            match r {
                Some(root) => self.game_root(root_is_dir) == Some(*root),
                None => self.game_root(root_is_dir) is None,
            },
    {
        if !root_is_dir {
            return None;
        }
        match &self.config.game_root_path {
            Some(root) => Some(root),
            None => None,
        }
    }

    fn below_root(&self, root_is_dir: bool, name: &str) -> (r: Option<PathBuf>)
        ensures
            opt_bytes(r) == self.under_root(root_is_dir, name@),
    {
        match self.game_root_path(root_is_dir) {
            Some(root) => Some(paths::join(root.as_path(), name)),
            None => None,
        }
    }

    pub fn derived_mods_root_path(&self, root_is_dir: bool) -> (r: Option<PathBuf>)
        ensures
            opt_bytes(r) == self.under_root(root_is_dir, "mods"@),
    {
        self.below_root(root_is_dir, "mods")
    }

    pub fn hidden_mods_root_path(&self, root_is_dir: bool) -> (r: Option<PathBuf>)
        ensures
            opt_bytes(r) == self.under_root(root_is_dir, ".mods.disabled"@),
    {
        self.below_root(root_is_dir, ".mods.disabled")
    }

    pub fn derived_scripts_root_path(&self, root_is_dir: bool) -> (r: Option<PathBuf>)
        ensures
            opt_bytes(r) == self.under_root(root_is_dir, "scripts"@),
    {
        self.below_root(root_is_dir, "scripts")
    }

    pub fn hidden_scripts_root_path(&self, root_is_dir: bool) -> (r: Option<PathBuf>)
        ensures
            opt_bytes(r) == self.under_root(root_is_dir, ".scripts.disabled"@),
    {
        self.below_root(root_is_dir, ".scripts.disabled")
    }

    pub fn mods_root_path(&self, root_is_dir: bool) -> (r: Option<PathBuf>)
        ensures
            opt_bytes(r) == self.mods_root(root_is_dir),
    {
        if self.config.addons_enabled {
            self.derived_mods_root_path(root_is_dir)
        } else {
            None
        }
    }

    pub fn scripthook_ini_path(&self, root_is_dir: bool) -> (r: Option<PathBuf>)
        ensures
            opt_bytes(r) == self.under_root(root_is_dir, "ScriptHookVDotNet.ini"@),
    {
        self.below_root(root_is_dir, "ScriptHookVDotNet.ini")
    }

    pub fn editor_available(&self, root_is_dir: bool) -> (r: bool)
        ensures
            r == self.can_edit(root_is_dir),
    {
        self.game_root_path(root_is_dir).is_some() && self.config.addons_enabled
    }

    pub fn in_editor(&self) -> (r: bool)
        ensures
            r == (self.editor is Some || self.text_editor is Some),
    {
        self.editor.is_some() || self.text_editor.is_some()
    }

    pub fn set_status(&mut self, message: String)
        ensures
            *final(self) == (App { status: message, ..*old(self) }),
    {
        self.status = message;
    }

    /// What the status line shows.
    pub fn refresh_status(&self) -> (r: String)
        ensures
            r@ == if self.pending_jobs > 0 {
                "Working: "@ + decimal(self.pending_jobs as nat) + " job(s) | "@ + self.status@
            } else {
                self.status@
            },
    {
        if self.pending_jobs > 0 {
            let mut out = "Working: ".to_owned();
            out.append(text::show(self.pending_jobs as u64).as_str());
            out.append(" job(s) | ");
            out.append(self.status.as_str());
            out
        } else {
            self.status.clone()
        }
    }

    /// Opens the browser, where the editor can be used; tells the page that is shown then.
    pub fn open_editor_browser(&mut self, root_is_dir: bool) -> (r: Page)
        ensures
            *final(self) == (App { status: final(self).status, ..*old(self) }),
            old(self).can_edit(root_is_dir) ==> r is Browser && final(self).status
                == old(self).status,
            !old(self).can_edit(root_is_dir) ==> r is Dashboard && final(self).status@
                == "Enable addons to use the editor."@,
    {
        if !self.editor_available(root_is_dir) {
            self.set_status("Enable addons to use the editor.".to_owned());
            return Page::Dashboard;
        }
        Page::Browser
    }

    /// Leaves the editors; the dashboard is shown then.
    pub fn open_dashboard(&mut self)
        ensures
            *final(self) == (App { editor: None, text_editor: None, ..*old(self) }),
    {
        self.editor = None;
        self.text_editor = None;
    }

    /// Starts the wizard again.
    pub fn rerun_setup_wizard(&mut self)
        ensures
            *final(self) == (App { setup_step: SetupStep::Welcome, ..*old(self) }),
    {
        self.setup_step = SetupStep::Welcome;
    }

    /// Goes on in the wizard, where there is a step to go on to.
    pub fn go_on_in_setup(&mut self)
        ensures
            *final(self) == (App {
                setup_step: match old(self).setup_step.following() {
                    Some(step) => step,
                    None => old(self).setup_step,
                },
                ..*old(self)
            }),
    {
        if let Some(step) = self.setup_step.next() {
            self.setup_step = step;
        }
    }

    /// Goes back in the wizard, where there is a step to go back to.
    pub fn go_back_in_setup(&mut self)
        ensures
            *final(self) == (App {
                setup_step: match old(self).setup_step.preceding() {
                    Some(step) => step,
                    None => old(self).setup_step,
                },
                ..*old(self)
            }),
    {
        if let Some(step) = self.setup_step.previous() {
            self.setup_step = step;
        }
    }

    /// Steps aside from the end of the wizard to choose the game folder.
    pub fn step_aside_for_game_folder(&mut self)
        ensures
            *final(self) == (App {
                setup_step: if old(self).setup_step is Ready {
                    SetupStep::GameFolder
                } else {
                    old(self).setup_step
                },
                ..*old(self)
            }),
    {
        if self.setup_step == SetupStep::Ready {
            self.setup_step = SetupStep::GameFolder;
        }
    }

    /// The folder that is opened for the user: the mods folder, where addons are enabled, else the
    /// one that is hidden.
    pub fn open_mods_root_folder(&mut self, root_is_dir: bool) -> (r: Option<PathBuf>)
        ensures
            *final(self) == (App { status: final(self).status, ..*old(self) }),
            match r {
                Some(directory) => final(self).status == old(self).status && Some(directory.bytes())
                    == if old(self).config.addons_enabled {
                    old(self).under_root(root_is_dir, "mods"@)
                } else {
                    old(self).under_root(root_is_dir, ".mods.disabled"@)
                },
                None => old(self).game_root(root_is_dir) is None && final(self).status@
                    == "Choose a GTA V game folder first."@,
            },
    {
        let directory = match self.mods_root_path(root_is_dir) {
            Some(path) => Some(path),
            None => match self.hidden_mods_root_path(root_is_dir) {
                Some(path) => Some(path),
                None => self.derived_mods_root_path(root_is_dir),
            },
        };
        match directory {
            Some(path) => Some(path),
            None => {
                self.set_status("Choose a GTA V game folder first.".to_owned());
                None
            },
        }
    }
}

/// Whether a file name is that of the game.
pub open spec fn is_game_file(name: Seq<char>) -> bool {
    lower(name) == lower("gta5.exe"@) || lower(name) == lower("gta5_enhanced.exe"@)
}

/// Whether a folder with the given files is a game folder.
pub fn is_valid_game_root(is_dir: bool, names: &Vec<String>) -> (r: bool)
    ensures
        r == (is_dir && exists|i: int|
            0 <= i < names@.len() && is_game_file((#[trigger] names@[i])@)),
{
    if !is_dir {
        return false;
    }
    let mut i: usize = 0;
    while i < names.len()
        invariant
            is_dir,
            0 <= i <= names@.len(),
            forall|j: int| 0 <= j < i ==> !is_game_file((#[trigger] names@[j])@),
        decreases names@.len() - i,
    {
        if text::same_ignoring_case(names[i].as_str(), "gta5.exe") || text::same_ignoring_case(
            names[i].as_str(),
            "gta5_enhanced.exe",
        ) {
            assert(is_game_file(names@[i as int]@));
            return true;
        }
        i += 1;
    }
    false
}

/// The game folder for a folder that the user chose: the folder above a mods folder, where that
/// is a game folder, else the folder itself. Tells whether a mods folder was chosen.
pub fn normalize_selected_game_root(path: &Path, parent_is_game_root: bool) -> (r: (PathBuf, bool))
    ensures
        ({
            let (root, chosen) = r;
            match parent_bytes(path.bytes()) {
                Some(parent) if crate::config::is_mods_folder(path.bytes())
                    && parent_is_game_root => chosen && root.bytes() == parent,
                _ => !chosen && root.bytes() == path.bytes(),
            }
        }),
{
    if crate::config::names_mods_folder(path) && parent_is_game_root {
        if let Some(parent) = paths::parent(path) {
            return (parent, true);
        }
    }
    (path.to_path_buf(), false)
}

impl App {
    /// Takes over a game folder that was found valid, and forgets what belonged to the old one;
    /// tells whether it was taken over.
    pub fn set_game_root_path(&mut self, path: &Path, game_root: PathBuf, valid: bool) -> (r: bool)
        ensures
            r == valid,
            !valid ==> *final(self) == (App { status: final(self).status, ..*old(self) })
                && final(self).status@ == shown_path(path.bytes())
                + " does not look like a GTA V Linux game folder."@,
            valid ==> {
                &&& *final(self) == (App {
                    config: final(self).config,
                    mod_tree_expanded_paths: final(self).mod_tree_expanded_paths,
                    selected_mod_path: None,
                    pending_import_paths: final(self).pending_import_paths,
                    assets: final(self).assets,
                    selected_asset: None,
                    selected_texture: None,
                    editor: None,
                    text_editor: None,
                    ..*old(self)
                })
                &&& final(self).config == (AppConfig {
                    game_root_path: Some(game_root),
                    ..old(self).config
                })
                &&& final(self).mod_tree_expanded_paths@ == Set::<Seq<Seq<u8>>>::empty()
                &&& final(self).pending_import_paths@ == Set::<Seq<Seq<u8>>>::empty()
                &&& final(self).assets@.len() == 0
            },
            old(self).well_formed() ==> final(self).well_formed(),
    {
        if !valid {
            let mut message = paths::shown(path);
            message.append(" does not look like a GTA V Linux game folder.");
            self.set_status(message);
            return false;
        }
        self.config.game_root_path = Some(game_root);
        self.mod_tree_expanded_paths = PathSet::new();
        self.selected_mod_path = None;
        self.pending_import_paths = PathSet::new();
        self.assets = Vec::new();
        self.selected_asset = None;
        self.selected_texture = None;
        self.editor = None;
        self.text_editor = None;
        true
    }

    /// Shows the mods folder of a game folder that was taken over; gives what the user is told.
    pub fn finish_game_root(
        &mut self,
        game_root: &Path,
        selected_mods_folder: bool,
        root_is_dir: bool,
    ) -> (r: &'static str)
        ensures
            *final(self) == (App {
                mod_tree_expanded_paths: final(self).mod_tree_expanded_paths,
                current_mod_browser_path: final(self).current_mod_browser_path,
                status: final(self).status,
                ..*old(self)
            }),
            final(self).mod_tree_expanded_paths@ == match old(self).mods_root(root_is_dir) {
                Some(mods) => old(self).mod_tree_expanded_paths@.insert(path_class(mods)),
                None => old(self).mod_tree_expanded_paths@,
            },
            opt_bytes(final(self).current_mod_browser_path) == old(self).mods_root(root_is_dir),
            final(self).status@ == "Using GTA V game folder at "@ + shown_path(game_root.bytes())
                + " and mods folder at "@ + shown_path(
                match old(self).under_root(root_is_dir, "mods"@) {
                    Some(mods) => mods,
                    None => encode_utf8("mods"@),
                },
            ),
            r@ == if selected_mods_folder {
                "Using the parent GTA V game folder and its mods subfolder."@
            } else {
                "GTA V game folder updated."@
            },
            old(self).well_formed() ==> final(self).well_formed(),
    {
        match self.mods_root_path(root_is_dir) {
            Some(mods) => {
                self.mod_tree_expanded_paths.insert(mods.clone());
                self.current_mod_browser_path = Some(mods);
            },
            None => {
                self.current_mod_browser_path = None;
            },
        }
        let mods = match self.derived_mods_root_path(root_is_dir) {
            Some(mods) => mods,
            None => paths::path_from("mods"),
        };
        let mut message = "Using GTA V game folder at ".to_owned();
        message.append(paths::shown(game_root).as_str());
        message.append(" and mods folder at ");
        message.append(paths::shown(mods.as_path()).as_str());
        self.status = message;
        if selected_mods_folder {
            "Using the parent GTA V game folder and its mods subfolder."
        } else {
            "GTA V game folder updated."
        }
    }

    /// Switches addons on or off.
    pub fn set_addons_enabled(&mut self, enabled: bool)
        ensures
            *final(self) == (App {
                config: AppConfig { addons_enabled: enabled, ..old(self).config },
                ..*old(self)
            }),
    {
        self.config.addons_enabled = enabled;
    }

    /// Switches script mods on or off.
    pub fn set_script_mods_enabled(&mut self, enabled: bool)
        ensures
            *final(self) == (App {
                config: AppConfig { script_mods_enabled: enabled, ..old(self).config },
                ..*old(self)
            }),
    {
        self.config.script_mods_enabled = enabled;
    }

    /// The setting that the ScriptHook configuration gets, where it is to be written: scripts are
    /// loaded when addons or script mods are enabled and no ScriptHook file is missing; with both
    /// disabled a configuration that exists switches them off.
    pub open spec fn wanted_autoload(self, missing: nat, ini_exists: bool) -> Option<bool> {
        if self.config.addons_enabled || self.config.script_mods_enabled {
            if missing == 0 {
                Some(true)
            } else {
                None
            }
        } else if ini_exists {
            Some(false)
        } else {
            None
        }
    }

    /// Decides on the ScriptHook configuration, and reports the files that are missing.
    pub fn plan_script_hook(&mut self, missing: &Vec<String>, ini_exists: bool) -> (r: Option<bool>)
        ensures
            r == old(self).wanted_autoload(missing@.len(), ini_exists),
            ({
                let reported = (old(self).config.addons_enabled
                    || old(self).config.script_mods_enabled) && missing@.len() > 0;
                &&& !reported ==> *final(self) == *old(self)
                &&& reported ==> *final(self) == (App { status: final(self).status, ..*old(self) })
                    && final(self).status@ == "ScriptHook files are missing: "@ + joined(
                    texts(missing@),
                    ", "@,
                )
            }),
    {
        if !self.config.addons_enabled && !self.config.script_mods_enabled {
            return if ini_exists {
                Some(false)
            } else {
                None
            };
        }
        if missing.len() == 0 {
            return Some(true);
        }
        let mut message = "ScriptHook files are missing: ".to_owned();
        message.append(text::join(missing, ", ").as_str());
        self.set_status(message);
        None
    }

    /// Brings what is opened and shown in line with the addon setting; tells whether the dashboard
    /// has to be shown. Without a game folder nothing changes.
    pub fn apply_addon_script_settings(&mut self, root_is_dir: bool, page: Option<Page>) -> (r:
        bool)
        ensures
            old(self).game_root(root_is_dir) is None ==> !r && *final(self) == *old(self),
            old(self).game_root(root_is_dir) is Some && old(self).config.addons_enabled ==> {
                &&& !r
                &&& *final(self) == (App {
                    mod_tree_expanded_paths: final(self).mod_tree_expanded_paths,
                    current_mod_browser_path: final(self).current_mod_browser_path,
                    ..*old(self)
                })
                &&& match old(self).mods_root(root_is_dir) {
                    Some(mods) => final(self).mod_tree_expanded_paths@
                        == old(self).mod_tree_expanded_paths@.insert(path_class(mods))
                        && opt_bytes(final(self).current_mod_browser_path) == Some(
                        match old(self).current_mod_browser_path {
                            Some(path) => path.bytes(),
                            None => mods,
                        },
                    ),
                    None => *final(self) == *old(self),
                }
            },
            old(self).game_root(root_is_dir) is Some && !old(self).config.addons_enabled ==> {
                &&& r == (page == Some(Page::Browser) || page == Some(Page::Editor))
                &&& *final(self) == (App {
                    assets: final(self).assets,
                    selected_asset: None,
                    selected_texture: None,
                    editor: None,
                    text_editor: None,
                    selected_mod_path: None,
                    current_mod_browser_path: None,
                    ..*old(self)
                })
                &&& final(self).assets@.len() == 0
            },
            old(self).well_formed() ==> final(self).well_formed(),
    {
        if self.game_root_path(root_is_dir).is_none() {
            return false;
        }
        if !self.config.addons_enabled {
            self.assets = Vec::new();
            self.selected_asset = None;
            self.selected_texture = None;
            self.editor = None;
            self.text_editor = None;
            self.selected_mod_path = None;
            self.current_mod_browser_path = None;
            match page {
                Some(Page::Browser) => true,
                Some(Page::Editor) => true,
                _ => false,
            }
        } else {
            if let Some(mods) = self.mods_root_path(root_is_dir) {
                self.mod_tree_expanded_paths.insert(mods.clone());
                if self.current_mod_browser_path.is_none() {
                    self.current_mod_browser_path = Some(mods);
                }
            }
            false
        }
    }
}

/// The position of the folder with the given identifier.
pub open spec fn folder_index(folders: Seq<FolderNode>, id: u64) -> Option<int>
    decreases folders.len(),
{
    if folders.len() == 0 {
        None
    } else {
        match folder_index(folders.drop_last(), id) {
            Some(i) => Some(i),
            None => if folders.last().id == id {
                Some(folders.len() - 1)
            } else {
                None
            },
        }
    }
}

/// The names of the folders from the top down to the one with the given identifier.
pub open spec fn folder_names(folders: Seq<FolderNode>, id: u64) -> Seq<Seq<char>>
    decreases id,
{
    if id == ROOT_FOLDER_ID {
        Seq::empty()
    } else {
        match folder_index(folders, id) {
            Some(i) => if folders[i].parent_id < id {
                folder_names(folders, folders[i].parent_id).push(folders[i].name@)
            } else {
                seq![folders[i].name@]
            },
            None => Seq::empty(),
        }
    }
}

/// A path with the given names behind it, one below the other.
pub open spec fn nested_path(names: Seq<Seq<char>>) -> Seq<u8>
    decreases names.len(),
{
    if names.len() == 0 {
        encode_utf8(""@)
    } else {
        join_bytes(nested_path(names.drop_last()), names.last())
    }
}

/// The folders from the top down as they are shown.
pub open spec fn folder_text(names: Seq<Seq<char>>) -> Seq<char> {
    if names.len() == 0 {
        "Workspace"@
    } else {
        "Workspace / "@ + joined(names, " / "@)
    }
}

proof fn lemma_folder_index(folders: Seq<FolderNode>, id: u64)
    ensures
        folder_index(folders, id) matches Some(i) ==> 0 <= i < folders.len() && folders[i].id == id,
    decreases folders.len(),
{
    if folders.len() > 0 {
        lemma_folder_index(folders.drop_last(), id);
    }
}

fn find_folder(folders: &Vec<FolderNode>, id: u64) -> (r: Option<usize>)
    ensures
        match r {
            Some(i) => folder_index(folders@, id) == Some(i as int) && i < folders@.len()
                && folders@[i as int].id == id,
            None => folder_index(folders@, id) is None,
        },
{
    let ghost all = folders@;
    let mut found: Option<usize> = None;
    let mut i: usize = 0;
    while i < folders.len()
        invariant
            all == folders@,
            0 <= i <= all.len(),
            match found {
                Some(k) => folder_index(all.take(i as int), id) == Some(k as int) && k < i
                    && all[k as int].id == id,
                None => folder_index(all.take(i as int), id) is None,
            },
        decreases all.len() - i,
    {
        proof {
            assert(all.take(i + 1).drop_last() =~= all.take(i as int));
            assert(all.take(i + 1).last() == all[i as int]);
        }
        if found.is_none() && folders[i].id == id {
            found = Some(i);
        }
        i += 1;
    }
    assert(all.take(all.len() as int) =~= all);
    found
}

/// The names of the folders from the top down to the one with the given identifier.
fn names_of_folder(folders: &Vec<FolderNode>, id: u64) -> (r: Vec<String>)
    requires
        forall|i: int|
            0 <= i < folders@.len() ==> folders@[i].parent_id < (#[trigger] folders@[i]).id,
    ensures
        texts(r@) == folder_names(folders@, id),
    decreases id,
{
    let mut none: Vec<String> = Vec::new();
    assert(texts(none@) =~= Seq::<Seq<char>>::empty());
    if id == ROOT_FOLDER_ID {
        return none;
    }
    match find_folder(folders, id) {
        Some(i) => {
            let mut names = names_of_folder(folders, folders[i].parent_id);
            let ghost before = texts(names@);
            names.push(folders[i].name.clone());
            assert(texts(names@) =~= before.push(folders@[i as int].name@));
            names
        },
        None => none,
    }
}

impl App {
    pub fn folder_path_components(&self, folder_id: u64) -> (r: Vec<String>)
        requires
            self.well_formed(),
        ensures
            texts(r@) == folder_names(self.folders@, folder_id),
    {
        names_of_folder(&self.folders, folder_id)
    }

    pub fn folder_path_buf(&self, folder_id: u64) -> (r: PathBuf)
        requires
            self.well_formed(),
        ensures
            r.bytes() == nested_path(folder_names(self.folders@, folder_id)),
    {
        let names = self.folder_path_components(folder_id);
        let ghost all = texts(names@);
        let mut path = paths::path_from("");
        let mut i: usize = 0;
        assert(all.take(0) =~= Seq::<Seq<char>>::empty());
        while i < names.len()
            invariant
                all == texts(names@),
                0 <= i <= names@.len(),
                path.bytes() == nested_path(all.take(i as int)),
            decreases names@.len() - i,
        {
            proof {
                assert(all.take(i + 1).drop_last() =~= all.take(i as int));
            }
            path = paths::join(path.as_path(), names[i].as_str());
            i += 1;
        }
        assert(all.take(all.len() as int) =~= all);
        path
    }

    pub fn folder_path_string(&self, folder_id: u64) -> (r: String)
        requires
            self.well_formed(),
        ensures
            r@ == folder_text(folder_names(self.folders@, folder_id)),
    {
        let names = self.folder_path_components(folder_id);
        assert(texts(names@).len() == names@.len());
        if names.len() == 0 {
            "Workspace".to_owned()
        } else {
            let mut out = "Workspace / ".to_owned();
            out.append(text::join(&names, " / ").as_str());
            out
        }
    }

    /// Makes a folder with the given name below the selected one; tells whether it was made.
    pub fn create_folder(&mut self, name: &str) -> (r: bool)
        requires
            old(self).well_formed(),
            old(self).next_folder_id < u64::MAX,
        ensures
            final(self).well_formed(),
            r == (trimmed(name@).len() > 0),
            r ==> {
                &&& *final(self) == (App {
                    folders: final(self).folders,
                    next_folder_id: (old(self).next_folder_id + 1) as u64,
                    status: final(self).status,
                    ..*old(self)
                })
                &&& final(self).folders@.len() == old(self).folders@.len() + 1
                &&& final(self).folders@.drop_last() == old(self).folders@
                &&& final(self).folders@.last().id == old(self).next_folder_id
                &&& final(self).folders@.last().parent_id == old(self).selected_folder_id
                &&& final(self).folders@.last().name@ == trimmed(name@)
                &&& final(self).status@ == "Folder created."@
            },
            !r ==> *final(self) == (App { status: final(self).status, ..*old(self) })
                && final(self).status@ == "Enter a folder name first."@,
    {
        let name = text::trim(name);
        proof {
            reveal_strlit("");
            if name@.len() == 0 {
                assert(name@ =~= ""@);
            }
        }
        if text::same_text(name.as_str(), "") {
            self.set_status("Enter a folder name first.".to_owned());
            return false;
        }
        let ghost before = self.folders@;
        self.folders.push(
            FolderNode { id: self.next_folder_id, parent_id: self.selected_folder_id, name },
        );
        self.next_folder_id = self.next_folder_id + 1;
        self.set_status("Folder created.".to_owned());
        assert(self.folders@.drop_last() =~= before);
        true
    }

    /// Moves the selected asset into the selected folder.
    pub fn move_selected_asset_to_selected_folder(&mut self)
        requires
            old(self).well_formed(),
        ensures
            final(self).well_formed(),
            match old(self).selected_asset {
                None => *final(self) == (App { status: final(self).status, ..*old(self) })
                    && final(self).status@ == "Select a package to move first."@,
                Some(i) => {
                    &&& *final(self) == (App {
                        assets: final(self).assets,
                        status: final(self).status,
                        ..*old(self)
                    })
                    &&& final(self).assets@ == old(self).assets@.update(
                        i as int,
                        ImportedAsset {
                            folder_id: old(self).selected_folder_id,
                            ..old(self).assets@[i as int]
                        },
                    )
                    &&& final(self).status@ == "Moved "@ + title_of(
                        old(self).assets@[i as int].source_path.bytes(),
                    ) + " to "@ + folder_text(
                        folder_names(old(self).folders@, old(self).selected_folder_id),
                    )
                },
            },
    {
        match self.selected_asset {
            None => {
                self.set_status("Select a package to move first.".to_owned());
            },
            Some(i) => {
                let target: u64 = self.selected_folder_id;
                self.assets[i].folder_id = target;
                let mut message = "Moved ".to_owned();
                message.append(self.assets[i].title().as_str());
                message.append(" to ");
                message.append(self.folder_path_string(target).as_str());
                self.set_status(message);
            },
        }
    }
}

/// A folder that was just made is shown below the folder in which it was made.
pub proof fn a_new_folder_lies_in_the_selected_one(
    folders: Seq<FolderNode>,
    next: u64,
    folder: FolderNode,
)
    requires
        folders_in_order(folders, next),
        folder.id == next,
        folder.parent_id < next,
    ensures
        folder_names(folders.push(folder), next) == folder_names(
            folders.push(folder),
            folder.parent_id,
        ).push(folder.name@),
{
    let all = folders.push(folder);
    assert(all.drop_last() =~= folders);
    lemma_folder_index(folders, next);
    assert(folder_index(all, next) == Some(folders.len() as int));
}

impl App {
    /// Whether a folder is shown with what lies in it.
    pub fn toggle_mod_tree_path(&mut self, path: &Path)
        ensures
            *final(self) == (App {
                mod_tree_expanded_paths: final(self).mod_tree_expanded_paths,
                ..*old(self)
            }),
            final(self).mod_tree_expanded_paths@ == if old(self).mod_tree_expanded_paths@.contains(
                path_class(path.bytes()),
            ) {
                old(self).mod_tree_expanded_paths@.remove(path_class(path.bytes()))
            } else {
                old(self).mod_tree_expanded_paths@.insert(path_class(path.bytes()))
            },
            old(self).well_formed() ==> final(self).well_formed(),
    {
        if self.mod_tree_expanded_paths.contains(path) {
            self.mod_tree_expanded_paths.remove(path);
        } else {
            self.mod_tree_expanded_paths.insert(path.to_path_buf());
        }
    }

    /// Shows a folder of the mods folder; the browser is shown then.
    pub fn browse_mod_directory(&mut self, path: PathBuf)
        ensures
            *final(self) == (App {
                selected_mod_path: Some(path),
                current_mod_browser_path: Some(path),
                selected_asset: None,
                selected_texture: None,
                editor: None,
                text_editor: None,
                ..*old(self)
            }),
            old(self).well_formed() ==> final(self).well_formed(),
    {
        self.selected_mod_path = Some(path.clone());
        self.current_mod_browser_path = Some(path);
        self.selected_asset = None;
        self.selected_texture = None;
        self.editor = None;
        self.text_editor = None;
    }

    /// The folder above the shown one, as far as it lies in the mods folder.
    pub open spec fn browser_parent(self, root_is_dir: bool) -> Option<Seq<u8>> {
        match (self.current_mod_browser_path, self.mods_root(root_is_dir)) {
            (Some(current), Some(root)) => if path_class(current.bytes()) == path_class(root) {
                None
            } else {
                match parent_bytes(current.bytes()) {
                    Some(parent) => if lies_under(parent, root) {
                        Some(parent)
                    } else {
                        None
                    },
                    None => None,
                }
            },
            _ => None,
        }
    }

    pub fn mod_browser_parent_path(&self, root_is_dir: bool) -> (r: Option<PathBuf>)
        ensures
            opt_bytes(r) == self.browser_parent(root_is_dir),
    {
        match &self.current_mod_browser_path {
            Some(current) => match self.mods_root_path(root_is_dir) {
                Some(root) => {
                    if paths::same_path(current.as_path(), root.as_path()) {
                        return None;
                    }
                    match paths::parent(current.as_path()) {
                        Some(parent) => if paths::starts_with(parent.as_path(), root.as_path()) {
                            Some(parent)
                        } else {
                            None
                        },
                        None => None,
                    }
                },
                None => None,
            },
            None => None,
        }
    }

    /// Shows the folder above the shown one; tells whether there is one.
    pub fn open_mod_browser_parent(&mut self, root_is_dir: bool) -> (r: bool)
        ensures
            r == (old(self).browser_parent(root_is_dir) is Some),
            !r ==> *final(self) == *old(self),
            r ==> {
                &&& opt_bytes(final(self).selected_mod_path) == old(self).browser_parent(
                    root_is_dir,
                )
                &&& *final(self) == (App {
                    selected_mod_path: final(self).selected_mod_path,
                    current_mod_browser_path: final(self).selected_mod_path,
                    selected_asset: None,
                    selected_texture: None,
                    editor: None,
                    text_editor: None,
                    ..*old(self)
                })
            },
            old(self).well_formed() ==> final(self).well_formed(),
    {
        match self.mod_browser_parent_path(root_is_dir) {
            Some(parent) => {
                self.browse_mod_directory(parent);
                true
            },
            None => false,
        }
    }

    /// The folder that files are imported into, given whether it exists.
    pub fn selected_mod_directory(&self, is_dir: bool) -> (r: Option<&PathBuf>)
        ensures
            match r {
                Some(path) => is_dir && Some(*path) == self.browsed(),
                None => !is_dir || self.browsed() is None,
            },
    {
        if !is_dir {
            return None;
        }
        match &self.current_mod_browser_path {
            Some(path) => Some(path),
            None => match &self.selected_mod_path {
                Some(path) => Some(path),
                None => None,
            },
        }
    }

    /// The folder that is shown, else the path that is selected.
    pub open spec fn browsed(self) -> Option<PathBuf> {
        match self.current_mod_browser_path {
            Some(path) => Some(path),
            None => self.selected_mod_path,
        }
    }
}

/// Showing a folder and hiding it again changes nothing in what else is shown.
pub proof fn toggling_twice_changes_nothing(expanded: Set<Seq<Seq<u8>>>, class: Seq<Seq<u8>>)
    ensures
        expanded.contains(class) ==> expanded.remove(class).insert(class) == expanded,
        !expanded.contains(class) ==> expanded.insert(class).remove(class) == expanded,
{
    if expanded.contains(class) {
        assert(expanded.remove(class).insert(class) =~= expanded);
    } else {
        assert(expanded.insert(class).remove(class) =~= expanded);
    }
}

/// The setup is asked for until it was gone through in its current revision, all tools are there and a
/// game folder is found; nothing else asks for it.
pub proof fn the_setup_is_asked_for_until_it_is_done(app: App, root_is_dir: bool)
    ensures
        app.config.setup_revision >= CURRENT_SETUP_REVISION && app.config.setup_complete
            && app.setup_status.ready() && root_is_dir && app.config.game_root_path is Some
            ==> !app.needs_setup(root_is_dir),
        !root_is_dir ==> app.needs_setup(root_is_dir),
        app.config.game_root_path is None ==> app.needs_setup(root_is_dir),
        !app.config.setup_complete ==> app.needs_setup(root_is_dir),
        !app.setup_status.ready() ==> app.needs_setup(root_is_dir),
        app.config.setup_revision < CURRENT_SETUP_REVISION ==> app.needs_setup(root_is_dir),
{
}

/// The editor can be used exactly when there is a mods folder to use it on: in a game folder that
/// exists, with addons switched on. What lies below the game folder is there only with it.
pub proof fn the_editor_needs_a_mods_folder(app: App, root_is_dir: bool, name: Seq<char>)
    ensures
        app.can_edit(root_is_dir) <==> app.mods_root(root_is_dir) is Some,
        !app.config.addons_enabled ==> app.mods_root(root_is_dir) is None,
        app.mods_root(root_is_dir) is Some ==> app.mods_root(root_is_dir) == app.under_root(
            root_is_dir,
            "mods"@,
        ),
        app.under_root(root_is_dir, name) is Some <==> root_is_dir
            && app.config.game_root_path is Some,
        app.config.game_root_path matches Some(root) ==> (root_is_dir ==> app.under_root(
            root_is_dir,
            name,
        ) == Some(join_bytes(root.bytes(), name))),
        app.game_root(root_is_dir) is Some ==> app.game_root(root_is_dir)
            == app.config.game_root_path,
{
}

/// The game is known by its executable, in either edition and whatever the case of its name.
pub proof fn the_game_is_known_by_its_executable(name: Seq<char>)
    ensures
        is_game_file(name) <==> lower(name) == "gta5.exe"@ || lower(name) == "gta5_enhanced.exe"@,
        is_game_file(name) <==> is_game_file(lower(name)),
{
    reveal_strlit("gta5.exe");
    reveal_strlit("gta5_enhanced.exe");
    assert(lower("gta5.exe"@) =~= "gta5.exe"@);
    assert(lower("gta5_enhanced.exe"@) =~= "gta5_enhanced.exe"@);
    assert(lower(lower(name)) =~= lower(name));
}

/// Scripts are switched on only where something uses them and no file is missing, and switched off
/// only where nothing does and there is a configuration to switch them off in.
pub proof fn scripts_follow_the_settings(app: App, missing: nat, ini_exists: bool)
    ensures
        app.wanted_autoload(missing, ini_exists) == Some(true) <==> (app.config.addons_enabled
            || app.config.script_mods_enabled) && missing == 0,
        app.wanted_autoload(missing, ini_exists) == Some(false) <==> !app.config.addons_enabled
            && !app.config.script_mods_enabled && ini_exists,
{
}

proof fn lemma_folder_found(folders: Seq<FolderNode>, next: u64, i: int)
    requires
        folders_in_order(folders, next),
        0 <= i < folders.len(),
    ensures
        folder_index(folders, folders[i].id) == Some(i),
    decreases folders.len(),
{
    let front = folders.drop_last();
    if i < front.len() {
        assert forall|k: int| 0 <= k < front.len() implies front[k].parent_id < (#[trigger] front[k]).id
            && front[k].id < next by {
            assert(front[k] == folders[k]);
        }
        assert forall|a: int, b: int| 0 <= a < b < front.len() implies (#[trigger] front[a]).id < (
        #[trigger] front[b]).id by {
            assert(front[a] == folders[a] && front[b] == folders[b]);
        }
        assert(front[i] == folders[i]);
        lemma_folder_found(front, next, i);
    } else {
        lemma_folder_index(front, folders[i].id);
        if let Some(k) = folder_index(front, folders[i].id) {
            assert(front[k] == folders[k]);
            assert(folders[k].id < folders[i].id);
        }
    }
}

/// A folder is shown below its parent: its path is that of the parent with its own name behind it. The
/// workspace itself has no name.
pub proof fn a_folder_is_shown_below_its_parent(folders: Seq<FolderNode>, next: u64, i: int)
    requires
        folders_in_order(folders, next),
        0 <= i < folders.len(),
    ensures
        folder_names(folders, folders[i].id) == folder_names(folders, folders[i].parent_id).push(
            folders[i].name@,
        ),
        folder_names(folders, ROOT_FOLDER_ID).len() == 0,
{
    lemma_folder_found(folders, next, i);
    assert(folders[i].parent_id < folders[i].id);
}

/// A further folder stands behind those above it, in the text and in the path.
pub proof fn names_are_shown_from_the_top_down(names: Seq<Seq<char>>, name: Seq<char>)
    ensures
        folder_text(names.push(name)) == folder_text(names) + " / "@ + name,
        folder_text(Seq::empty()) == "Workspace"@,
        nested_path(names.push(name)) == join_bytes(nested_path(names), name),
{
    reveal_strlit("Workspace");
    reveal_strlit("Workspace / ");
    reveal_strlit(" / ");
    assert("Workspace / "@ =~= "Workspace"@ + " / "@);
    let more = names.push(name);
    assert(more.drop_last() =~= names);
    if names.len() > 0 {
        assert(folder_text(more) =~= folder_text(names) + " / "@ + name);
    } else {
        assert(joined(more, " / "@) == name);
        assert(folder_text(more) =~= "Workspace"@ + " / "@ + name);
    }
}

/// The way up in the browser goes to the folder above, never out of the mods folder and not from the
/// mods folder itself.
pub proof fn the_browser_stays_in_the_mods_folder(app: App, root_is_dir: bool)
    ensures
        app.browser_parent(root_is_dir) matches Some(parent) ==> (app.current_mod_browser_path matches
            Some(current) && parent_bytes(current.bytes()) == Some(parent)),
        app.browser_parent(root_is_dir) matches Some(parent) ==> (app.mods_root(root_is_dir) matches
            Some(root) && lies_under(parent, root)),
        app.current_mod_browser_path matches Some(current) ==> (app.mods_root(root_is_dir) matches
            Some(root) ==> (path_class(current.bytes()) == path_class(root) ==> app.browser_parent(
            root_is_dir,
        ) is None)),
        app.current_mod_browser_path matches Some(current) ==> (app.mods_root(root_is_dir) matches
            Some(root) ==> (parent_bytes(current.bytes()) matches Some(parent) ==> (path_class(
            current.bytes(),
        ) != path_class(root) && lies_under(parent, root) ==> app.browser_parent(root_is_dir)
            == Some(parent)))),
        app.current_mod_browser_path is Some ==> app.browsed() == app.current_mod_browser_path,
        app.current_mod_browser_path is None ==> app.browsed() == app.selected_mod_path,
{
}

}
