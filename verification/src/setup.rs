//! The setup wizard.

use crate::launcher::{LauncherDependencyStatus, Tool};
use crate::paths::{self, join_bytes, path_class, shown_path, PathBytes, PathSet};
use std::path::{Path, PathBuf};
use vstd::prelude::*;

verus! {

/// The steps of the wizard. The choice of the game folder lies beside the others: it is entered
/// from `Ready`, and goes on to it.
#[derive(Clone, Copy, PartialEq, Eq, Structural)]
pub enum SetupStep {
    Welcome,
    ExternalTools,
    SystemDependencies,
    BuildHelper,
    GameFolder,
    Ready,
}

impl SetupStep {
    /// The step that follows.
    pub open spec fn following(self) -> Option<SetupStep> {
        match self {
            SetupStep::Welcome => Some(SetupStep::ExternalTools),
            SetupStep::ExternalTools => Some(SetupStep::SystemDependencies),
            SetupStep::SystemDependencies => Some(SetupStep::BuildHelper),
            SetupStep::BuildHelper => Some(SetupStep::Ready),
            SetupStep::GameFolder => Some(SetupStep::Ready),
            SetupStep::Ready => None,
        }
    }

    /// The step that comes before.
    pub open spec fn preceding(self) -> Option<SetupStep> {
        match self {
            SetupStep::Welcome => None,
            SetupStep::ExternalTools => Some(SetupStep::Welcome),
            SetupStep::SystemDependencies => Some(SetupStep::ExternalTools),
            SetupStep::BuildHelper => Some(SetupStep::SystemDependencies),
            SetupStep::GameFolder => Some(SetupStep::BuildHelper),
            SetupStep::Ready => Some(SetupStep::BuildHelper),
        }
    }

    /// How many steps are left until `Ready`.
    pub open spec fn left(self) -> nat {
        match self {
            SetupStep::Welcome => 4,
            SetupStep::ExternalTools => 3,
            SetupStep::SystemDependencies => 2,
            SetupStep::BuildHelper => 1,
            SetupStep::GameFolder => 1,
            SetupStep::Ready => 0,
        }
    }

    pub open spec fn heading(self) -> Seq<char> {
        match self {
            SetupStep::Welcome => "Welcome"@,
            SetupStep::ExternalTools => "External Tools"@,
            SetupStep::SystemDependencies => "System Dependencies"@,
            SetupStep::BuildHelper => "Build Helper"@,
            SetupStep::GameFolder => "Game Folder"@,
            SetupStep::Ready => "Ready"@,
        }
    }

    pub fn next(self) -> (r: Option<SetupStep>)
        ensures
            r == self.following(),
    {
        match self {
            SetupStep::Welcome => Some(SetupStep::ExternalTools),
            SetupStep::ExternalTools => Some(SetupStep::SystemDependencies),
            SetupStep::SystemDependencies => Some(SetupStep::BuildHelper),
            SetupStep::BuildHelper => Some(SetupStep::Ready),
            SetupStep::GameFolder => Some(SetupStep::Ready),
            SetupStep::Ready => None,
        }
    }

    pub fn previous(self) -> (r: Option<SetupStep>)
        ensures
            r == self.preceding(),
    {
        match self {
            SetupStep::Welcome => None,
            SetupStep::ExternalTools => Some(SetupStep::Welcome),
            SetupStep::SystemDependencies => Some(SetupStep::ExternalTools),
            SetupStep::BuildHelper => Some(SetupStep::SystemDependencies),
            SetupStep::GameFolder => Some(SetupStep::BuildHelper),
            SetupStep::Ready => Some(SetupStep::BuildHelper),
        }
    }

    pub fn title(self) -> (r: &'static str)
        ensures
            r@ == self.heading(),
    {
        match self {
            SetupStep::Welcome => "Welcome",
            SetupStep::ExternalTools => "External Tools",
            SetupStep::SystemDependencies => "System Dependencies",
            SetupStep::BuildHelper => "Build Helper",
            SetupStep::GameFolder => "Game Folder",
            SetupStep::Ready => "Ready",
        }
    }
}

/// Going on and going back undo each other in the sequence from `Welcome` to `Ready`.
pub proof fn going_back_undoes_going_on(step: SetupStep)
    requires
        !(step is GameFolder),
    ensures
        step.following() matches Some(next) ==> next.preceding() == Some(step),
        step.preceding() matches Some(previous) ==> previous.following() == Some(step),
{
}

/// Every step leads on to `Ready`: only that step is followed by none, and each step is followed by
/// one that is closer to it. Only `Welcome` has no step before it.
pub proof fn every_step_leads_to_ready(step: SetupStep)
    ensures
        step.following() is None <==> step is Ready,
        step.preceding() is None <==> step is Welcome,
        step.following() matches Some(next) ==> next != step && next.left() + 1 == step.left(),
        step.left() == 0 <==> step is Ready,
{
}

/// The choice of the game folder lies beside the sequence: no step leads on or back to it.
pub proof fn the_game_folder_lies_beside_the_sequence(step: SetupStep)
    ensures
        step.following() != Some(SetupStep::GameFolder),
        step.preceding() != Some(SetupStep::GameFolder),
{
}

/// The places of the application's files and tools.
pub struct ToolPaths {
    pub app_root: PathBuf,
    pub workspace_dir: PathBuf,
    pub builds_dir: PathBuf,
    pub external_dir: PathBuf,
    pub codewalker_dir: PathBuf,
    pub cwassettool_project: PathBuf,
    pub cwassettool_bin: PathBuf,
}

impl ToolPaths {
    /// The places below the folder of the application.
    pub fn discover(app_root: &Path) -> (r: ToolPaths)
        ensures
            r.app_root.bytes() == app_root.bytes(),
            r.workspace_dir.bytes() == join_bytes(app_root.bytes(), ".workspace"@),
            r.builds_dir.bytes() == join_bytes(app_root.bytes(), "builds"@),
            r.external_dir.bytes() == join_bytes(app_root.bytes(), "external"@),
            r.codewalker_dir.bytes() == join_bytes(r.external_dir.bytes(), "CodeWalker"@),
            r.cwassettool_project.bytes() == join_bytes(
                r.external_dir.bytes(),
                "CwAssetTool/CwAssetTool.csproj"@,
            ),
            r.cwassettool_bin.bytes() == join_bytes(
                r.external_dir.bytes(),
                "CwAssetTool/bin/Release/net10.0/CwAssetTool"@,
            ),
    {
        let external_dir = paths::join(app_root, "external");
        let codewalker_dir = paths::join(external_dir.as_path(), "CodeWalker");
        let cwassettool_project = paths::join(
            external_dir.as_path(),
            "CwAssetTool/CwAssetTool.csproj",
        );
        let cwassettool_bin = paths::join(
            external_dir.as_path(),
            "CwAssetTool/bin/Release/net10.0/CwAssetTool",
        );
        ToolPaths {
            app_root: app_root.to_path_buf(),
            workspace_dir: paths::join(app_root, ".workspace"),
            builds_dir: paths::join(app_root, "builds"),
            external_dir,
            codewalker_dir,
            cwassettool_project,
            cwassettool_bin,
        }
    }

    /// The folder of the imported files.
    pub open spec fn imports(self) -> Seq<u8> {
        join_bytes(self.workspace_dir.bytes(), "imports"@)
    }

    /// The folder of the imported files.
    pub fn imports_dir(&self) -> (r: PathBuf)
        ensures
            r.bytes() == self.imports(),
    {
        paths::join(self.workspace_dir.as_path(), "imports")
    }

    /// The folders that have to exist.
    pub fn ensure_directories(&self) -> (r: Vec<PathBuf>)
        ensures
            r@.len() == 3,
            r@[0].bytes() == self.imports(),
            r@[1] == self.builds_dir,
            r@[2] == self.external_dir,
    {
        let mut out: Vec<PathBuf> = Vec::new();
        out.push(self.imports_dir());
        out.push(self.builds_dir.clone());
        out.push(self.external_dir.clone());
        out
    }

    /// The project file by which the source of CodeWalker is recognised.
    pub open spec fn codewalker_mark(self) -> Seq<u8> {
        join_bytes(self.codewalker_dir.bytes(), "CodeWalker.Core/CodeWalker.Core.csproj"@)
    }

    /// The project file by which the source of CodeWalker is recognised.
    pub fn codewalker_project(&self) -> (r: PathBuf)
        ensures
            r.bytes() == self.codewalker_mark(),
    {
        paths::join(self.codewalker_dir.as_path(), "CodeWalker.Core/CodeWalker.Core.csproj")
    }

    pub fn codewalker_present(&self, files: &PathSet) -> (r: bool)
        ensures
            r == files@.contains(path_class(self.codewalker_mark())),
    {
        files.contains(self.codewalker_project().as_path())
    }

    pub fn cwassettool_present(&self, files: &PathSet) -> (r: bool)
        ensures
            r == files@.contains(path_class(self.cwassettool_project.bytes())),
    {
        files.contains(self.cwassettool_project.as_path())
    }

    pub fn codewalker_clone_url(&self) -> (r: &'static str)
        ensures
            r@ == "https://github.com/dexyfex/CodeWalker"@,
    {
        "https://github.com/dexyfex/CodeWalker"
    }
}

/// What the setup has found.
pub struct SetupStatus {
    pub cwassettool_source: bool,
    pub codewalker_source: bool,
    pub cwassettool_binary: bool,
    pub git_available: bool,
    pub dotnet_available: bool,
    pub magick_available: bool,
    pub wine_available: bool,
    pub wineboot_available: bool,
    pub wineserver_available: bool,
    pub winetricks_available: bool,
}

/// The programs besides those of the launcher that answered when they were called.
#[derive(Clone, Copy)]
pub struct ToolAnswers {
    pub git: bool,
    pub dotnet: bool,
    pub magick: bool,
}

impl SetupStatus {
    /// Whether everything that the application needs is there.
    pub open spec fn ready(self) -> bool {
        self.cwassettool_source && self.codewalker_source && self.cwassettool_binary
            && self.git_available && self.dotnet_available && self.magick_available
            && self.wine_available && self.wineboot_available && self.wineserver_available
            && self.winetricks_available
    }

    /// What the setup finds, given the files that exist and the programs that answered.
    pub fn detect(
        tool_paths: &ToolPaths,
        files: &PathSet,
        answers: ToolAnswers,
        launcher: LauncherDependencyStatus,
    ) -> (r: SetupStatus)
        ensures
            r.cwassettool_source == files@.contains(
                path_class(tool_paths.cwassettool_project.bytes()),
            ),
            r.codewalker_source == files@.contains(path_class(tool_paths.codewalker_mark())),
            r.cwassettool_binary == files@.contains(
                path_class(tool_paths.cwassettool_bin.bytes()),
            ),
            r.git_available == answers.git,
            r.dotnet_available == answers.dotnet,
            r.magick_available == answers.magick,
            r.wine_available == launcher.wine_available,
            r.wineboot_available == launcher.wineboot_available,
            r.wineserver_available == launcher.wineserver_available,
            r.winetricks_available == launcher.winetricks_available,
    {
        SetupStatus {
            cwassettool_source: tool_paths.cwassettool_present(files),
            codewalker_source: tool_paths.codewalker_present(files),
            cwassettool_binary: files.contains(tool_paths.cwassettool_bin.as_path()),
            git_available: answers.git,
            dotnet_available: answers.dotnet,
            magick_available: answers.magick,
            wine_available: launcher.wine_available,
            wineboot_available: launcher.wineboot_available,
            wineserver_available: launcher.wineserver_available,
            winetricks_available: launcher.winetricks_available,
        }
    }

    pub fn setup_ready(&self) -> (r: bool)
        ensures
            r == self.ready(),
    {
        self.cwassettool_source && self.codewalker_source && self.cwassettool_binary
            && self.git_available && self.dotnet_available && self.magick_available
            && self.wine_available && self.wineboot_available && self.wineserver_available
            && self.winetricks_available
    }
}

/// Whether the wizard may go on from a step.
pub open spec fn may_go_on(
    step: SetupStep,
    status: SetupStatus,
    launcher: LauncherDependencyStatus,
    has_game_root: bool,
) -> bool {
    match step {
        SetupStep::Welcome => true,
        SetupStep::ExternalTools => status.cwassettool_source && status.codewalker_source,
        SetupStep::SystemDependencies => status.git_available && status.dotnet_available
            && status.magick_available && status.wine_available && status.wineboot_available
            && status.wineserver_available && status.winetricks_available
            && launcher.bash_available && launcher.tar_available,
        SetupStep::BuildHelper => status.cwassettool_binary,
        SetupStep::GameFolder => has_game_root,
        SetupStep::Ready => false,
    }
}

/// Whether the wizard may go on from a step.
pub fn next_enabled(
    step: SetupStep,
    status: &SetupStatus,
    launcher: &LauncherDependencyStatus,
    has_game_root: bool,
) -> (r: bool)
    ensures
        r == may_go_on(step, *status, *launcher, has_game_root),
{
    match step {
        SetupStep::Welcome => true,
        SetupStep::ExternalTools => status.cwassettool_source && status.codewalker_source,
        SetupStep::SystemDependencies => status.git_available && status.dotnet_available
            && status.magick_available && status.wine_available && status.wineboot_available
            && status.wineserver_available && status.winetricks_available
            && launcher.bash_available && launcher.tar_available,
        SetupStep::BuildHelper => status.cwassettool_binary,
        SetupStep::GameFolder => has_game_root,
        SetupStep::Ready => false,
    }
}

/// Whether the action of a step can be started.
pub open spec fn may_act(step: SetupStep, status: SetupStatus, has_game_root: bool) -> bool {
    match step {
        SetupStep::Welcome => true,
        SetupStep::ExternalTools => !status.codewalker_source,
        SetupStep::SystemDependencies => false,
        SetupStep::BuildHelper => !status.cwassettool_binary,
        SetupStep::GameFolder => true,
        SetupStep::Ready => status.ready() && has_game_root,
    }
}

/// Whether the action of a step can be started.
pub fn action_enabled(step: SetupStep, status: &SetupStatus, has_game_root: bool) -> (r: bool)
    ensures
        r == may_act(step, *status, has_game_root),
{
    match step {
        SetupStep::Welcome => true,
        SetupStep::ExternalTools => !status.codewalker_source,
        SetupStep::SystemDependencies => false,
        SetupStep::BuildHelper => !status.cwassettool_binary,
        SetupStep::GameFolder => true,
        SetupStep::Ready => status.setup_ready() && has_game_root,
    }
}

/// Once the wizard may go on from every step of the sequence before `Ready`, the setup is ready; with
/// a game folder the last action can be started.
pub proof fn a_wizard_that_may_go_on_gets_ready(
    status: SetupStatus,
    launcher: LauncherDependencyStatus,
    has_game_root: bool,
)
    requires
        forall|step: SetupStep|
            !(step is Ready) && !(step is GameFolder) ==> #[trigger] may_go_on(
                step,
                status,
                launcher,
                has_game_root,
            ),
    ensures
        status.ready(),
        may_act(SetupStep::Ready, status, has_game_root) <==> has_game_root,
{
    assert(may_go_on(SetupStep::ExternalTools, status, launcher, has_game_root));
    assert(may_go_on(SetupStep::SystemDependencies, status, launcher, has_game_root));
    assert(may_go_on(SetupStep::BuildHelper, status, launcher, has_game_root));
}

pub const WELCOME_BODY: &'static str = "GTAV texture importer helps you inspect GTA V YDR and YFT packages, preview embedded textures, replace them with your own images, and rebuild safe output files without modifying the originals.";

pub const EXTERNAL_TOOLS_BODY: &'static str = "The app needs bundled helper code and CodeWalker source in the app folder. If CodeWalker is missing, the wizard can download it into the local external tools directory before the app starts.";

pub const SYSTEM_DEPENDENCIES_BODY: &'static str = "The app also needs git, dotnet, ImageMagick, and the Wine launcher tools available on the system. Install any missing dependency before continuing.";

pub const BUILD_HELPER_BODY: &'static str = "CwAssetTool is bundled with the app, but it still needs to be built against the local CodeWalker source before texture import/export can work.";

pub const GAME_FOLDER_BODY: &'static str = "Choose the GTA V game folder. The app will automatically use or create the mods folder inside it, while all temporary edit files stay in the app workspace.";

pub const READY_BODY: &'static str = "Setup is complete. You can continue into the main application. You can run the wizard again later from the app menu.";

/// The explanation of a step.
pub open spec fn body_of(step: SetupStep) -> Seq<char> {
    match step {
        SetupStep::Welcome => WELCOME_BODY@,
        SetupStep::ExternalTools => EXTERNAL_TOOLS_BODY@,
        SetupStep::SystemDependencies => SYSTEM_DEPENDENCIES_BODY@,
        SetupStep::BuildHelper => BUILD_HELPER_BODY@,
        SetupStep::GameFolder => GAME_FOLDER_BODY@,
        SetupStep::Ready => READY_BODY@,
    }
}

/// The label of the action of a step, where it has one.
pub open spec fn action_label_of(step: SetupStep, status: SetupStatus) -> Option<Seq<char>> {
    match step {
        SetupStep::Welcome => Some("Start Setup"@),
        SetupStep::ExternalTools => if status.codewalker_source {
            None
        } else {
            Some("Download CodeWalker"@)
        },
        SetupStep::SystemDependencies => None,
        SetupStep::BuildHelper => if status.cwassettool_binary {
            None
        } else {
            Some("Build Helper"@)
        },
        SetupStep::GameFolder => Some("Choose Game Folder"@),
        SetupStep::Ready => Some("Continue"@),
    }
}

/// A row of the wizard: something that is there or missing, or a plain fact.
pub struct SetupRow {
    pub title: &'static str,
    pub ok: Option<bool>,
    pub detail: String,
}

/// What a row holds.
pub struct SetupFact {
    pub title: Seq<char>,
    pub ok: Option<bool>,
    pub detail: Seq<char>,
}

impl View for SetupRow {
    type V = SetupFact;

    open spec fn view(&self) -> SetupFact {
        SetupFact { title: self.title@, ok: self.ok, detail: self.detail@ }
    }
}

/// What the rows of a list hold.
pub open spec fn setup_facts(rows: Seq<SetupRow>) -> Seq<SetupFact> {
    Seq::new(rows.len(), |i: int| rows[i]@)
}

impl SetupRow {
    /// What stands on a row, with the state of what it is about.
    pub open spec fn heading(self) -> Seq<char> {
        match self.ok {
            Some(true) => self.title@ + ": "@ + "OK"@,
            Some(false) => self.title@ + ": "@ + "Missing"@,
            None => self.title@,
        }
    }

    /// What stands on a row.
    pub fn label(&self) -> (r: String)
        ensures
            r@ == self.heading(),
    {
        let mut out = self.title.to_owned();
        match self.ok {
            Some(ok) => {
                out.append(": ");
                if ok {
                    out.append("OK");
                } else {
                    out.append("Missing");
                }
            },
            None => {},
        }
        out
    }
}

pub open spec fn checked(title: Seq<char>, ok: bool, detail: Seq<char>) -> SetupFact {
    SetupFact { title, ok: Some(ok), detail }
}

pub open spec fn told(title: Seq<char>, detail: Seq<char>) -> SetupFact {
    SetupFact { title, ok: None, detail }
}

/// A path as it is shown, or a text where there is none.
pub open spec fn shown_or(path: Option<PathBuf>, otherwise: Seq<char>) -> Seq<char> {
    match path {
        Some(p) => shown_path(p.bytes()),
        None => otherwise,
    }
}

/// The rows of a step.
pub open spec fn facts_of(
    step: SetupStep,
    status: SetupStatus,
    launcher: LauncherDependencyStatus,
    tools: ToolPaths,
    game_root: Option<PathBuf>,
    mods_root: Option<PathBuf>,
) -> Seq<SetupFact> {
    match step {
        SetupStep::Welcome => seq![
            told("App folder"@, shown_path(tools.app_root.bytes())),
            told("External tool folder"@, shown_path(tools.external_dir.bytes())),
        ],
        SetupStep::ExternalTools => seq![
            checked(
                "Bundled CwAssetTool source"@,
                status.cwassettool_source,
                shown_path(tools.cwassettool_project.bytes()),
            ),
            checked(
                "CodeWalker source"@,
                status.codewalker_source,
                shown_path(tools.codewalker_dir.bytes()),
            ),
            told("CodeWalker download URL"@, "https://github.com/dexyfex/CodeWalker"@),
        ],
        SetupStep::SystemDependencies => seq![
            checked(
                "git"@,
                status.git_available,
                "Required to download CodeWalker and check updates"@,
            ),
            checked(
                "dotnet"@,
                status.dotnet_available,
                "Required to build the bundled CwAssetTool helper"@,
            ),
            checked(
                "magick"@,
                status.magick_available,
                "Required for DDS preview generation and texture conversion"@,
            ),
            checked("wine"@, status.wine_available, "Required to launch the GTA V Linux variant"@),
            checked(
                "wineboot"@,
                status.wineboot_available,
                "Required to initialize the Wine prefix"@,
            ),
            checked(
                "wineserver"@,
                status.wineserver_available,
                "Required to wait for Wine prefix setup"@,
            ),
            checked(
                "winetricks"@,
                status.winetricks_available,
                "Required to install the GTA runtime dependencies"@,
            ),
            checked(
                "bash"@,
                launcher.bash_available,
                "Required to apply the Vulkan runtime scripts"@,
            ),
            checked(
                "tar"@,
                launcher.tar_available,
                "Required to extract the cached Vulkan runtime bundle"@,
            ),
        ],
        SetupStep::BuildHelper => seq![
            checked(
                "CwAssetTool binary"@,
                status.cwassettool_binary,
                shown_path(tools.cwassettool_bin.bytes()),
            ),
            told("Build target"@, ".NET Release / net10.0"@),
        ],
        SetupStep::GameFolder => seq![
            checked("Game folder"@, game_root is Some, shown_or(game_root, "Not configured"@)),
            told("Derived mods folder"@, shown_or(mods_root, "Will be created automatically"@)),
        ],
        SetupStep::Ready => seq![
            checked(
                "Setup complete"@,
                status.ready() && game_root is Some,
                "All required tools are present and the GTA V game folder is configured"@,
            ),
        ],
    }
}

/// What the wizard shows.
pub struct SetupPage {
    pub step_text: String,
    pub title: &'static str,
    pub body: &'static str,
    pub action_label: Option<&'static str>,
    pub rows: Vec<SetupRow>,
}

fn status_row(title: &'static str, ok: bool, detail: &str) -> (r: SetupRow)
    ensures
        r@ == checked(title@, ok, detail@),
{
    SetupRow { title, ok: Some(ok), detail: detail.to_owned() }
}

fn info_row(title: &'static str, detail: &str) -> (r: SetupRow)
    ensures
        r@ == told(title@, detail@),
{
    SetupRow { title, ok: None, detail: detail.to_owned() }
}

fn show_or(path: &Option<PathBuf>, otherwise: &str) -> (r: String)
    ensures
        r@ == shown_or(*path, otherwise@),
{
    match path {
        Some(p) => paths::shown(p.as_path()),
        None => otherwise.to_owned(),
    }
}

fn setup_rows(
    step: SetupStep,
    status: &SetupStatus,
    launcher: &LauncherDependencyStatus,
    tools: &ToolPaths,
    game_root: &Option<PathBuf>,
    mods_root: &Option<PathBuf>,
) -> (r: Vec<SetupRow>)
    ensures
        setup_facts(r@) == facts_of(step, *status, *launcher, *tools, *game_root, *mods_root),
{
    let mut rows: Vec<SetupRow> = Vec::new();
    match step {
        SetupStep::Welcome => {
            rows.push(info_row("App folder", paths::shown(tools.app_root.as_path()).as_str()));
            rows.push(
                info_row(
                    "External tool folder",
                    paths::shown(tools.external_dir.as_path()).as_str(),
                ),
            );
        },
        SetupStep::ExternalTools => {
            rows.push(
                status_row(
                    "Bundled CwAssetTool source",
                    status.cwassettool_source,
                    paths::shown(tools.cwassettool_project.as_path()).as_str(),
                ),
            );
            rows.push(
                status_row(
                    "CodeWalker source",
                    status.codewalker_source,
                    paths::shown(tools.codewalker_dir.as_path()).as_str(),
                ),
            );
            rows.push(info_row("CodeWalker download URL", tools.codewalker_clone_url()));
        },
        SetupStep::SystemDependencies => {
            rows.push(
                status_row(
                    "git",
                    status.git_available,
                    "Required to download CodeWalker and check updates",
                ),
            );
            rows.push(
                status_row(
                    "dotnet",
                    status.dotnet_available,
                    "Required to build the bundled CwAssetTool helper",
                ),
            );
            rows.push(
                status_row(
                    "magick",
                    status.magick_available,
                    "Required for DDS preview generation and texture conversion",
                ),
            );
            rows.push(
                status_row(
                    "wine",
                    status.wine_available,
                    "Required to launch the GTA V Linux variant",
                ),
            );
            rows.push(
                status_row(
                    "wineboot",
                    status.wineboot_available,
                    "Required to initialize the Wine prefix",
                ),
            );
            rows.push(
                status_row(
                    "wineserver",
                    status.wineserver_available,
                    "Required to wait for Wine prefix setup",
                ),
            );
            rows.push(
                status_row(
                    "winetricks",
                    status.winetricks_available,
                    "Required to install the GTA runtime dependencies",
                ),
            );
            rows.push(
                status_row(
                    "bash",
                    launcher.bash_available,
                    "Required to apply the Vulkan runtime scripts",
                ),
            );
            rows.push(
                status_row(
                    "tar",
                    launcher.tar_available,
                    "Required to extract the cached Vulkan runtime bundle",
                ),
            );
        },
        SetupStep::BuildHelper => {
            rows.push(
                status_row(
                    "CwAssetTool binary",
                    status.cwassettool_binary,
                    paths::shown(tools.cwassettool_bin.as_path()).as_str(),
                ),
            );
            rows.push(info_row("Build target", ".NET Release / net10.0"));
        },
        SetupStep::GameFolder => {
            rows.push(
                status_row(
                    "Game folder",
                    game_root.is_some(),
                    show_or(game_root, "Not configured").as_str(),
                ),
            );
            rows.push(
                info_row(
                    "Derived mods folder",
                    show_or(mods_root, "Will be created automatically").as_str(),
                ),
            );
        },
        SetupStep::Ready => {
            rows.push(
                status_row(
                    "Setup complete",
                    status.setup_ready() && game_root.is_some(),
                    "All required tools are present and the GTA V game folder is configured",
                ),
            );
        },
    }
    assert(setup_facts(rows@) =~= facts_of(
        step,
        *status,
        *launcher,
        *tools,
        *game_root,
        *mods_root,
    ));
    rows
}

fn setup_body(step: SetupStep) -> (r: &'static str)
    ensures
        r@ == body_of(step),
{
    match step {
        SetupStep::Welcome => WELCOME_BODY,
        SetupStep::ExternalTools => EXTERNAL_TOOLS_BODY,
        SetupStep::SystemDependencies => SYSTEM_DEPENDENCIES_BODY,
        SetupStep::BuildHelper => BUILD_HELPER_BODY,
        SetupStep::GameFolder => GAME_FOLDER_BODY,
        SetupStep::Ready => READY_BODY,
    }
}

fn setup_action_label(step: SetupStep, status: &SetupStatus) -> (r: Option<&'static str>)
    ensures
        match r {
            Some(label) => action_label_of(step, *status) == Some(label@),
            None => action_label_of(step, *status) is None,
        },
{
    match step {
        SetupStep::Welcome => Some("Start Setup"),
        SetupStep::ExternalTools => if status.codewalker_source {
            None
        } else {
            Some("Download CodeWalker")
        },
        SetupStep::SystemDependencies => None,
        SetupStep::BuildHelper => if status.cwassettool_binary {
            None
        } else {
            Some("Build Helper")
        },
        SetupStep::GameFolder => Some("Choose Game Folder"),
        SetupStep::Ready => Some("Continue"),
    }
}

/// What the wizard shows at a step; the game folder and the mods folder are given where they
/// are configured.
pub fn setup_page(
    step: SetupStep,
    status: &SetupStatus,
    launcher: &LauncherDependencyStatus,
    tools: &ToolPaths,
    game_root: &Option<PathBuf>,
    mods_root: &Option<PathBuf>,
) -> (r: SetupPage)
    ensures
        r.step_text@ == "Step: "@ + step.heading(),
        r.title@ == step.heading(),
        r.body@ == body_of(step),
        match r.action_label {
            Some(label) => action_label_of(step, *status) == Some(label@),
            None => action_label_of(step, *status) is None,
        },
        setup_facts(r.rows@) == facts_of(step, *status, *launcher, *tools, *game_root, *mods_root),
{
    let mut step_text = "Step: ".to_owned();
    step_text.append(step.title());
    SetupPage {
        step_text,
        title: step.title(),
        body: setup_body(step),
        action_label: setup_action_label(step, status),
        rows: setup_rows(step, status, launcher, tools, game_root, mods_root),
    }
}

/// An action is offered at a step exactly when it can be started, but for the last step, which
/// always offers to continue.
pub proof fn offered_actions_can_be_started(
    step: SetupStep,
    status: SetupStatus,
    has_game_root: bool,
)
    requires
        !(step is Ready),
    ensures
        action_label_of(step, status) is Some <==> may_act(step, status, has_game_root),
{
}

/// Whether a row tells that something is missing.
pub open spec fn tells_missing(facts: Seq<SetupFact>) -> bool {
    exists|i: int| 0 <= i < facts.len() && (#[trigger] facts[i]).ok == Some(false)
}

/// The wizard goes on from a step exactly when no row of the step tells that something is missing.
pub proof fn the_wizard_waits_for_what_is_missing(
    step: SetupStep,
    status: SetupStatus,
    launcher: LauncherDependencyStatus,
    tools: ToolPaths,
    game_root: Option<PathBuf>,
    mods_root: Option<PathBuf>,
)
    requires
        !(step is Ready),
    ensures
        may_go_on(step, status, launcher, game_root is Some) <==> !tells_missing(
            facts_of(step, status, launcher, tools, game_root, mods_root),
        ),
{
    let facts = facts_of(step, status, launcher, tools, game_root, mods_root);
    match step {
        SetupStep::Welcome => {
            assert(facts[0].ok is None && facts[1].ok is None);
        },
        SetupStep::ExternalTools => {
            assert(facts[0].ok == Some(status.cwassettool_source));
            assert(facts[1].ok == Some(status.codewalker_source));
            assert(facts[2].ok is None);
        },
        SetupStep::SystemDependencies => {
            assert(facts[0].ok == Some(status.git_available));
            assert(facts[1].ok == Some(status.dotnet_available));
            assert(facts[2].ok == Some(status.magick_available));
            assert(facts[3].ok == Some(status.wine_available));
            assert(facts[4].ok == Some(status.wineboot_available));
            assert(facts[5].ok == Some(status.wineserver_available));
            assert(facts[6].ok == Some(status.winetricks_available));
            assert(facts[7].ok == Some(launcher.bash_available));
            assert(facts[8].ok == Some(launcher.tar_available));
        },
        SetupStep::BuildHelper => {
            assert(facts[0].ok == Some(status.cwassettool_binary));
            assert(facts[1].ok is None);
        },
        SetupStep::GameFolder => {
            assert(facts[0].ok == Some(game_root is Some));
            assert(facts[1].ok is None);
        },
        SetupStep::Ready => {},
    }
}

/// The setup is ready exactly when the wizard may go on from each of its steps, but for the two tools
/// that only the Vulkan runtime needs; and any one thing that is missing keeps it from being ready.
pub proof fn the_setup_is_ready_when_nothing_is_missing(
    status: SetupStatus,
    launcher: LauncherDependencyStatus,
    has_game_root: bool,
)
    ensures
        status.ready() && launcher.bash_available && launcher.tar_available <==> may_go_on(
            SetupStep::ExternalTools,
            status,
            launcher,
            has_game_root,
        ) && may_go_on(SetupStep::SystemDependencies, status, launcher, has_game_root) && may_go_on(
            SetupStep::BuildHelper,
            status,
            launcher,
            has_game_root,
        ),
        !status.cwassettool_source || !status.codewalker_source || !status.cwassettool_binary
            || !status.git_available || !status.dotnet_available || !status.magick_available
            || !status.wine_available || !status.wineboot_available || !status.wineserver_available
            || !status.winetricks_available ==> !status.ready() && !may_act(
            SetupStep::Ready,
            status,
            has_game_root,
        ),
        !has_game_root ==> !may_act(SetupStep::Ready, status, has_game_root),
{
}

/// Each tool is told under its own name as it was found.
pub proof fn each_tool_is_told_as_it_was_found(
    status: SetupStatus,
    launcher: LauncherDependencyStatus,
    tools: ToolPaths,
    game_root: Option<PathBuf>,
    mods_root: Option<PathBuf>,
    i: int,
)
    requires
        0 <= i < facts_of(
            SetupStep::SystemDependencies,
            status,
            launcher,
            tools,
            game_root,
            mods_root,
        ).len(),
    ensures
        ({
            let fact = facts_of(
                SetupStep::SystemDependencies,
                status,
                launcher,
                tools,
                game_root,
                mods_root,
            )[i];
            &&& fact.title == "git"@ ==> fact.ok == Some(status.git_available)
            &&& fact.title == "dotnet"@ ==> fact.ok == Some(status.dotnet_available)
            &&& fact.title == "magick"@ ==> fact.ok == Some(status.magick_available)
            &&& fact.title == Tool::Wine.label() ==> fact.ok == Some(status.wine_available)
            &&& fact.title == Tool::Wineboot.label() ==> fact.ok == Some(status.wineboot_available)
            &&& fact.title == Tool::Wineserver.label() ==> fact.ok == Some(
                status.wineserver_available,
            )
            &&& fact.title == Tool::Winetricks.label() ==> fact.ok == Some(
                status.winetricks_available,
            )
            &&& fact.title == Tool::Bash.label() ==> fact.ok == Some(launcher.bash_available)
            &&& fact.title == Tool::Tar.label() ==> fact.ok == Some(launcher.tar_available)
        }),
{
    reveal_strlit("git");
    reveal_strlit("dotnet");
    reveal_strlit("magick");
    reveal_strlit("wine");
    reveal_strlit("wineboot");
    reveal_strlit("wineserver");
    reveal_strlit("winetricks");
    reveal_strlit("bash");
    reveal_strlit("tar");
    assert("git"@.len() == 3 && "tar"@.len() == 3 && "git"@[0] == 'g' && "tar"@[0] == 't');
    assert("dotnet"@.len() == 6 && "magick"@.len() == 6);
    assert("dotnet"@[0] == 'd' && "magick"@[0] == 'm');
    assert("wine"@.len() == 4 && "bash"@.len() == 4 && "wine"@[0] == 'w' && "bash"@[0] == 'b');
    assert("wineboot"@.len() == 8);
    assert("wineserver"@.len() == 10 && "winetricks"@.len() == 10);
    assert("wineserver"@[4] == 's' && "winetricks"@[4] == 't');
}

/// Each step has a heading of its own.
pub proof fn each_step_is_told_by_itself(a: SetupStep, b: SetupStep)
    ensures
        a != b ==> a.heading() != b.heading(),
{
    reveal_strlit("Welcome");
    reveal_strlit("External Tools");
    reveal_strlit("System Dependencies");
    reveal_strlit("Build Helper");
    reveal_strlit("Game Folder");
    reveal_strlit("Ready");
    assert("Welcome"@[0] == 'W' && "External Tools"@[0] == 'E' && "System Dependencies"@[0] == 'S');
    assert("Build Helper"@[0] == 'B' && "Game Folder"@[0] == 'G' && "Ready"@[0] == 'R');
}

/// A row tells behind its title whether what it is about was found; a row that tests nothing has only its
/// title.
pub proof fn a_row_tells_what_was_found(row: SetupRow)
    ensures
        row.ok is None ==> row.heading() == row.title@,
        row.ok == Some(true) <==> row.heading() == row.title@ + ": OK"@,
        row.ok == Some(false) <==> row.heading() == row.title@ + ": Missing"@,
{
    reveal_strlit(": ");
    reveal_strlit("OK");
    reveal_strlit("Missing");
    reveal_strlit(": OK");
    reveal_strlit(": Missing");
    assert(row.title@ + ": "@ + "OK"@ =~= row.title@ + ": OK"@);
    assert(row.title@ + ": "@ + "Missing"@ =~= row.title@ + ": Missing"@);
    assert((row.title@ + ": OK"@).len() == row.title@.len() + 4);
    assert((row.title@ + ": Missing"@).len() == row.title@.len() + 9);
}

}
