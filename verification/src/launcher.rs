//! Preparing the Wine environment and starting the game.
//!
//! The work happens outside: each operation is a machine that names the next action, is told how
//! it went, and says in the end what the operation came to.

use crate::paths::{self, join_bytes, lossy_path, path_class, shown_path, PathBytes, PathSet};
use crate::text::{
    self, begins, decimal, decimals_are_distinct, ends, signed_decimal, text_or, texts, trimmed,
    value_or,
};
use std::path::{Path, PathBuf};
use vstd::prelude::*;

verus! {

/// The DLL overrides without the Vulkan runtime.
pub const BASE_DLL_OVERRIDES: &'static str = "winemenubuilder.exe=d;mshtml=d;dinput8=n,b;mscoree=n,b;d3dx11_43=n,b;scripthookv=n,b;scripthookvdotnet2=n,b;scripthookvdotnet3=n,b";

/// The DLL overrides with the Vulkan runtime.
pub const VULKAN_DLL_OVERRIDES: &'static str = "winemenubuilder.exe=d;mshtml=d;dinput8=n,b;mscoree=n,b;d3dx11_43=n,b;scripthookv=n,b;scripthookvdotnet2=n,b;scripthookvdotnet3=n,b;nvapi,nvapi64=n;d3d9,d3d10core,d3d11,dxgi=n;d3d12,d3d12core=n";

/// Where the Vulkan runtime archive is looked for when no other place is named.
pub const DEFAULT_VULKAN_ARCHIVE_SOURCE: &'static str = "/home/takasu/Documents/codinglab/rusty-gta/vulkan.tar.xz";

/// The environment variables that the launcher reads, as far as they are set.
pub struct LauncherVariables {
    pub syswine: Option<String>,
    pub wineboot: Option<String>,
    pub wineserver: Option<String>,
    pub winetricks: Option<String>,
    pub tar: Option<String>,
    pub bash: Option<String>,
    pub winearch: Option<String>,
    pub large_address_aware: Option<String>,
    pub winedebug: Option<String>,
    pub dxvk_enable_nvapi: Option<String>,
    pub lc_numeric: Option<String>,
    pub dll_overrides: Option<String>,
}

/// The tools that the launcher calls.
#[derive(Clone, Copy, PartialEq, Eq, Structural)]
pub enum Tool {
    Wine,
    Wineboot,
    Wineserver,
    Winetricks,
    Tar,
    Bash,
}

impl Tool {
    /// The name under which a missing tool is reported.
    pub open spec fn label(self) -> Seq<char> {
        match self {
            Tool::Wine => "wine"@,
            Tool::Wineboot => "wineboot"@,
            Tool::Wineserver => "wineserver"@,
            Tool::Winetricks => "winetricks"@,
            Tool::Tar => "tar"@,
            Tool::Bash => "bash"@,
        }
    }

    /// The name under which a missing tool is reported.
    pub fn name(self) -> (r: &'static str)
        ensures
            r@ == self.label(),
    {
        match self {
            Tool::Wine => "wine",
            Tool::Wineboot => "wineboot",
            Tool::Wineserver => "wineserver",
            Tool::Winetricks => "winetricks",
            Tool::Tar => "tar",
            Tool::Bash => "bash",
        }
    }
}

impl LauncherVariables {
    /// The command of a tool: the one that a variable names, or the tool's own name.
    pub open spec fn command(self, tool: Tool) -> Seq<char> {
        text_or(
            match tool {
                Tool::Wine => self.syswine,
                Tool::Wineboot => self.wineboot,
                Tool::Wineserver => self.wineserver,
                Tool::Winetricks => self.winetricks,
                Tool::Tar => self.tar,
                Tool::Bash => self.bash,
            },
            tool.label(),
        )
    }

    /// The command of a tool.
    pub fn binary(&self, tool: Tool) -> (r: String)
        ensures
            r@ == self.command(tool),
    {
        match tool {
            Tool::Wine => value_or(&self.syswine, "wine"),
            Tool::Wineboot => value_or(&self.wineboot, "wineboot"),
            Tool::Wineserver => value_or(&self.wineserver, "wineserver"),
            Tool::Winetricks => value_or(&self.winetricks, "winetricks"),
            Tool::Tar => value_or(&self.tar, "tar"),
            Tool::Bash => value_or(&self.bash, "bash"),
        }
    }
}

/// Which of the launcher's tools can be called.
#[derive(Clone, Copy)]
pub struct LauncherDependencyStatus {
    pub wine_available: bool,
    pub wineboot_available: bool,
    pub wineserver_available: bool,
    pub winetricks_available: bool,
    pub bash_available: bool,
    pub tar_available: bool,
}

fn among(list: &Vec<String>, name: &str) -> (r: bool)
    ensures
        r == texts(list@).contains(name@),
{
    let mut i: usize = 0;
    while i < list.len()
        invariant
            0 <= i <= list@.len(),
            forall|j: int| 0 <= j < i ==> texts(list@)[j] != name@,
        decreases list@.len() - i,
    {
        if text::same_text(list[i].as_str(), name) {
            assert(texts(list@)[i as int] == name@);
            return true;
        }
        i += 1;
    }
    false
}

impl LauncherDependencyStatus {
    /// A tool is available when its command is among those that were found.
    pub fn detect(variables: &LauncherVariables, found: &Vec<String>) -> (r: Self)
        ensures
            r.wine_available == texts(found@).contains(variables.command(Tool::Wine)),
            r.wineboot_available == texts(found@).contains(variables.command(Tool::Wineboot)),
            r.wineserver_available == texts(found@).contains(variables.command(Tool::Wineserver)),
            r.winetricks_available == texts(found@).contains(variables.command(Tool::Winetricks)),
            r.bash_available == texts(found@).contains(variables.command(Tool::Bash)),
            r.tar_available == texts(found@).contains(variables.command(Tool::Tar)),
    {
        LauncherDependencyStatus {
            wine_available: among(found, variables.binary(Tool::Wine).as_str()),
            wineboot_available: among(found, variables.binary(Tool::Wineboot).as_str()),
            wineserver_available: among(found, variables.binary(Tool::Wineserver).as_str()),
            winetricks_available: among(found, variables.binary(Tool::Winetricks).as_str()),
            bash_available: among(found, variables.binary(Tool::Bash).as_str()),
            tar_available: among(found, variables.binary(Tool::Tar).as_str()),
        }
    }
}

/// What the preparation of the environment gives.
pub struct PrepareResult {
    pub prefix: PathBuf,
    pub vulkan_status: VulkanStatus,
}

#[derive(Clone, Copy, PartialEq, Eq, Structural)]
pub enum VulkanCacheStatus {
    AlreadyCached,
    CachedNow,
}

impl VulkanCacheStatus {
    pub open spec fn label(self) -> Seq<char> {
        match self {
            VulkanCacheStatus::AlreadyCached => "already cached"@,
            VulkanCacheStatus::CachedNow => "cached"@,
        }
    }

    pub fn as_label(self) -> (r: &'static str)
        ensures
            r@ == self.label(),
    {
        match self {
            VulkanCacheStatus::AlreadyCached => "already cached",
            VulkanCacheStatus::CachedNow => "cached",
        }
    }
}

#[derive(Debug, Clone, Copy, PartialEq, Eq, Structural)]
pub enum VulkanStatus {
    NotConfigured,
    AlreadyConfigured,
    ConfiguredNow,
}

impl VulkanStatus {
    pub open spec fn label(self) -> Seq<char> {
        match self {
            VulkanStatus::NotConfigured => "not configured"@,
            VulkanStatus::AlreadyConfigured => "already configured"@,
            VulkanStatus::ConfiguredNow => "configured"@,
        }
    }

    pub fn as_label(self) -> (r: &'static str)
        ensures
            r@ == self.label(),
    {
        match self {
            VulkanStatus::NotConfigured => "not configured",
            VulkanStatus::AlreadyConfigured => "already configured",
            VulkanStatus::ConfiguredNow => "configured",
        }
    }

    pub fn is_configured(self) -> (r: bool)
        ensures
            r == !(self is NotConfigured),
    {
        match self {
            VulkanStatus::NotConfigured => false,
            VulkanStatus::AlreadyConfigured => true,
            VulkanStatus::ConfiguredNow => true,
        }
    }
}

#[derive(Clone, Copy, PartialEq, Eq, Structural)]
pub enum DependencyStatus {
    AlreadyInstalled,
    InstalledNow,
}

impl DependencyStatus {
    pub open spec fn label(self) -> Seq<char> {
        match self {
            DependencyStatus::AlreadyInstalled => "already installed"@,
            DependencyStatus::InstalledNow => "installed"@,
        }
    }

    pub fn as_label(self) -> (r: &'static str)
        ensures
            r@ == self.label(),
    {
        match self {
            DependencyStatus::AlreadyInstalled => "already installed",
            DependencyStatus::InstalledNow => "installed",
        }
    }
}

/// Why an operation of the launcher failed; `source` is the message of the operating system.
#[derive(Debug)]
pub enum LauncherError {
    InvalidGameDirectory(PathBuf),
    MissingGameExecutable(PathBuf),
    MissingBinary(&'static str),
    MissingVulkanArchive(PathBuf),
    MissingSetupScript(PathBuf),
    Io { context: String, source: String },
    Spawn { context: String, source: String },
    CommandFailed { context: String, code: Option<i32>, stderr: String },
}

/// What a launcher error holds.
pub enum Trouble {
    InvalidGameDirectory(Seq<u8>),
    MissingGameExecutable(Seq<u8>),
    MissingBinary(Seq<char>),
    MissingVulkanArchive(Seq<u8>),
    MissingSetupScript(Seq<u8>),
    Io { context: Seq<char>, source: Seq<char> },
    Spawn { context: Seq<char>, source: Seq<char> },
    CommandFailed { context: Seq<char>, code: Option<i32>, stderr: Seq<char> },
}

impl View for LauncherError {
    type V = Trouble;

    open spec fn view(&self) -> Trouble {
        match *self {
            LauncherError::InvalidGameDirectory(path) => Trouble::InvalidGameDirectory(
                path.bytes(),
            ),
            LauncherError::MissingGameExecutable(path) => Trouble::MissingGameExecutable(
                path.bytes(),
            ),
            LauncherError::MissingBinary(name) => Trouble::MissingBinary(name@),
            LauncherError::MissingVulkanArchive(path) => Trouble::MissingVulkanArchive(
                path.bytes(),
            ),
            LauncherError::MissingSetupScript(path) => Trouble::MissingSetupScript(path.bytes()),
            LauncherError::Io { context, source } => Trouble::Io {
                context: context@,
                source: source@,
            },
            LauncherError::Spawn { context, source } => Trouble::Spawn {
                context: context@,
                source: source@,
            },
            LauncherError::CommandFailed { context, code, stderr } => Trouble::CommandFailed {
                context: context@,
                code,
                stderr: stderr@,
            },
        }
    }
}

/// An exit code as it stands in a message.
pub open spec fn shown_code(code: Option<i32>) -> Seq<char> {
    match code {
        Some(n) => "Some("@ + signed_decimal(n as int) + ")"@,
        None => "None"@,
    }
}

fn show_code(code: Option<i32>) -> (r: String)
    ensures
        r@ == shown_code(code),
{
    match code {
        Some(n) => {
            let mut out = "Some(".to_owned();
            out.append(text::show_signed(n).as_str());
            out.append(")");
            out
        },
        None => "None".to_owned(),
    }
}

impl Trouble {
    /// The message of an error.
    pub open spec fn message(self) -> Seq<char> {
        match self {
            Trouble::InvalidGameDirectory(path) => "Game directory does not exist: "@
                + shown_path(path),
            Trouble::MissingGameExecutable(path) => "PlayGTAV.exe not found in: "@ + shown_path(
                path,
            ),
            Trouble::MissingBinary(name) => "Required launcher binary is missing: "@ + name,
            Trouble::MissingVulkanArchive(path) => "Cached Vulkan runtime archive not found: "@
                + shown_path(path),
            Trouble::MissingSetupScript(path) => "Vulkan setup script not found: "@ + shown_path(
                path,
            ),
            Trouble::Io { context, source } => context + ": "@ + source,
            Trouble::Spawn { context, source } => "Failed to launch game process ("@ + context
                + "): "@ + source,
            Trouble::CommandFailed { context, code, stderr } => if stderr.len() == 0 {
                "Command failed ("@ + context + "), exit code "@ + shown_code(code)
            } else {
                "Command failed ("@ + context + "), exit code "@ + shown_code(code) + ": "@
                    + stderr
            },
        }
    }

    /// The message of the operating system that stands behind an error.
    pub open spec fn cause(self) -> Option<Seq<char>> {
        match self {
            Trouble::Io { source, .. } => Some(source),
            Trouble::Spawn { source, .. } => Some(source),
            _ => None,
        }
    }
}

fn with_path(prefix: &str, path: &PathBuf) -> (r: String)
    ensures
        r@ == prefix@ + shown_path(path.bytes()),
{
    let mut out = prefix.to_owned();
    out.append(paths::shown(path.as_path()).as_str());
    out
}

impl LauncherError {
    /// The message of the error.
    pub fn describe(&self) -> (r: String)
        ensures
            r@ == self@.message(),
    {
        match self {
            LauncherError::InvalidGameDirectory(path) => with_path(
                "Game directory does not exist: ",
                path,
            ),
            LauncherError::MissingGameExecutable(path) => with_path(
                "PlayGTAV.exe not found in: ",
                path,
            ),
            LauncherError::MissingBinary(name) => {
                let mut out = "Required launcher binary is missing: ".to_owned();
                out.append(*name);
                out
            },
            LauncherError::MissingVulkanArchive(path) => with_path(
                "Cached Vulkan runtime archive not found: ",
                path,
            ),
            LauncherError::MissingSetupScript(path) => with_path(
                "Vulkan setup script not found: ",
                path,
            ),
            LauncherError::Io { context, source } => {
                let mut out = context.clone();
                out.append(": ");
                out.append(source.as_str());
                out
            },
            LauncherError::Spawn { context, source } => {
                let mut out = "Failed to launch game process (".to_owned();
                out.append(context.as_str());
                out.append("): ");
                out.append(source.as_str());
                out
            },
            LauncherError::CommandFailed { context, code, stderr } => {
                let mut out = "Command failed (".to_owned();
                out.append(context.as_str());
                out.append("), exit code ");
                out.append(show_code(*code).as_str());
                if !text::same_text(stderr.as_str(), "") {
                    proof {
                        reveal_strlit("");
                        if stderr@.len() == 0 {
                            assert(stderr@ =~= ""@);
                        }
                    }
                    out.append(": ");
                    out.append(stderr.as_str());
                } else {
                    proof {
                        reveal_strlit("");
                    }
                }
                out
            },
        }
    }

    /// The message of the operating system that stands behind the error.
    pub fn source(&self) -> (r: Option<String>)
        ensures
            text::opt_text(r) == self@.cause(),
    {
        match self {
            LauncherError::Io { source, .. } => Some(source.clone()),
            LauncherError::Spawn { source, .. } => Some(source.clone()),
            LauncherError::InvalidGameDirectory(_) => None,
            LauncherError::MissingGameExecutable(_) => None,
            LauncherError::MissingBinary(_) => None,
            LauncherError::MissingVulkanArchive(_) => None,
            LauncherError::MissingSetupScript(_) => None,
            LauncherError::CommandFailed { .. } => None,
        }
    }
}

/// The folder of the launcher's files.
pub open spec fn launcher_root_of(workspace: Seq<u8>) -> Seq<u8> {
    join_bytes(workspace, "launcher"@)
}

/// The Wine prefix.
pub open spec fn prefix_of(workspace: Seq<u8>) -> Seq<u8> {
    join_bytes(launcher_root_of(workspace), "prefix"@)
}

/// The cached archive of the Vulkan runtime.
pub open spec fn archive_of(workspace: Seq<u8>) -> Seq<u8> {
    join_bytes(join_bytes(launcher_root_of(workspace), "cache"@), "vulkan.tar.xz"@)
}

/// The file that marks a complete cache.
pub open spec fn cache_marker_of(workspace: Seq<u8>) -> Seq<u8> {
    join_bytes(join_bytes(launcher_root_of(workspace), "cache"@), "vulkan-runtime.v1"@)
}

/// The file that marks a prefix with the Vulkan runtime.
pub open spec fn vulkan_marker_of(prefix: Seq<u8>) -> Seq<u8> {
    join_bytes(prefix, "vulkan-prefix.v1"@)
}

/// The file that marks a prefix with the runtime dependencies.
pub open spec fn runtime_marker_of(prefix: Seq<u8>) -> Seq<u8> {
    join_bytes(prefix, "runtime-deps.v1"@)
}

pub fn launcher_root(workspace_dir: &Path) -> (r: PathBuf)
    ensures
        r.bytes() == launcher_root_of(workspace_dir.bytes()),
{
    paths::join(workspace_dir, "launcher")
}

pub fn runtime_dependencies_marker(prefix: &Path) -> (r: PathBuf)
    ensures
        r.bytes() == runtime_marker_of(prefix.bytes()),
{
    paths::join(prefix, "runtime-deps.v1")
}

pub fn vulkan_prefix_marker(prefix: &Path) -> (r: PathBuf)
    ensures
        r.bytes() == vulkan_marker_of(prefix.bytes()),
{
    paths::join(prefix, "vulkan-prefix.v1")
}

pub fn cached_vulkan_archive_path(workspace_dir: &Path) -> (r: PathBuf)
    ensures
        r.bytes() == archive_of(workspace_dir.bytes()),
{
    let cache = paths::join(launcher_root(workspace_dir).as_path(), "cache");
    paths::join(cache.as_path(), "vulkan.tar.xz")
}

pub fn vulkan_runtime_cache_marker(workspace_dir: &Path) -> (r: PathBuf)
    ensures
        r.bytes() == cache_marker_of(workspace_dir.bytes()),
{
    let cache = paths::join(launcher_root(workspace_dir).as_path(), "cache");
    paths::join(cache.as_path(), "vulkan-runtime.v1")
}

pub fn wine_prefix(workspace_dir: &Path) -> (r: PathBuf)
    ensures
        r.bytes() == prefix_of(workspace_dir.bytes()),
{
    paths::join(launcher_root(workspace_dir).as_path(), "prefix")
}

/// Whether the cache is complete, given the files that exist.
pub open spec fn runtime_cached(workspace: Seq<u8>, files: Set<Seq<Seq<u8>>>) -> bool {
    files.contains(path_class(archive_of(workspace))) && files.contains(
        path_class(cache_marker_of(workspace)),
    )
}

pub fn vulkan_runtime_ready(workspace_dir: &Path, files: &PathSet) -> (r: bool)
    ensures
        r == runtime_cached(workspace_dir.bytes(), files@),
{
    files.contains(cached_vulkan_archive_path(workspace_dir).as_path()) && files.contains(
        vulkan_runtime_cache_marker(workspace_dir).as_path(),
    )
}

/// The executable that starts the game.
pub open spec fn executable_of(game: Seq<u8>) -> Seq<u8> {
    join_bytes(game, "PlayGTAV.exe"@)
}

pub fn game_executable(game_dir: &Path) -> (r: PathBuf)
    ensures
        r.bytes() == executable_of(game_dir.bytes()),
{
    paths::join(game_dir, "PlayGTAV.exe")
}

/// What is wrong with a game directory, given the directories and the files that exist.
pub open spec fn game_directory_trouble(
    game: Seq<u8>,
    directories: Set<Seq<Seq<u8>>>,
    files: Set<Seq<Seq<u8>>>,
) -> Option<Trouble> {
    if !directories.contains(path_class(game)) {
        Some(Trouble::InvalidGameDirectory(game))
    } else if !files.contains(path_class(executable_of(game))) {
        Some(Trouble::MissingGameExecutable(game))
    } else {
        None
    }
}

/// The view of what an operation came to.
pub open spec fn trouble_of<T>(r: Result<T, LauncherError>) -> Option<Trouble> {
    match r {
        Ok(_) => None,
        Err(error) => Some(error@),
    }
}

pub fn validate_game_directory(game_dir: &Path, directories: &PathSet, files: &PathSet) -> (r:
    Result<(), LauncherError>)
    ensures
        trouble_of(r) == game_directory_trouble(game_dir.bytes(), directories@, files@),
{
    if !directories.contains(game_dir) {
        return Err(LauncherError::InvalidGameDirectory(game_dir.to_path_buf()));
    }
    if !files.contains(game_executable(game_dir).as_path()) {
        return Err(LauncherError::MissingGameExecutable(game_dir.to_path_buf()));
    }
    Ok(())
}

/// The DLL overrides of a prefix.
pub open spec fn overrides_of(status: VulkanStatus) -> Seq<char> {
    if status is NotConfigured {
        BASE_DLL_OVERRIDES@
    } else {
        VULKAN_DLL_OVERRIDES@
    }
}

pub fn dll_overrides(vulkan_status: VulkanStatus) -> (r: &'static str)
    ensures
        r@ == overrides_of(vulkan_status),
{
    if vulkan_status.is_configured() {
        VULKAN_DLL_OVERRIDES
    } else {
        BASE_DLL_OVERRIDES
    }
}

/// The texts of a list of pairs.
pub open spec fn pairs(list: Seq<(String, String)>) -> Seq<(Seq<char>, Seq<char>)> {
    Seq::new(list.len(), |i: int| (list[i].0@, list[i].1@))
}

/// The environment in which Wine runs.
pub open spec fn environment_of(
    prefix: Seq<u8>,
    status: VulkanStatus,
    variables: LauncherVariables,
) -> Seq<(Seq<char>, Seq<char>)> {
    seq![
        ("WINEPREFIX"@, lossy_path(prefix)),
        ("WINEARCH"@, text_or(variables.winearch, "win64"@)),
        ("WINE_LARGE_ADDRESS_AWARE"@, text_or(variables.large_address_aware, "1"@)),
        ("WINEDEBUG"@, text_or(variables.winedebug, "fixme-all"@)),
        ("DXVK_ENABLE_NVAPI"@, text_or(variables.dxvk_enable_nvapi, "1"@)),
        ("LC_NUMERIC"@, text_or(variables.lc_numeric, "C"@)),
        (
            "WINEDLLOVERRIDES"@,
            text_or(
                variables.dll_overrides,
                if status is NotConfigured {
                    BASE_DLL_OVERRIDES@
                } else {
                    VULKAN_DLL_OVERRIDES@
                },
            ),
        ),
    ]
}

pub fn wine_environment(
    prefix: &Path,
    vulkan_status: VulkanStatus,
    variables: &LauncherVariables,
) -> (r: Vec<(String, String)>)
    ensures
        pairs(r@) == environment_of(prefix.bytes(), vulkan_status, *variables),
{
    let mut out: Vec<(String, String)> = Vec::new();
    out.push(("WINEPREFIX".to_owned(), paths::lossy(prefix)));
    out.push(("WINEARCH".to_owned(), value_or(&variables.winearch, "win64")));
    out.push(
        ("WINE_LARGE_ADDRESS_AWARE".to_owned(), value_or(&variables.large_address_aware, "1")),
    );
    out.push(("WINEDEBUG".to_owned(), value_or(&variables.winedebug, "fixme-all")));
    out.push(("DXVK_ENABLE_NVAPI".to_owned(), value_or(&variables.dxvk_enable_nvapi, "1")));
    out.push(("LC_NUMERIC".to_owned(), value_or(&variables.lc_numeric, "C")));
    out.push(
        (
            "WINEDLLOVERRIDES".to_owned(),
            value_or(&variables.dll_overrides, dll_overrides(vulkan_status)),
        ),
    );
    assert(pairs(out@) =~= environment_of(prefix.bytes(), vulkan_status, *variables));
    out
}

/// The name of a directory for temporary work.
pub open spec fn work_dir_name(label: Seq<char>, process: u64, millis: u64) -> Seq<char> {
    label + "-"@ + decimal(process as nat) + "-"@ + decimal(millis as nat)
}

pub fn temp_work_dir(temp_dir: &Path, label: &str, process: u64, millis: u64) -> (r: PathBuf)
    ensures
        r.bytes() == join_bytes(temp_dir.bytes(), work_dir_name(label@, process, millis)),
{
    let mut name = label.to_owned();
    name.append("-");
    name.append(text::show(process).as_str());
    name.append("-");
    name.append(text::show(millis).as_str());
    paths::join(temp_dir, name.as_str())
}

/// A command to run.
pub struct CommandLine {
    pub binary: String,
    pub args: Vec<String>,
    pub envs: Vec<(String, String)>,
}

/// What a command consists of.
pub struct CommandParts {
    pub binary: Seq<char>,
    pub args: Seq<Seq<char>>,
    pub envs: Seq<(Seq<char>, Seq<char>)>,
}

impl View for CommandLine {
    type V = CommandParts;

    open spec fn view(&self) -> CommandParts {
        CommandParts { binary: self.binary@, args: texts(self.args@), envs: pairs(self.envs@) }
    }
}

/// An action that an operation asks for.
pub enum LauncherAction {
    HasBinary(String),
    IsFile(PathBuf),
    IsDirectory(PathBuf),
    CreateDirectory(PathBuf),
    CopyFile { from: PathBuf, to: PathBuf },
    WriteFile { path: PathBuf, text: &'static str },
    RemoveDirectory(PathBuf),
    Run(CommandLine),
    Spawn { command: CommandLine, directory: PathBuf },
}

/// What an action consists of.
pub enum Deed {
    HasBinary(Seq<char>),
    IsFile(Seq<u8>),
    IsDirectory(Seq<u8>),
    CreateDirectory(Seq<u8>),
    CopyFile { from: Seq<u8>, to: Seq<u8> },
    WriteFile { path: Seq<u8>, text: Seq<char> },
    RemoveDirectory(Seq<u8>),
    Run(CommandParts),
    Spawn { command: CommandParts, directory: Seq<u8> },
}

impl View for LauncherAction {
    type V = Deed;

    open spec fn view(&self) -> Deed {
        match *self {
            LauncherAction::HasBinary(binary) => Deed::HasBinary(binary@),
            LauncherAction::IsFile(path) => Deed::IsFile(path.bytes()),
            LauncherAction::IsDirectory(path) => Deed::IsDirectory(path.bytes()),
            LauncherAction::CreateDirectory(path) => Deed::CreateDirectory(path.bytes()),
            LauncherAction::CopyFile { from, to } => Deed::CopyFile {
                from: from.bytes(),
                to: to.bytes(),
            },
            LauncherAction::WriteFile { path, text } => Deed::WriteFile {
                path: path.bytes(),
                text: text@,
            },
            LauncherAction::RemoveDirectory(path) => Deed::RemoveDirectory(path.bytes()),
            LauncherAction::Run(command) => Deed::Run(command@),
            LauncherAction::Spawn { command, directory } => Deed::Spawn {
                command: command@,
                directory: directory.bytes(),
            },
        }
    }
}

/// The view of an optional action.
pub open spec fn deed_of(action: Option<LauncherAction>) -> Option<Deed> {
    match action {
        Some(a) => Some(a@),
        None => None,
    }
}

/// How an action went: a question is answered by `Yes` or `No`; other work is done, or failed
/// with the message of the operating system, or ended as a command that exited.
pub enum LauncherReply {
    Yes,
    No,
    Done,
    Failed(String),
    Exited { success: bool, code: Option<i32>, stderr: String },
}

impl LauncherReply {
    /// Whether a question was answered with yes.
    pub open spec fn agrees(self) -> bool {
        self is Yes
    }

    /// Whether work did not succeed.
    pub open spec fn went_wrong(self) -> bool {
        match self {
            LauncherReply::Failed(_) => true,
            LauncherReply::Exited { success, .. } => !success,
            _ => false,
        }
    }

    /// What went wrong with work on files.
    pub open spec fn io_trouble(self, context: Seq<char>) -> Trouble {
        match self {
            LauncherReply::Failed(source) => Trouble::Io { context, source: source@ },
            LauncherReply::Exited { code, stderr, .. } => Trouble::CommandFailed {
                context,
                code,
                stderr: trimmed(stderr@),
            },
            _ => Trouble::Io { context, source: Seq::empty() },
        }
    }

    /// What went wrong with a command.
    pub open spec fn command_trouble(self, context: Seq<char>) -> Trouble {
        match self {
            LauncherReply::Failed(source) => Trouble::Spawn { context, source: source@ },
            _ => self.io_trouble(context),
        }
    }

    pub fn is_yes(&self) -> (r: bool)
        ensures
            r == self.agrees(),
    {
        match self {
            LauncherReply::Yes => true,
            _ => false,
        }
    }

    pub fn is_failure(&self) -> (r: bool)
        ensures
            r == self.went_wrong(),
    {
        match self {
            LauncherReply::Failed(_) => true,
            LauncherReply::Exited { success, .. } => !*success,
            _ => false,
        }
    }

    pub fn io_error(&self, context: String) -> (r: LauncherError)
        ensures
            r@ == self.io_trouble(context@),
    {
        match self {
            LauncherReply::Failed(source) => LauncherError::Io {
                context,
                source: source.clone(),
            },
            LauncherReply::Exited { code, stderr, .. } => LauncherError::CommandFailed {
                context,
                code: *code,
                stderr: text::trim(stderr.as_str()),
            },
            _ => LauncherError::Io { context, source: String::new() },
        }
    }

    pub fn command_error(&self, context: String) -> (r: LauncherError)
        ensures
            r@ == self.command_trouble(context@),
    {
        match self {
            LauncherReply::Failed(source) => LauncherError::Spawn {
                context,
                source: source.clone(),
            },
            _ => self.io_error(context),
        }
    }
}

/// How far an operation has come: it stands at a step, or it succeeded, or a step failed with
/// the given reply.
pub enum Progress<S, T> {
    At(S),
    Succeeded(T),
    Failed(S, LauncherReply),
}

/// After a piece of work: the next step, or failure.
pub open spec fn then_at<S, T>(here: S, next: Progress<S, T>, reply: LauncherReply) -> Progress<S, T> {
    if reply.went_wrong() {
        Progress::Failed(here, reply)
    } else {
        next
    }
}

/// After a question that has to be answered with yes: the next step, or failure.
pub open spec fn if_yes<S, T>(here: S, next: Progress<S, T>, reply: LauncherReply) -> Progress<S, T> {
    if reply.agrees() {
        next
    } else {
        Progress::Failed(here, reply)
    }
}

pub fn after_work<S, T>(here: S, next: Progress<S, T>, reply: LauncherReply) -> (r: Progress<S, T>)
    ensures
        r == then_at(here, next, reply),
{
    if reply.is_failure() {
        Progress::Failed(here, reply)
    } else {
        next
    }
}

pub fn after_question<S, T>(here: S, next: Progress<S, T>, reply: LauncherReply) -> (r: Progress<S, T>)
    ensures
        r == if_yes(here, next, reply),
{
    if reply.is_yes() {
        next
    } else {
        Progress::Failed(here, reply)
    }
}

/// What a variable is set to in an environment: the last value that is given to it.
pub open spec fn set_to(envs: Seq<(Seq<char>, Seq<char>)>, name: Seq<char>) -> Option<Seq<char>>
    decreases envs.len(),
{
    if envs.len() == 0 {
        None
    } else if envs.last().0 == name {
        Some(envs.last().1)
    } else {
        set_to(envs.drop_last(), name)
    }
}

/// The overrides that put the parts of the Vulkan runtime in the place of those of Wine.
pub open spec fn vulkan_parts() -> Seq<char> {
    ";nvapi,nvapi64=n;d3d9,d3d10core,d3d11,dxgi=n;d3d12,d3d12core=n"@
}

/// A prefix with the Vulkan runtime has the overrides of one without it, and those of the runtime
/// besides; whether it was configured just now makes no difference.
pub proof fn the_vulkan_runtime_is_put_in_place(status: VulkanStatus)
    ensures
        !(status is NotConfigured) ==> overrides_of(status) == overrides_of(
            VulkanStatus::NotConfigured,
        ) + vulkan_parts(),
        !(status is NotConfigured) ==> overrides_of(status) != overrides_of(
            VulkanStatus::NotConfigured,
        ),
{
    lemma_overrides();
}

proof fn lemma_overrides()
    ensures
        VULKAN_DLL_OVERRIDES@ == BASE_DLL_OVERRIDES@ + vulkan_parts(),
        vulkan_parts().len() > 0,
{
    reveal_strlit(
        "winemenubuilder.exe=d;mshtml=d;dinput8=n,b;mscoree=n,b;d3dx11_43=n,b;scripthookv=n,b;scripthookvdotnet2=n,b;scripthookvdotnet3=n,b",
    );
    reveal_strlit(
        "winemenubuilder.exe=d;mshtml=d;dinput8=n,b;mscoree=n,b;d3dx11_43=n,b;scripthookv=n,b;scripthookvdotnet2=n,b;scripthookvdotnet3=n,b;nvapi,nvapi64=n;d3d9,d3d10core,d3d11,dxgi=n;d3d12,d3d12core=n",
    );
    reveal_strlit(";nvapi,nvapi64=n;d3d9,d3d10core,d3d11,dxgi=n;d3d12,d3d12core=n");
    assert(VULKAN_DLL_OVERRIDES@ =~= BASE_DLL_OVERRIDES@ + vulkan_parts());
}

/// Wine runs in the given prefix, as a 64-bit Windows, with the overrides of the prefix. What the user
/// has set stays as it is.
pub proof fn wine_runs_in_its_prefix(
    prefix: Seq<u8>,
    status: VulkanStatus,
    variables: LauncherVariables,
)
    ensures
        ({
            let envs = environment_of(prefix, status, variables);
            &&& set_to(envs, "WINEPREFIX"@) == Some(lossy_path(prefix))
            &&& variables.dll_overrides is None ==> set_to(envs, "WINEDLLOVERRIDES"@) == Some(
                overrides_of(status),
            )
            &&& variables.dll_overrides is None && !(status is NotConfigured) ==> set_to(
                envs,
                "WINEDLLOVERRIDES"@,
            ) == Some(overrides_of(VulkanStatus::NotConfigured) + vulkan_parts())
            &&& variables.dll_overrides matches Some(own) ==> set_to(envs, "WINEDLLOVERRIDES"@)
                == Some(own@)
            &&& variables.winearch is None ==> set_to(envs, "WINEARCH"@) == Some("win64"@)
            &&& variables.winearch matches Some(own) ==> set_to(envs, "WINEARCH"@) == Some(own@)
            &&& variables.large_address_aware is None ==> set_to(envs, "WINE_LARGE_ADDRESS_AWARE"@)
                == Some("1"@)
            &&& variables.large_address_aware matches Some(own) ==> set_to(
                envs,
                "WINE_LARGE_ADDRESS_AWARE"@,
            ) == Some(own@)
            &&& variables.winedebug is None ==> set_to(envs, "WINEDEBUG"@) == Some("fixme-all"@)
            &&& variables.winedebug matches Some(own) ==> set_to(envs, "WINEDEBUG"@) == Some(own@)
            &&& variables.dxvk_enable_nvapi is None ==> set_to(envs, "DXVK_ENABLE_NVAPI"@) == Some(
                "1"@,
            )
            &&& variables.dxvk_enable_nvapi matches Some(own) ==> set_to(envs, "DXVK_ENABLE_NVAPI"@)
                == Some(own@)
            &&& variables.lc_numeric is None ==> set_to(envs, "LC_NUMERIC"@) == Some("C"@)
            &&& variables.lc_numeric matches Some(own) ==> set_to(envs, "LC_NUMERIC"@) == Some(own@)
        }),
{
    lemma_variable_names();
    lemma_overrides();
    let envs = environment_of(prefix, status, variables);
    lemma_set_to(envs, 0);
    lemma_set_to(envs, 1);
    lemma_set_to(envs, 2);
    lemma_set_to(envs, 3);
    lemma_set_to(envs, 4);
    lemma_set_to(envs, 5);
    lemma_set_to(envs, 6);
}

proof fn lemma_set_to(envs: Seq<(Seq<char>, Seq<char>)>, i: int)
    requires
        0 <= i < envs.len(),
        forall|j: int| i < j < envs.len() ==> (#[trigger] envs[j]).0 != envs[i].0,
    ensures
        set_to(envs, envs[i].0) == Some(envs[i].1),
    decreases envs.len(),
{
    if i < envs.len() - 1 {
        let front = envs.drop_last();
        assert(envs.last() == envs[envs.len() - 1]);
        assert(front[i] == envs[i]);
        lemma_set_to(front, i);
    }
}

proof fn lemma_variable_names()
    ensures
        "WINEPREFIX"@.len() == 10 && "WINEARCH"@.len() == 8,
        "WINE_LARGE_ADDRESS_AWARE"@.len() == 24 && "WINEDEBUG"@.len() == 9,
        "DXVK_ENABLE_NVAPI"@.len() == 17 && "LC_NUMERIC"@.len() == 10,
        "WINEDLLOVERRIDES"@.len() == 16,
        "LC_NUMERIC"@ != "WINEPREFIX"@,
{
    reveal_strlit("WINEPREFIX");
    reveal_strlit("WINEARCH");
    reveal_strlit("WINE_LARGE_ADDRESS_AWARE");
    reveal_strlit("WINEDEBUG");
    reveal_strlit("DXVK_ENABLE_NVAPI");
    reveal_strlit("LC_NUMERIC");
    reveal_strlit("WINEDLLOVERRIDES");
    assert("LC_NUMERIC"@[0] == 'L' && "WINEPREFIX"@[0] == 'W');
}

/// A tool is called by the command that its own variable names, and else by its own name; the names
/// of two tools differ.
pub proof fn a_variable_replaces_its_own_tool(
    variables: LauncherVariables,
    a: Tool,
    b: Tool,
)
    ensures
        a != b ==> a.label() != b.label(),
        variables.syswine matches Some(own) ==> variables.command(Tool::Wine) == own@,
        variables.wineboot matches Some(own) ==> variables.command(Tool::Wineboot) == own@,
        variables.wineserver matches Some(own) ==> variables.command(Tool::Wineserver) == own@,
        variables.winetricks matches Some(own) ==> variables.command(Tool::Winetricks) == own@,
        variables.tar matches Some(own) ==> variables.command(Tool::Tar) == own@,
        variables.bash matches Some(own) ==> variables.command(Tool::Bash) == own@,
        variables.syswine is None ==> variables.command(Tool::Wine) == Tool::Wine.label(),
        variables.wineboot is None ==> variables.command(Tool::Wineboot) == Tool::Wineboot.label(),
        variables.wineserver is None ==> variables.command(Tool::Wineserver)
            == Tool::Wineserver.label(),
        variables.winetricks is None ==> variables.command(Tool::Winetricks)
            == Tool::Winetricks.label(),
        variables.tar is None ==> variables.command(Tool::Tar) == Tool::Tar.label(),
        variables.bash is None ==> variables.command(Tool::Bash) == Tool::Bash.label(),
{
    reveal_strlit("wine");
    reveal_strlit("wineboot");
    reveal_strlit("wineserver");
    reveal_strlit("winetricks");
    reveal_strlit("tar");
    reveal_strlit("bash");
    assert("wine"@.len() == 4 && "wineboot"@.len() == 8 && "tar"@.len() == 3);
    assert("wineserver"@.len() == 10 && "winetricks"@.len() == 10 && "bash"@.len() == 4);
    assert("wineserver"@[4] == 's' && "winetricks"@[4] == 't');
    assert("wine"@[0] == 'w' && "bash"@[0] == 'b');
}

/// A game directory is accepted exactly when it is there and holds the executable. A missing directory
/// is told before a missing executable, and each trouble names the directory.
pub proof fn a_playable_directory_is_accepted(
    game: Seq<u8>,
    directories: Set<Seq<Seq<u8>>>,
    files: Set<Seq<Seq<u8>>>,
)
    ensures
        game_directory_trouble(game, directories, files) is None <==> directories.contains(
            path_class(game),
        ) && files.contains(path_class(join_bytes(game, "PlayGTAV.exe"@))),
        !directories.contains(path_class(game)) <==> game_directory_trouble(game, directories, files)
            == Some(Trouble::InvalidGameDirectory(game)),
        game_directory_trouble(game, directories, files) matches Some(trouble) ==> trouble
            == Trouble::InvalidGameDirectory(game) || trouble == Trouble::MissingGameExecutable(
            game,
        ),
{
}

/// The cache is complete only with both its archive and its marker; once both are there, further
/// files change nothing.
pub proof fn a_cache_needs_archive_and_marker(
    workspace: Seq<u8>,
    files: Set<Seq<Seq<u8>>>,
    more: Set<Seq<Seq<u8>>>,
)
    ensures
        runtime_cached(workspace, files) ==> files.contains(path_class(archive_of(workspace))),
        runtime_cached(workspace, files) ==> files.contains(path_class(cache_marker_of(workspace))),
        runtime_cached(workspace, files) ==> runtime_cached(workspace, files.union(more)),
        runtime_cached(
            workspace,
            Set::empty().insert(path_class(archive_of(workspace))).insert(
                path_class(cache_marker_of(workspace)),
            ),
        ),
{
}

/// Work goes on exactly when it did not fail, and a question that must be answered with yes leads on
/// exactly by that answer. What stopped it is kept with the reply.
pub proof fn a_failure_stops_an_operation<S, T>(here: S, next: Progress<S, T>, reply: LauncherReply)
    requires
        !(next is Failed),
    ensures
        then_at(here, next, reply) == next <==> !reply.went_wrong(),
        then_at(here, next, reply) is Failed <==> reply is Failed || (reply matches
            LauncherReply::Exited { success, .. } && !success),
        then_at(here, next, reply) is Failed ==> then_at(here, next, reply)
            == Progress::<S, T>::Failed(here, reply),
        if_yes(here, next, reply) == next <==> reply is Yes,
        !(reply is Yes) ==> if_yes(here, next, reply) == Progress::<S, T>::Failed(here, reply),
{
}

/// The message of an error ends in what stands behind it: the message of the operating system, what a
/// command printed, or what is missing.
pub proof fn a_message_ends_in_its_cause(trouble: Trouble)
    ensures
        trouble.cause() matches Some(source) ==> ends(trouble.message(), source),
        trouble.cause() is Some <==> trouble is Io || trouble is Spawn,
        trouble matches Trouble::CommandFailed { context, code, stderr } ==> ends(
            trouble.message(),
            stderr,
        ),
        trouble matches Trouble::InvalidGameDirectory(path) ==> ends(
            trouble.message(),
            shown_path(path),
        ),
        trouble matches Trouble::MissingGameExecutable(path) ==> ends(
            trouble.message(),
            shown_path(path),
        ),
        trouble matches Trouble::MissingBinary(name) ==> ends(trouble.message(), name),
        trouble matches Trouble::MissingVulkanArchive(path) ==> ends(
            trouble.message(),
            shown_path(path),
        ),
        trouble matches Trouble::MissingSetupScript(path) ==> ends(
            trouble.message(),
            shown_path(path),
        ),
{
    let message = trouble.message();
    match trouble {
        Trouble::InvalidGameDirectory(path) => lemma_ends(message, shown_path(path)),
        Trouble::MissingGameExecutable(path) => lemma_ends(message, shown_path(path)),
        Trouble::MissingBinary(name) => lemma_ends(message, name),
        Trouble::MissingVulkanArchive(path) => lemma_ends(message, shown_path(path)),
        Trouble::MissingSetupScript(path) => lemma_ends(message, shown_path(path)),
        Trouble::Io { source, .. } => lemma_ends(message, source),
        Trouble::Spawn { source, .. } => lemma_ends(message, source),
        Trouble::CommandFailed { stderr, .. } => lemma_ends(message, stderr),
    }
}

proof fn lemma_ends(message: Seq<char>, tail: Seq<char>)
    requires
        tail.len() <= message.len(),
        message.skip(message.len() - tail.len()) =~= tail,
    ensures
        ends(message, tail),
{
    assert(message.subrange(message.len() - tail.len(), message.len() as int) =~= message.skip(
        message.len() - tail.len(),
    ));
}

/// The folder that an operation works in carries its label, and differs from every other that the same
/// process has at another time.
pub proof fn work_folders_differ_by_their_time(label: Seq<char>, process: u64, a: u64, b: u64)
    ensures
        work_dir_name(label, process, a) == work_dir_name(label, process, b) ==> a == b,
        begins(work_dir_name(label, process, a), label),
{
    decimals_are_distinct(a as nat, b as nat);
    let front = label + "-"@ + decimal(process as nat) + "-"@;
    let first = work_dir_name(label, process, a);
    let second = work_dir_name(label, process, b);
    assert(first.skip(front.len() as int) =~= decimal(a as nat));
    assert(second.skip(front.len() as int) =~= decimal(b as nat));
    assert(first.subrange(0, label.len() as int) =~= label);
}

}
