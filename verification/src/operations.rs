//! The launcher's operations, step by step.

use crate::launcher::{
    archive_of, cache_marker_of, cached_vulkan_archive_path, deed_of, environment_of,
    executable_of, game_executable, launcher_root, launcher_root_of, overrides_of, pairs, prefix_of,
    set_to, wine_runs_in_its_prefix,
    runtime_dependencies_marker, runtime_marker_of, then_at, if_yes, vulkan_marker_of,
    vulkan_prefix_marker, vulkan_runtime_cache_marker, wine_environment, wine_prefix, CommandLine,
    CommandParts, Deed, DependencyStatus, LauncherAction, LauncherError, LauncherReply,
    LauncherVariables, PrepareResult, Progress, Tool, Trouble, VulkanCacheStatus, VulkanStatus,
    after_question, after_work, DEFAULT_VULKAN_ARCHIVE_SOURCE,
};
use crate::paths::{self, join_bytes, lossy_path, parent_bytes, shown_path, PathBytes};
use crate::text::{occurs, occurs_at, texts};
use std::path::{Path, PathBuf};
use vstd::prelude::*;

verus! {

/// What an operation came to: nothing yet, its value, or its trouble.
pub open spec fn came_to<T>(
    r: Option<Result<T, LauncherError>>,
    value: Option<T>,
    trouble: Option<Trouble>,
) -> bool {
    match (value, trouble) {
        (Some(v), _) => r == Some(Ok::<T, LauncherError>(v)),
        (None, Some(t)) => r matches Some(Err(error)) && error@ == t,
        (None, None) => r is None,
    }
}

/// The steps of caching the Vulkan runtime.
#[derive(Clone, Copy, PartialEq, Eq, Structural)]
pub enum CacheStep {
    Archive,
    Marker,
    GivenSource,
    DefaultSource,
    CreateDirectory { given: bool },
    Copy { given: bool },
    WriteMarker,
}

/// The caching of the Vulkan runtime; `given` is the archive that the user named.
pub struct VulkanCaching {
    pub workspace_dir: PathBuf,
    pub given: Option<PathBuf>,
    pub progress: Progress<CacheStep, VulkanCacheStatus>,
}

/// Where the search for an archive begins.
pub open spec fn source_step(given: bool) -> CacheStep {
    if given {
        CacheStep::GivenSource
    } else {
        CacheStep::DefaultSource
    }
}

/// What follows a step of the caching.
pub open spec fn cache_next(step: CacheStep, given: bool, reply: LauncherReply) -> Progress<
    CacheStep,
    VulkanCacheStatus,
> {
    match step {
        CacheStep::Archive => if reply.agrees() {
            Progress::At(CacheStep::Marker)
        } else {
            Progress::At(source_step(given))
        },
        CacheStep::Marker => if reply.agrees() {
            Progress::Succeeded(VulkanCacheStatus::AlreadyCached)
        } else {
            Progress::At(source_step(given))
        },
        CacheStep::GivenSource => if reply.agrees() {
            Progress::At(CacheStep::CreateDirectory { given: true })
        } else {
            Progress::At(CacheStep::DefaultSource)
        },
        CacheStep::DefaultSource => if_yes(
            step,
            Progress::At(CacheStep::CreateDirectory { given: false }),
            reply,
        ),
        CacheStep::CreateDirectory { given } => then_at(
            step,
            Progress::At(CacheStep::Copy { given }),
            reply,
        ),
        CacheStep::Copy { .. } => then_at(step, Progress::At(CacheStep::WriteMarker), reply),
        CacheStep::WriteMarker => then_at(
            step,
            Progress::Succeeded(VulkanCacheStatus::CachedNow),
            reply,
        ),
    }
}

/// The directory of the cache.
pub open spec fn cache_dir_of(workspace: Seq<u8>) -> Seq<u8> {
    match parent_bytes(archive_of(workspace)) {
        Some(parent) => parent,
        None => launcher_root_of(workspace),
    }
}

impl VulkanCaching {
    /// The archive that is copied into the cache.
    pub open spec fn source(self, given: bool) -> Seq<u8> {
        match self.given {
            Some(path) if given => path.bytes(),
            _ => vstd::utf8::encode_utf8(DEFAULT_VULKAN_ARCHIVE_SOURCE@),
        }
    }

    /// What is done at a step.
    pub open spec fn deed(self, step: CacheStep) -> Deed {
        let workspace = self.workspace_dir.bytes();
        match step {
            CacheStep::Archive => Deed::IsFile(archive_of(workspace)),
            CacheStep::Marker => Deed::IsFile(cache_marker_of(workspace)),
            CacheStep::GivenSource => Deed::IsFile(self.source(true)),
            CacheStep::DefaultSource => Deed::IsFile(self.source(false)),
            CacheStep::CreateDirectory { .. } => Deed::CreateDirectory(cache_dir_of(workspace)),
            CacheStep::Copy { given } => Deed::CopyFile {
                from: self.source(given),
                to: archive_of(workspace),
            },
            CacheStep::WriteMarker => Deed::WriteFile {
                path: cache_marker_of(workspace),
                text: "vulkan runtime cached"@,
            },
        }
    }

    /// The trouble with a step that failed.
    pub open spec fn trouble(self, step: CacheStep, reply: LauncherReply) -> Trouble {
        let workspace = self.workspace_dir.bytes();
        match step {
            CacheStep::CreateDirectory { .. } => reply.io_trouble(
                "Failed to create cache directory "@ + shown_path(cache_dir_of(workspace)),
            ),
            CacheStep::Copy { given } => reply.io_trouble(
                "Failed to copy Vulkan runtime archive from "@ + shown_path(self.source(given))
                    + " to "@ + shown_path(archive_of(workspace)),
            ),
            CacheStep::WriteMarker => reply.io_trouble(
                "Failed to write Vulkan cache marker "@ + shown_path(cache_marker_of(workspace)),
            ),
            _ => Trouble::MissingVulkanArchive(archive_of(workspace)),
        }
    }

    fn source_archive(&self, given: bool) -> (r: PathBuf)
        ensures
            r.bytes() == self.source(given),
    {
        match &self.given {
            Some(path) if given => path.clone(),
            _ => paths::path_from(DEFAULT_VULKAN_ARCHIVE_SOURCE),
        }
    }

    fn cache_dir(&self) -> (r: PathBuf)
        ensures
            r.bytes() == cache_dir_of(self.workspace_dir.bytes()),
    {
        let archive = cached_vulkan_archive_path(self.workspace_dir.as_path());
        match paths::parent(archive.as_path()) {
            Some(parent) => parent,
            None => launcher_root(self.workspace_dir.as_path()),
        }
    }

    /// What is to be done next; nothing when the operation has ended.
    pub fn action(&self) -> (r: Option<LauncherAction>)
        ensures
            deed_of(r) == match self.progress {
                Progress::At(step) => Some(self.deed(step)),
                _ => None,
            },
    {
        let workspace = self.workspace_dir.as_path();
        match &self.progress {
            Progress::At(step) => Some(
                match *step {
                    CacheStep::Archive => LauncherAction::IsFile(
                        cached_vulkan_archive_path(workspace),
                    ),
                    CacheStep::Marker => LauncherAction::IsFile(
                        vulkan_runtime_cache_marker(workspace),
                    ),
                    CacheStep::GivenSource => LauncherAction::IsFile(self.source_archive(true)),
                    CacheStep::DefaultSource => LauncherAction::IsFile(self.source_archive(false)),
                    CacheStep::CreateDirectory { .. } => LauncherAction::CreateDirectory(
                        self.cache_dir(),
                    ),
                    CacheStep::Copy { given } => LauncherAction::CopyFile {
                        from: self.source_archive(given),
                        to: cached_vulkan_archive_path(workspace),
                    },
                    CacheStep::WriteMarker => LauncherAction::WriteFile {
                        path: vulkan_runtime_cache_marker(workspace),
                        text: "vulkan runtime cached",
                    },
                },
            ),
            _ => None,
        }
    }

    /// Takes in how the last action went.
    pub fn advance(&mut self, reply: LauncherReply)
        ensures
            *final(self) == (VulkanCaching {
                progress: match old(self).progress {
                    Progress::At(step) => cache_next(step, old(self).given is Some, reply),
                    ended => ended,
                },
                ..*old(self)
            }),
    {
        let given = self.given.is_some();
        if let Progress::At(at) = &self.progress {
            let step = *at;
            let first = if given {
                CacheStep::GivenSource
            } else {
                CacheStep::DefaultSource
            };
            self.progress = match step {
                CacheStep::Archive => if reply.is_yes() {
                    Progress::At(CacheStep::Marker)
                } else {
                    Progress::At(first)
                },
                CacheStep::Marker => if reply.is_yes() {
                    Progress::Succeeded(VulkanCacheStatus::AlreadyCached)
                } else {
                    Progress::At(first)
                },
                CacheStep::GivenSource => if reply.is_yes() {
                    Progress::At(CacheStep::CreateDirectory { given: true })
                } else {
                    Progress::At(CacheStep::DefaultSource)
                },
                CacheStep::DefaultSource => after_question(
                    step,
                    Progress::At(CacheStep::CreateDirectory { given: false }),
                    reply,
                ),
                CacheStep::CreateDirectory { given } => after_work(
                    step,
                    Progress::At(CacheStep::Copy { given }),
                    reply,
                ),
                CacheStep::Copy { .. } => after_work(
                    step,
                    Progress::At(CacheStep::WriteMarker),
                    reply,
                ),
                CacheStep::WriteMarker => after_work(
                    step,
                    Progress::Succeeded(VulkanCacheStatus::CachedNow),
                    reply,
                ),
            };
        }
    }

    /// What the caching came to, once it has ended.
    pub fn result(&self) -> (r: Option<Result<VulkanCacheStatus, LauncherError>>)
        ensures
            match self.progress {
                Progress::At(_) => came_to(r, None, None),
                Progress::Succeeded(status) => came_to(r, Some(status), None),
                Progress::Failed(step, reply) => came_to(r, None, Some(self.trouble(step, reply))),
            },
    {
        let workspace = self.workspace_dir.as_path();
        match &self.progress {
            Progress::At(_) => None,
            Progress::Succeeded(status) => Some(Ok(*status)),
            Progress::Failed(step, reply) => Some(
                Err(
                    match *step {
                        CacheStep::CreateDirectory { .. } => {
                            let mut context = "Failed to create cache directory ".to_owned();
                            context.append(paths::shown(self.cache_dir().as_path()).as_str());
                            reply.io_error(context)
                        },
                        CacheStep::Copy { given } => {
                            let mut context = "Failed to copy Vulkan runtime archive from ".to_owned();
                            context.append(
                                paths::shown(self.source_archive(given).as_path()).as_str(),
                            );
                            context.append(" to ");
                            context.append(
                                paths::shown(
                                    cached_vulkan_archive_path(workspace).as_path(),
                                ).as_str(),
                            );
                            reply.io_error(context)
                        },
                        CacheStep::WriteMarker => {
                            let mut context = "Failed to write Vulkan cache marker ".to_owned();
                            context.append(
                                paths::shown(
                                    vulkan_runtime_cache_marker(workspace).as_path(),
                                ).as_str(),
                            );
                            reply.io_error(context)
                        },
                        _ => LauncherError::MissingVulkanArchive(
                            cached_vulkan_archive_path(workspace),
                        ),
                    },
                ),
            ),
        }
    }
}

/// Begins to cache the Vulkan runtime.
pub fn cache_vulkan_runtime(workspace_dir: &Path, given: Option<PathBuf>) -> (r: VulkanCaching)
    ensures
        r.workspace_dir.bytes() == workspace_dir.bytes(),
        r.given == given,
        r.progress == Progress::<CacheStep, VulkanCacheStatus>::At(CacheStep::Archive),
{
    VulkanCaching {
        workspace_dir: workspace_dir.to_path_buf(),
        given,
        progress: Progress::At(CacheStep::Archive),
    }
}

/// The steps of the preparation of the environment.
#[derive(Clone, Copy, PartialEq, Eq, Structural)]
pub enum PrepareStep {
    Wine,
    Wineboot,
    Wineserver,
    Marker,
    Prefix,
    CreatePrefix,
    Initialize,
    WaitForServer,
    VulkanMarker,
    Archive,
    Tar,
    Bash,
    CreateScratch,
    Extract,
    Script,
    RunScript,
    WriteMarker,
    RemoveScratch,
}

/// How far the preparation has come. `marker_found` tells whether the prefix had the Vulkan
/// runtime at the start; `failure` is the step that failed while the scratch directory stood.
pub struct PrepareState {
    pub marker_found: bool,
    pub failure: Option<(PrepareStep, LauncherReply)>,
    pub progress: Progress<PrepareStep, VulkanStatus>,
}

/// The preparation of the environment.
pub struct Preparation {
    pub workspace_dir: PathBuf,
    pub scratch: PathBuf,
    pub variables: LauncherVariables,
    pub state: PrepareState,
}

/// The state after a step that works in the scratch directory: a failure is kept until the
/// directory is gone.
pub open spec fn scratch_next(
    state: PrepareState,
    step: PrepareStep,
    ok: bool,
    next: PrepareStep,
    reply: LauncherReply,
) -> PrepareState {
    if ok {
        PrepareState { progress: Progress::At(next), ..state }
    } else {
        PrepareState {
            failure: Some((step, reply)),
            progress: Progress::At(PrepareStep::RemoveScratch),
            ..state
        }
    }
}

/// What follows a step of the preparation.
pub open spec fn prepare_next(
    state: PrepareState,
    step: PrepareStep,
    reply: LauncherReply,
) -> PrepareState {
    let goes = |progress: Progress<PrepareStep, VulkanStatus>| PrepareState { progress, ..state };
    match step {
        PrepareStep::Wine => goes(if_yes(step, Progress::At(PrepareStep::Wineboot), reply)),
        PrepareStep::Wineboot => goes(if_yes(step, Progress::At(PrepareStep::Wineserver), reply)),
        PrepareStep::Wineserver => goes(if_yes(step, Progress::At(PrepareStep::Marker), reply)),
        PrepareStep::Marker => PrepareState {
            marker_found: reply.agrees(),
            progress: Progress::At(PrepareStep::Prefix),
            ..state
        },
        PrepareStep::Prefix => goes(
            Progress::At(
                if reply.agrees() {
                    PrepareStep::VulkanMarker
                } else {
                    PrepareStep::CreatePrefix
                },
            ),
        ),
        PrepareStep::CreatePrefix => goes(
            then_at(step, Progress::At(PrepareStep::Initialize), reply),
        ),
        PrepareStep::Initialize => goes(
            then_at(step, Progress::At(PrepareStep::WaitForServer), reply),
        ),
        PrepareStep::WaitForServer => goes(
            then_at(step, Progress::At(PrepareStep::VulkanMarker), reply),
        ),
        PrepareStep::VulkanMarker => goes(
            if reply.agrees() {
                Progress::Succeeded(VulkanStatus::AlreadyConfigured)
            } else {
                Progress::At(PrepareStep::Archive)
            },
        ),
        PrepareStep::Archive => goes(if_yes(step, Progress::At(PrepareStep::Tar), reply)),
        PrepareStep::Tar => goes(if_yes(step, Progress::At(PrepareStep::Bash), reply)),
        PrepareStep::Bash => goes(if_yes(step, Progress::At(PrepareStep::CreateScratch), reply)),
        PrepareStep::CreateScratch => goes(
            then_at(step, Progress::At(PrepareStep::Extract), reply),
        ),
        PrepareStep::Extract => scratch_next(
            state,
            step,
            !reply.went_wrong(),
            PrepareStep::Script,
            reply,
        ),
        PrepareStep::Script => scratch_next(
            state,
            step,
            reply.agrees(),
            PrepareStep::RunScript,
            reply,
        ),
        PrepareStep::RunScript => scratch_next(
            state,
            step,
            !reply.went_wrong(),
            PrepareStep::WriteMarker,
            reply,
        ),
        PrepareStep::WriteMarker => scratch_next(
            state,
            step,
            !reply.went_wrong(),
            PrepareStep::RemoveScratch,
            reply,
        ),
        PrepareStep::RemoveScratch => PrepareState {
            failure: None,
            progress: match state.failure {
                Some((failed, why)) => Progress::Failed(failed, why),
                None => Progress::Succeeded(VulkanStatus::ConfiguredNow),
            },
            ..state
        },
    }
}

/// The state after a reply.
pub open spec fn prepare_after(state: PrepareState, reply: LauncherReply) -> PrepareState {
    match state.progress {
        Progress::At(step) => prepare_next(state, step, reply),
        _ => state,
    }
}

/// The setup script inside the scratch directory.
pub open spec fn script_of(scratch: Seq<u8>) -> Seq<u8> {
    join_bytes(join_bytes(scratch, "vulkan"@), "setup-vulkan.sh"@)
}

fn setup_script(scratch: &Path) -> (r: PathBuf)
    ensures
        r.bytes() == script_of(scratch.bytes()),
{
    let folder = paths::join(scratch, "vulkan");
    paths::join(folder.as_path(), "setup-vulkan.sh")
}

fn one_arg(arg: String) -> (r: Vec<String>)
    ensures
        texts(r@) == seq![arg@],
{
    let mut out: Vec<String> = Vec::new();
    out.push(arg);
    assert(texts(out@) =~= seq![arg@]);
    out
}

fn extract_args(archive: &Path, scratch: &Path) -> (r: Vec<String>)
    ensures
        texts(r@) == seq![
            "-xf"@,
            lossy_path(archive.bytes()),
            "-C"@,
            lossy_path(scratch.bytes()),
        ],
{
    let mut out: Vec<String> = Vec::new();
    out.push("-xf".to_owned());
    out.push(paths::lossy(archive));
    out.push("-C".to_owned());
    out.push(paths::lossy(scratch));
    assert(texts(out@) =~= seq![
        "-xf"@,
        lossy_path(archive.bytes()),
        "-C"@,
        lossy_path(scratch.bytes()),
    ]);
    out
}

impl Preparation {
    /// The environment of the commands.
    pub open spec fn environment(self) -> Seq<(Seq<char>, Seq<char>)> {
        environment_of(
            prefix_of(self.workspace_dir.bytes()),
            if self.state.marker_found {
                VulkanStatus::AlreadyConfigured
            } else {
                VulkanStatus::NotConfigured
            },
            self.variables,
        )
    }

    /// What is done at a step.
    pub open spec fn deed(self, step: PrepareStep) -> Deed {
        let workspace = self.workspace_dir.bytes();
        let prefix = prefix_of(workspace);
        let scratch = self.scratch.bytes();
        match step {
            PrepareStep::Wine => Deed::HasBinary(self.variables.command(Tool::Wine)),
            PrepareStep::Wineboot => Deed::HasBinary(self.variables.command(Tool::Wineboot)),
            PrepareStep::Wineserver => Deed::HasBinary(self.variables.command(Tool::Wineserver)),
            PrepareStep::Marker => Deed::IsFile(vulkan_marker_of(prefix)),
            PrepareStep::Prefix => Deed::IsDirectory(prefix),
            PrepareStep::CreatePrefix => Deed::CreateDirectory(prefix),
            PrepareStep::Initialize => Deed::Run(
                CommandParts {
                    binary: self.variables.command(Tool::Wineboot),
                    args: seq!["-i"@],
                    envs: self.environment(),
                },
            ),
            PrepareStep::WaitForServer => Deed::Run(
                CommandParts {
                    binary: self.variables.command(Tool::Wineserver),
                    args: seq!["-w"@],
                    envs: self.environment(),
                },
            ),
            PrepareStep::VulkanMarker => Deed::IsFile(vulkan_marker_of(prefix)),
            PrepareStep::Archive => Deed::IsFile(archive_of(workspace)),
            PrepareStep::Tar => Deed::HasBinary(self.variables.command(Tool::Tar)),
            PrepareStep::Bash => Deed::HasBinary(self.variables.command(Tool::Bash)),
            PrepareStep::CreateScratch => Deed::CreateDirectory(scratch),
            PrepareStep::Extract => Deed::Run(
                CommandParts {
                    binary: self.variables.command(Tool::Tar),
                    args: seq![
                        "-xf"@,
                        lossy_path(archive_of(workspace)),
                        "-C"@,
                        lossy_path(scratch),
                    ],
                    envs: Seq::empty(),
                },
            ),
            PrepareStep::Script => Deed::IsFile(script_of(scratch)),
            PrepareStep::RunScript => Deed::Run(
                CommandParts {
                    binary: self.variables.command(Tool::Bash),
                    args: seq![lossy_path(script_of(scratch))],
                    envs: self.environment(),
                },
            ),
            PrepareStep::WriteMarker => Deed::WriteFile {
                path: vulkan_marker_of(prefix),
                text: "vulkan configured"@,
            },
            PrepareStep::RemoveScratch => Deed::RemoveDirectory(scratch),
        }
    }

    /// The trouble with a step that failed.
    pub open spec fn trouble(self, step: PrepareStep, reply: LauncherReply) -> Trouble {
        let workspace = self.workspace_dir.bytes();
        let prefix = prefix_of(workspace);
        match step {
            PrepareStep::Wine => Trouble::MissingBinary("wine"@),
            PrepareStep::Wineboot => Trouble::MissingBinary("wineboot"@),
            PrepareStep::Wineserver => Trouble::MissingBinary("wineserver"@),
            PrepareStep::Tar => Trouble::MissingBinary("tar"@),
            PrepareStep::Bash => Trouble::MissingBinary("bash"@),
            PrepareStep::CreatePrefix => reply.io_trouble(
                "Failed to create Wine prefix directory "@ + shown_path(prefix),
            ),
            PrepareStep::Initialize => reply.command_trouble("initialize Wine prefix"@),
            PrepareStep::WaitForServer => reply.command_trouble("wait for wineserver"@),
            PrepareStep::CreateScratch => reply.io_trouble(
                "Failed to create temp directory "@ + shown_path(self.scratch.bytes()),
            ),
            PrepareStep::Extract => reply.command_trouble("extract cached Vulkan runtime archive"@),
            PrepareStep::Script => Trouble::MissingSetupScript(script_of(self.scratch.bytes())),
            PrepareStep::RunScript => reply.command_trouble("run Vulkan setup script"@),
            PrepareStep::WriteMarker => reply.io_trouble(
                "Failed to write Vulkan prefix marker "@ + shown_path(vulkan_marker_of(prefix)),
            ),
            _ => Trouble::MissingVulkanArchive(archive_of(workspace)),
        }
    }

    fn envs(&self) -> (r: Vec<(String, String)>)
        ensures
            pairs(r@) == self.environment(),
    {
        let prefix = wine_prefix(self.workspace_dir.as_path());
        let status = if self.state.marker_found {
            VulkanStatus::AlreadyConfigured
        } else {
            VulkanStatus::NotConfigured
        };
        wine_environment(prefix.as_path(), status, &self.variables)
    }

    fn action_at(&self, step: PrepareStep) -> (r: LauncherAction)
        ensures
            r@ == self.deed(step),
    {
        let workspace = self.workspace_dir.as_path();
        let prefix = wine_prefix(workspace);
        let scratch = self.scratch.as_path();
        match step {
            PrepareStep::Wine => LauncherAction::HasBinary(self.variables.binary(Tool::Wine)),
            PrepareStep::Wineboot => LauncherAction::HasBinary(
                self.variables.binary(Tool::Wineboot),
            ),
            PrepareStep::Wineserver => LauncherAction::HasBinary(
                self.variables.binary(Tool::Wineserver),
            ),
            PrepareStep::Marker => LauncherAction::IsFile(vulkan_prefix_marker(prefix.as_path())),
            PrepareStep::Prefix => LauncherAction::IsDirectory(prefix),
            PrepareStep::CreatePrefix => LauncherAction::CreateDirectory(prefix),
            PrepareStep::Initialize => LauncherAction::Run(
                CommandLine {
                    binary: self.variables.binary(Tool::Wineboot),
                    args: one_arg("-i".to_owned()),
                    envs: self.envs(),
                },
            ),
            PrepareStep::WaitForServer => LauncherAction::Run(
                CommandLine {
                    binary: self.variables.binary(Tool::Wineserver),
                    args: one_arg("-w".to_owned()),
                    envs: self.envs(),
                },
            ),
            PrepareStep::VulkanMarker => LauncherAction::IsFile(
                vulkan_prefix_marker(prefix.as_path()),
            ),
            PrepareStep::Archive => LauncherAction::IsFile(cached_vulkan_archive_path(workspace)),
            PrepareStep::Tar => LauncherAction::HasBinary(self.variables.binary(Tool::Tar)),
            PrepareStep::Bash => LauncherAction::HasBinary(self.variables.binary(Tool::Bash)),
            PrepareStep::CreateScratch => LauncherAction::CreateDirectory(self.scratch.clone()),
            PrepareStep::Extract => {
                let archive = cached_vulkan_archive_path(workspace);
                let envs: Vec<(String, String)> = Vec::new();
                assert(pairs(envs@) =~= Seq::<(Seq<char>, Seq<char>)>::empty());
                LauncherAction::Run(
                    CommandLine {
                        binary: self.variables.binary(Tool::Tar),
                        args: extract_args(archive.as_path(), scratch),
                        envs,
                    },
                )
            },
            PrepareStep::Script => LauncherAction::IsFile(setup_script(scratch)),
            PrepareStep::RunScript => LauncherAction::Run(
                CommandLine {
                    binary: self.variables.binary(Tool::Bash),
                    args: one_arg(paths::lossy(setup_script(scratch).as_path())),
                    envs: self.envs(),
                },
            ),
            PrepareStep::WriteMarker => LauncherAction::WriteFile {
                path: vulkan_prefix_marker(prefix.as_path()),
                text: "vulkan configured",
            },
            PrepareStep::RemoveScratch => LauncherAction::RemoveDirectory(self.scratch.clone()),
        }
    }

    /// What is to be done next; nothing when the operation has ended.
    pub fn action(&self) -> (r: Option<LauncherAction>)
        ensures
            deed_of(r) == match self.state.progress {
                Progress::At(step) => Some(self.deed(step)),
                _ => None,
            },
    {
        match &self.state.progress {
            Progress::At(step) => Some(self.action_at(*step)),
            _ => None,
        }
    }

    /// Takes in how the last action went.
    pub fn advance(&mut self, reply: LauncherReply)
        ensures
            *final(self) == (Preparation {
                state: prepare_after(old(self).state, reply),
                ..*old(self)
            }),
    {
        self.state.advance(reply);
    }

    fn error_at(&self, step: PrepareStep, reply: &LauncherReply) -> (r: LauncherError)
        ensures
            r@ == self.trouble(step, *reply),
    {
        let workspace = self.workspace_dir.as_path();
        let prefix = wine_prefix(workspace);
        match step {
            PrepareStep::Wine => LauncherError::MissingBinary("wine"),
            PrepareStep::Wineboot => LauncherError::MissingBinary("wineboot"),
            PrepareStep::Wineserver => LauncherError::MissingBinary("wineserver"),
            PrepareStep::Tar => LauncherError::MissingBinary("tar"),
            PrepareStep::Bash => LauncherError::MissingBinary("bash"),
            PrepareStep::CreatePrefix => {
                let mut context = "Failed to create Wine prefix directory ".to_owned();
                context.append(paths::shown(prefix.as_path()).as_str());
                reply.io_error(context)
            },
            PrepareStep::Initialize => reply.command_error("initialize Wine prefix".to_owned()),
            PrepareStep::WaitForServer => reply.command_error("wait for wineserver".to_owned()),
            PrepareStep::CreateScratch => {
                let mut context = "Failed to create temp directory ".to_owned();
                context.append(paths::shown(self.scratch.as_path()).as_str());
                reply.io_error(context)
            },
            PrepareStep::Extract => reply.command_error(
                "extract cached Vulkan runtime archive".to_owned(),
            ),
            PrepareStep::Script => LauncherError::MissingSetupScript(
                setup_script(self.scratch.as_path()),
            ),
            PrepareStep::RunScript => reply.command_error("run Vulkan setup script".to_owned()),
            PrepareStep::WriteMarker => {
                let mut context = "Failed to write Vulkan prefix marker ".to_owned();
                context.append(
                    paths::shown(vulkan_prefix_marker(prefix.as_path()).as_path()).as_str(),
                );
                reply.io_error(context)
            },
            _ => LauncherError::MissingVulkanArchive(cached_vulkan_archive_path(workspace)),
        }
    }

    /// What the preparation came to, once it has ended.
    pub fn result(&self) -> (r: Option<Result<PrepareResult, LauncherError>>)
        ensures
            match self.state.progress {
                Progress::At(_) => r is None,
                Progress::Succeeded(status) => r matches Some(Ok(prepared))
                    && prepared.vulkan_status == status && prepared.prefix.bytes() == prefix_of(
                    self.workspace_dir.bytes(),
                ),
                Progress::Failed(step, reply) => r matches Some(Err(error)) && error@
                    == self.trouble(step, reply),
            },
    {
        match &self.state.progress {
            Progress::At(_) => None,
            Progress::Succeeded(status) => Some(
                Ok(
                    PrepareResult {
                        prefix: wine_prefix(self.workspace_dir.as_path()),
                        vulkan_status: *status,
                    },
                ),
            ),
            Progress::Failed(step, reply) => Some(Err(self.error_at(*step, reply))),
        }
    }
}

impl PrepareState {
    fn in_scratch(&mut self, step: PrepareStep, ok: bool, next: PrepareStep, reply: LauncherReply)
        ensures
            *final(self) == scratch_next(*old(self), step, ok, next, reply),
    {
        if ok {
            self.progress = Progress::At(next);
        } else {
            self.failure = Some((step, reply));
            self.progress = Progress::At(PrepareStep::RemoveScratch);
        }
    }

    fn advance(&mut self, reply: LauncherReply)
        ensures
            *final(self) == prepare_after(*old(self), reply),
    {
        let step = match &self.progress {
            Progress::At(at) => *at,
            _ => {
                return ;
            },
        };
        match step {
            PrepareStep::Wine => {
                self.progress = after_question(step, Progress::At(PrepareStep::Wineboot), reply);
            },
            PrepareStep::Wineboot => {
                self.progress = after_question(step, Progress::At(PrepareStep::Wineserver), reply);
            },
            PrepareStep::Wineserver => {
                self.progress = after_question(step, Progress::At(PrepareStep::Marker), reply);
            },
            PrepareStep::Marker => {
                self.marker_found = reply.is_yes();
                self.progress = Progress::At(PrepareStep::Prefix);
            },
            PrepareStep::Prefix => {
                let next = if reply.is_yes() {
                    PrepareStep::VulkanMarker
                } else {
                    PrepareStep::CreatePrefix
                };
                self.progress = Progress::At(next);
            },
            PrepareStep::CreatePrefix => {
                self.progress = after_work(step, Progress::At(PrepareStep::Initialize), reply);
            },
            PrepareStep::Initialize => {
                self.progress = after_work(step, Progress::At(PrepareStep::WaitForServer), reply);
            },
            PrepareStep::WaitForServer => {
                self.progress = after_work(step, Progress::At(PrepareStep::VulkanMarker), reply);
            },
            PrepareStep::VulkanMarker => {
                self.progress = if reply.is_yes() {
                    Progress::Succeeded(VulkanStatus::AlreadyConfigured)
                } else {
                    Progress::At(PrepareStep::Archive)
                };
            },
            PrepareStep::Archive => {
                self.progress = after_question(step, Progress::At(PrepareStep::Tar), reply);
            },
            PrepareStep::Tar => {
                self.progress = after_question(step, Progress::At(PrepareStep::Bash), reply);
            },
            PrepareStep::Bash => {
                self.progress = after_question(
                    step,
                    Progress::At(PrepareStep::CreateScratch),
                    reply,
                );
            },
            PrepareStep::CreateScratch => {
                self.progress = after_work(step, Progress::At(PrepareStep::Extract), reply);
            },
            PrepareStep::Extract => {
                let ok = !reply.is_failure();
                self.in_scratch(step, ok, PrepareStep::Script, reply);
            },
            PrepareStep::Script => {
                let ok = reply.is_yes();
                self.in_scratch(step, ok, PrepareStep::RunScript, reply);
            },
            PrepareStep::RunScript => {
                let ok = !reply.is_failure();
                self.in_scratch(step, ok, PrepareStep::WriteMarker, reply);
            },
            PrepareStep::WriteMarker => {
                let ok = !reply.is_failure();
                self.in_scratch(step, ok, PrepareStep::RemoveScratch, reply);
            },
            PrepareStep::RemoveScratch => {
                let failure = self.failure.take();
                self.progress = match failure {
                    Some((failed, why)) => Progress::Failed(failed, why),
                    None => Progress::Succeeded(VulkanStatus::ConfiguredNow),
                };
            },
        }
    }
}

/// The state in which the preparation begins.
pub open spec fn prepare_start() -> PrepareState {
    PrepareState {
        marker_found: false,
        failure: None,
        progress: Progress::At(PrepareStep::Wine),
    }
}

/// Begins to prepare the environment; `scratch` is a directory for temporary work.
pub fn prepare_environment(
    workspace_dir: &Path,
    scratch: PathBuf,
    variables: LauncherVariables,
) -> (r: Preparation)
    ensures
        r.workspace_dir.bytes() == workspace_dir.bytes(),
        r.scratch == scratch,
        r.variables == variables,
        r.state == prepare_start(),
{
    Preparation {
        workspace_dir: workspace_dir.to_path_buf(),
        scratch,
        variables,
        state: PrepareState {
            marker_found: false,
            failure: None,
            progress: Progress::At(PrepareStep::Wine),
        },
    }
}

/// The state after a series of replies.
pub open spec fn prepare_run(state: PrepareState, replies: Seq<LauncherReply>) -> PrepareState
    decreases replies.len(),
{
    if replies.len() == 0 {
        state
    } else {
        prepare_after(prepare_run(state, replies.drop_last()), replies.last())
    }
}

/// The position of a step in the order of the preparation.
pub open spec fn prepare_rank(step: PrepareStep) -> int {
    match step {
        PrepareStep::Wine => 0,
        PrepareStep::Wineboot => 1,
        PrepareStep::Wineserver => 2,
        PrepareStep::Marker => 3,
        PrepareStep::Prefix => 4,
        PrepareStep::CreatePrefix => 5,
        PrepareStep::Initialize => 6,
        PrepareStep::WaitForServer => 7,
        PrepareStep::VulkanMarker => 8,
        PrepareStep::Archive => 9,
        PrepareStep::Tar => 10,
        PrepareStep::Bash => 11,
        PrepareStep::CreateScratch => 12,
        PrepareStep::Extract => 13,
        PrepareStep::Script => 14,
        PrepareStep::RunScript => 15,
        PrepareStep::WriteMarker => 16,
        PrepareStep::RemoveScratch => 17,
    }
}

/// The preparation goes forward: after n replies it has ended or stands at the n-th step or
/// later, so it ends after as many replies as there are steps.
pub proof fn a_preparation_ends(replies: Seq<LauncherReply>)
    ensures
        prepare_run(prepare_start(), replies).progress matches Progress::At(step) ==> prepare_rank(
            step,
        ) >= replies.len(),
        replies.len() >= 18 ==> !(prepare_run(prepare_start(), replies).progress is At),
    decreases replies.len(),
{
    if replies.len() > 0 {
        a_preparation_ends(replies.drop_last());
    }
}

/// Whether the scratch directory stands while a step is carried out.
pub open spec fn scratch_stands(step: PrepareStep) -> bool {
    prepare_rank(step) >= 13
}

/// Once the scratch directory has been created, the preparation does not end before the step
/// that removes it, whatever fails on the way; and a failure is not forgotten.
pub proof fn a_scratch_directory_is_removed(
    state: PrepareState,
    step: PrepareStep,
    reply: LauncherReply,
)
    requires
        state.progress == Progress::<PrepareStep, VulkanStatus>::At(step),
        scratch_stands(step),
    ensures
        !(step is RemoveScratch) ==> (prepare_after(state, reply).progress matches Progress::At(
            next,
        ) && scratch_stands(next)),
        step is RemoveScratch ==> match state.failure {
            Some((failed, why)) => prepare_after(state, reply).progress == Progress::<
                PrepareStep,
                VulkanStatus,
            >::Failed(failed, why),
            None => prepare_after(state, reply).progress == Progress::<
                PrepareStep,
                VulkanStatus,
            >::Succeeded(VulkanStatus::ConfiguredNow),
        },
{
}

/// The marker of a configured prefix is written last: its step follows only on a setup script
/// that succeeded, and a preparation that says that it configured the prefix has written it.
pub proof fn the_vulkan_marker_is_written_last(replies: Seq<LauncherReply>)
    ensures
        ({
            let before = prepare_run(prepare_start(), replies.drop_last());
            let after = prepare_run(prepare_start(), replies);
            &&& (replies.len() > 0 && after.progress == Progress::<PrepareStep, VulkanStatus>::At(
                PrepareStep::WriteMarker,
            )) ==> before.progress == Progress::<PrepareStep, VulkanStatus>::At(
                PrepareStep::RunScript,
            ) && !replies.last().went_wrong()
            &&& after.progress == Progress::<PrepareStep, VulkanStatus>::Succeeded(
                VulkanStatus::ConfiguredNow,
            ) ==> exists|i: int|
                0 < i <= replies.len() && !replies[i - 1].went_wrong() && #[trigger] prepare_run(
                    prepare_start(),
                    replies.take(i - 1),
                ).progress == Progress::<PrepareStep, VulkanStatus>::At(PrepareStep::WriteMarker)
        }),
{
    let after = prepare_run(prepare_start(), replies);
    if replies.len() > 0 {
        lemma_written(replies.drop_last());
        lemma_written(replies);
    }
}

spec fn written(replies: Seq<LauncherReply>) -> bool {
    exists|i: int|
        0 < i <= replies.len() && !replies[i - 1].went_wrong() && #[trigger] prepare_run(
            prepare_start(),
            replies.take(i - 1),
        ).progress == Progress::<PrepareStep, VulkanStatus>::At(PrepareStep::WriteMarker)
}

proof fn lemma_written(replies: Seq<LauncherReply>)
    ensures
        ({
            let after = prepare_run(prepare_start(), replies);
            &&& !(after.progress == Progress::<PrepareStep, VulkanStatus>::At(
                PrepareStep::RemoveScratch,
            )) ==> after.failure is None
            &&& after.progress == Progress::<PrepareStep, VulkanStatus>::At(
                PrepareStep::RemoveScratch,
            ) && after.failure is None ==> written(replies)
            &&& after.progress == Progress::<PrepareStep, VulkanStatus>::Succeeded(
                VulkanStatus::ConfiguredNow,
            ) ==> written(replies)
        }),
    decreases replies.len(),
{
    if replies.len() > 0 {
        let front = replies.drop_last();
        lemma_written(front);
        let before = prepare_run(prepare_start(), front);
        let after = prepare_run(prepare_start(), replies);
        assert(replies.take(replies.len() - 1) =~= front);
        if written(front) {
            let i = choose|i: int|
                0 < i <= front.len() && !front[i - 1].went_wrong() && #[trigger] prepare_run(
                    prepare_start(),
                    front.take(i - 1),
                ).progress == Progress::<PrepareStep, VulkanStatus>::At(PrepareStep::WriteMarker);
            assert(front.take(i - 1) =~= replies.take(i - 1));
            assert(replies[i - 1] == front[i - 1]);
            assert(written(replies));
        }
        if before.progress == Progress::<PrepareStep, VulkanStatus>::At(PrepareStep::WriteMarker)
            && !replies.last().went_wrong() {
            assert(replies[replies.len() - 1] == replies.last());
            assert(prepare_run(prepare_start(), replies.take(replies.len() - 1)).progress
                == Progress::<PrepareStep, VulkanStatus>::At(PrepareStep::WriteMarker));
            assert(written(replies));
        }
    }
}

/// The runs of winetricks, in their order.
#[derive(Clone, Copy, PartialEq, Eq, Structural)]
pub enum Trick {
    RemoveMono,
    Dotnet452,
    Dotnet48,
    Win10,
    VcRuntime,
    D3dx11,
}

impl Trick {
    /// The verbs that winetricks is given.
    pub open spec fn verbs(self) -> Seq<Seq<char>> {
        match self {
            Trick::RemoveMono => seq!["remove_mono"@],
            Trick::Dotnet452 => seq!["winxp"@, "dotnet40"@, "dotnet452"@],
            Trick::Dotnet48 => seq!["winxp"@, "dotnet40"@, "dotnet48"@],
            Trick::Win10 => seq!["win10"@],
            Trick::VcRuntime => seq!["ucrtbase2019"@, "vcrun2019"@],
            Trick::D3dx11 => seq!["d3dx11_43"@],
        }
    }

    /// What a run is for.
    pub open spec fn purpose(self) -> Seq<char> {
        match self {
            Trick::RemoveMono => "remove wine mono"@,
            Trick::Dotnet452 => "install dotnet452 runtime"@,
            Trick::Dotnet48 => "install dotnet48 runtime"@,
            Trick::Win10 => "restore win10 mode"@,
            Trick::VcRuntime => "install VC runtime"@,
            Trick::D3dx11 => "install d3dx11_43"@,
        }
    }

    fn verb_list(self) -> (r: Vec<&'static str>)
        ensures
            r@.len() == self.verbs().len(),
            forall|i: int| 0 <= i < r@.len() ==> (#[trigger] r@[i])@ == self.verbs()[i],
    {
        let mut out: Vec<&'static str> = Vec::new();
        match self {
            Trick::RemoveMono => {
                out.push("remove_mono");
            },
            Trick::Dotnet452 => {
                out.push("winxp");
                out.push("dotnet40");
                out.push("dotnet452");
            },
            Trick::Dotnet48 => {
                out.push("winxp");
                out.push("dotnet40");
                out.push("dotnet48");
            },
            Trick::Win10 => {
                out.push("win10");
            },
            Trick::VcRuntime => {
                out.push("ucrtbase2019");
                out.push("vcrun2019");
            },
            Trick::D3dx11 => {
                out.push("d3dx11_43");
            },
        }
        out
    }

    fn context(self) -> (r: &'static str)
        ensures
            r@ == self.purpose(),
    {
        match self {
            Trick::RemoveMono => "remove wine mono",
            Trick::Dotnet452 => "install dotnet452 runtime",
            Trick::Dotnet48 => "install dotnet48 runtime",
            Trick::Win10 => "restore win10 mode",
            Trick::VcRuntime => "install VC runtime",
            Trick::D3dx11 => "install d3dx11_43",
        }
    }
}

/// The command that hands verbs to winetricks.
pub fn run_winetricks(
    winetricks: String,
    envs: Vec<(String, String)>,
    verbs: &Vec<&'static str>,
) -> (r: CommandLine)
    ensures
        r.binary == winetricks,
        r.envs == envs,
        texts(r.args@) == seq!["-q"@] + Seq::new(verbs@.len(), |i: int| verbs@[i]@),
{
    let mut args: Vec<String> = Vec::new();
    args.push("-q".to_owned());
    let mut i: usize = 0;
    while i < verbs.len()
        invariant
            0 <= i <= verbs@.len(),
            args@.len() == i + 1,
            args@[0]@ == "-q"@,
            forall|j: int| 0 <= j < i ==> (#[trigger] args@[j + 1])@ == verbs@[j]@,
        decreases verbs@.len() - i,
    {
        let ghost before = args@;
        args.push(verbs[i].to_owned());
        assert forall|j: int| 0 <= j < i + 1 implies (#[trigger] args@[j + 1])@ == verbs@[j]@ by {
            if j < i {
                assert(args@[j + 1] == before[j + 1]);
            }
        }
        i += 1;
    }
    proof {
        let want = seq!["-q"@] + Seq::new(verbs@.len(), |k: int| verbs@[k]@);
        assert forall|k: int| 0 <= k < want.len() implies texts(args@)[k] == want[k] by {
            if k > 0 {
                assert(args@[(k - 1) + 1]@ == verbs@[k - 1]@);
            }
        }
        assert(texts(args@) =~= want);
    }
    CommandLine { binary: winetricks, args, envs }
}

/// The steps of installing the runtime dependencies.
#[derive(Clone, Copy, PartialEq, Eq, Structural)]
pub enum DependencyStep {
    Winetricks,
    Marker,
    Install(Trick),
    WriteMarker,
}

/// The installation of the runtime dependencies.
pub struct Installation {
    pub prefix: PathBuf,
    pub vulkan_status: VulkanStatus,
    pub variables: LauncherVariables,
    pub progress: Progress<DependencyStep, DependencyStatus>,
}

/// The step after a run of winetricks.
pub open spec fn after_trick(trick: Trick) -> DependencyStep {
    match trick {
        Trick::RemoveMono => DependencyStep::Install(Trick::Dotnet452),
        Trick::Dotnet452 => DependencyStep::Install(Trick::Dotnet48),
        Trick::Dotnet48 => DependencyStep::Install(Trick::Win10),
        Trick::Win10 => DependencyStep::Install(Trick::VcRuntime),
        Trick::VcRuntime => DependencyStep::Install(Trick::D3dx11),
        Trick::D3dx11 => DependencyStep::WriteMarker,
    }
}

fn step_after_trick(trick: Trick) -> (r: DependencyStep)
    ensures
        r == after_trick(trick),
{
    match trick {
        Trick::RemoveMono => DependencyStep::Install(Trick::Dotnet452),
        Trick::Dotnet452 => DependencyStep::Install(Trick::Dotnet48),
        Trick::Dotnet48 => DependencyStep::Install(Trick::Win10),
        Trick::Win10 => DependencyStep::Install(Trick::VcRuntime),
        Trick::VcRuntime => DependencyStep::Install(Trick::D3dx11),
        Trick::D3dx11 => DependencyStep::WriteMarker,
    }
}

/// What follows a step of the installation.
pub open spec fn dependency_next(step: DependencyStep, reply: LauncherReply) -> Progress<
    DependencyStep,
    DependencyStatus,
> {
    match step {
        DependencyStep::Winetricks => if_yes(step, Progress::At(DependencyStep::Marker), reply),
        DependencyStep::Marker => if reply.agrees() {
            Progress::Succeeded(DependencyStatus::AlreadyInstalled)
        } else {
            Progress::At(DependencyStep::Install(Trick::RemoveMono))
        },
        DependencyStep::Install(trick) => then_at(step, Progress::At(after_trick(trick)), reply),
        DependencyStep::WriteMarker => then_at(
            step,
            Progress::Succeeded(DependencyStatus::InstalledNow),
            reply,
        ),
    }
}

impl Installation {
    /// What is done at a step.
    pub open spec fn deed(self, step: DependencyStep) -> Deed {
        match step {
            DependencyStep::Winetricks => Deed::HasBinary(
                self.variables.command(Tool::Winetricks),
            ),
            DependencyStep::Marker => Deed::IsFile(runtime_marker_of(self.prefix.bytes())),
            DependencyStep::Install(trick) => Deed::Run(
                CommandParts {
                    binary: self.variables.command(Tool::Winetricks),
                    args: seq!["-q"@] + trick.verbs(),
                    envs: environment_of(self.prefix.bytes(), self.vulkan_status, self.variables),
                },
            ),
            DependencyStep::WriteMarker => Deed::WriteFile {
                path: runtime_marker_of(self.prefix.bytes()),
                text: "runtime dependencies installed"@,
            },
        }
    }

    /// The trouble with a step that failed.
    pub open spec fn trouble(self, step: DependencyStep, reply: LauncherReply) -> Trouble {
        match step {
            DependencyStep::Install(trick) => reply.command_trouble(trick.purpose()),
            DependencyStep::WriteMarker => reply.io_trouble(
                "Failed to write runtime marker "@ + shown_path(
                    runtime_marker_of(self.prefix.bytes()),
                ),
            ),
            _ => Trouble::MissingBinary("winetricks"@),
        }
    }

    fn install_command(&self, trick: Trick) -> (r: CommandLine)
        ensures
            Deed::Run(r@) == self.deed(DependencyStep::Install(trick)),
    {
        let envs = wine_environment(self.prefix.as_path(), self.vulkan_status, &self.variables);
        let verbs = trick.verb_list();
        let command = run_winetricks(self.variables.binary(Tool::Winetricks), envs, &verbs);
        assert(Seq::new(verbs@.len(), |i: int| verbs@[i]@) =~= trick.verbs());
        command
    }

    /// What is to be done next; nothing when the operation has ended.
    pub fn action(&self) -> (r: Option<LauncherAction>)
        ensures
            deed_of(r) == match self.progress {
                Progress::At(step) => Some(self.deed(step)),
                _ => None,
            },
    {
        let marker = runtime_dependencies_marker(self.prefix.as_path());
        match &self.progress {
            Progress::At(step) => Some(
                match *step {
                    DependencyStep::Winetricks => LauncherAction::HasBinary(
                        self.variables.binary(Tool::Winetricks),
                    ),
                    DependencyStep::Marker => LauncherAction::IsFile(marker),
                    DependencyStep::Install(trick) => LauncherAction::Run(
                        self.install_command(trick),
                    ),
                    DependencyStep::WriteMarker => LauncherAction::WriteFile {
                        path: marker,
                        text: "runtime dependencies installed",
                    },
                },
            ),
            _ => None,
        }
    }

    /// Takes in how the last action went.
    pub fn advance(&mut self, reply: LauncherReply)
        ensures
            *final(self) == (Installation {
                progress: match old(self).progress {
                    Progress::At(step) => dependency_next(step, reply),
                    ended => ended,
                },
                ..*old(self)
            }),
    {
        if let Progress::At(at) = &self.progress {
            let step = *at;
            self.progress = match step {
                DependencyStep::Winetricks => after_question(
                    step,
                    Progress::At(DependencyStep::Marker),
                    reply,
                ),
                DependencyStep::Marker => if reply.is_yes() {
                    Progress::Succeeded(DependencyStatus::AlreadyInstalled)
                } else {
                    Progress::At(DependencyStep::Install(Trick::RemoveMono))
                },
                DependencyStep::Install(trick) => after_work(
                    step,
                    Progress::At(step_after_trick(trick)),
                    reply,
                ),
                DependencyStep::WriteMarker => after_work(
                    step,
                    Progress::Succeeded(DependencyStatus::InstalledNow),
                    reply,
                ),
            };
        }
    }

    /// What the installation came to, once it has ended.
    pub fn result(&self) -> (r: Option<Result<DependencyStatus, LauncherError>>)
        ensures
            match self.progress {
                Progress::At(_) => came_to(r, None, None),
                Progress::Succeeded(status) => came_to(r, Some(status), None),
                Progress::Failed(step, reply) => came_to(r, None, Some(self.trouble(step, reply))),
            },
    {
        match &self.progress {
            Progress::At(_) => None,
            Progress::Succeeded(status) => Some(Ok(*status)),
            Progress::Failed(step, reply) => Some(
                Err(
                    match *step {
                        DependencyStep::Install(trick) => reply.command_error(
                            trick.context().to_owned(),
                        ),
                        DependencyStep::WriteMarker => {
                            let mut context = "Failed to write runtime marker ".to_owned();
                            let marker = runtime_dependencies_marker(self.prefix.as_path());
                            context.append(paths::shown(marker.as_path()).as_str());
                            reply.io_error(context)
                        },
                        _ => LauncherError::MissingBinary("winetricks"),
                    },
                ),
            ),
        }
    }
}

/// Begins to install the runtime dependencies into a prepared prefix.
pub fn ensure_runtime_dependencies(
    prepare_result: &PrepareResult,
    variables: LauncherVariables,
) -> (r: Installation)
    ensures
        r.prefix == prepare_result.prefix,
        r.vulkan_status == prepare_result.vulkan_status,
        r.variables == variables,
        r.progress == Progress::<DependencyStep, DependencyStatus>::At(DependencyStep::Winetricks),
{
    Installation {
        prefix: prepare_result.prefix.clone(),
        vulkan_status: prepare_result.vulkan_status,
        variables,
        progress: Progress::At(DependencyStep::Winetricks),
    }
}

/// The steps of starting the game.
#[derive(Clone, Copy, PartialEq, Eq, Structural)]
pub enum LaunchStep {
    GameDirectory,
    Executable,
    Wine,
    Start,
}

/// The start of the game.
pub struct Launch {
    pub game_dir: PathBuf,
    pub prefix: PathBuf,
    pub vulkan_status: VulkanStatus,
    pub variables: LauncherVariables,
    pub progress: Progress<LaunchStep, ()>,
}

/// What follows a step of the start.
pub open spec fn launch_next(step: LaunchStep, reply: LauncherReply) -> Progress<LaunchStep, ()> {
    match step {
        LaunchStep::GameDirectory => if_yes(step, Progress::At(LaunchStep::Executable), reply),
        LaunchStep::Executable => if_yes(step, Progress::At(LaunchStep::Wine), reply),
        LaunchStep::Wine => if_yes(step, Progress::At(LaunchStep::Start), reply),
        LaunchStep::Start => then_at(step, Progress::Succeeded(()), reply),
    }
}

impl Launch {
    /// What is done at a step.
    pub open spec fn deed(self, step: LaunchStep) -> Deed {
        match step {
            LaunchStep::GameDirectory => Deed::IsDirectory(self.game_dir.bytes()),
            LaunchStep::Executable => Deed::IsFile(executable_of(self.game_dir.bytes())),
            LaunchStep::Wine => Deed::HasBinary(self.variables.command(Tool::Wine)),
            LaunchStep::Start => Deed::Spawn {
                command: CommandParts {
                    binary: self.variables.command(Tool::Wine),
                    args: seq!["PlayGTAV.exe"@],
                    envs: environment_of(self.prefix.bytes(), self.vulkan_status, self.variables),
                },
                directory: self.game_dir.bytes(),
            },
        }
    }

    /// The trouble with a step that failed.
    pub open spec fn trouble(self, step: LaunchStep, reply: LauncherReply) -> Trouble {
        match step {
            LaunchStep::GameDirectory => Trouble::InvalidGameDirectory(self.game_dir.bytes()),
            LaunchStep::Executable => Trouble::MissingGameExecutable(self.game_dir.bytes()),
            LaunchStep::Wine => Trouble::MissingBinary("wine"@),
            LaunchStep::Start => reply.command_trouble(
                self.variables.command(Tool::Wine) + " PlayGTAV.exe (cwd: "@ + shown_path(
                    self.game_dir.bytes(),
                ) + ")"@,
            ),
        }
    }

    /// What is to be done next; nothing when the operation has ended.
    pub fn action(&self) -> (r: Option<LauncherAction>)
        ensures
            deed_of(r) == match self.progress {
                Progress::At(step) => Some(self.deed(step)),
                _ => None,
            },
    {
        match &self.progress {
            Progress::At(step) => Some(
                match *step {
                    LaunchStep::GameDirectory => LauncherAction::IsDirectory(self.game_dir.clone()),
                    LaunchStep::Executable => LauncherAction::IsFile(
                        game_executable(self.game_dir.as_path()),
                    ),
                    LaunchStep::Wine => LauncherAction::HasBinary(
                        self.variables.binary(Tool::Wine),
                    ),
                    LaunchStep::Start => LauncherAction::Spawn {
                        command: CommandLine {
                            binary: self.variables.binary(Tool::Wine),
                            args: one_arg("PlayGTAV.exe".to_owned()),
                            envs: wine_environment(
                                self.prefix.as_path(),
                                self.vulkan_status,
                                &self.variables,
                            ),
                        },
                        directory: self.game_dir.clone(),
                    },
                },
            ),
            _ => None,
        }
    }

    /// Takes in how the last action went.
    pub fn advance(&mut self, reply: LauncherReply)
        ensures
            *final(self) == (Launch {
                progress: match old(self).progress {
                    Progress::At(step) => launch_next(step, reply),
                    ended => ended,
                },
                ..*old(self)
            }),
    {
        if let Progress::At(at) = &self.progress {
            let step = *at;
            self.progress = match step {
                LaunchStep::GameDirectory => after_question(
                    step,
                    Progress::At(LaunchStep::Executable),
                    reply,
                ),
                LaunchStep::Executable => after_question(
                    step,
                    Progress::At(LaunchStep::Wine),
                    reply,
                ),
                LaunchStep::Wine => after_question(step, Progress::At(LaunchStep::Start), reply),
                LaunchStep::Start => after_work(step, Progress::Succeeded(()), reply),
            };
        }
    }

    /// What the start came to, once it has ended.
    pub fn result(&self) -> (r: Option<Result<(), LauncherError>>)
        ensures
            match self.progress {
                Progress::At(_) => came_to(r, None, None),
                Progress::Succeeded(_) => came_to(r, Some(()), None),
                Progress::Failed(step, reply) => came_to(r, None, Some(self.trouble(step, reply))),
            },
    {
        match &self.progress {
            Progress::At(_) => None,
            Progress::Succeeded(_) => Some(Ok(())),
            Progress::Failed(step, reply) => Some(
                Err(
                    match *step {
                        LaunchStep::GameDirectory => LauncherError::InvalidGameDirectory(
                            self.game_dir.clone(),
                        ),
                        LaunchStep::Executable => LauncherError::MissingGameExecutable(
                            self.game_dir.clone(),
                        ),
                        LaunchStep::Wine => LauncherError::MissingBinary("wine"),
                        LaunchStep::Start => {
                            let mut context = self.variables.binary(Tool::Wine);
                            context.append(" PlayGTAV.exe (cwd: ");
                            context.append(paths::shown(self.game_dir.as_path()).as_str());
                            context.append(")");
                            reply.command_error(context)
                        },
                    },
                ),
            ),
        }
    }
}

/// Begins to start the game in a prepared environment.
pub fn launch_game_prepared(
    game_dir: &Path,
    prepare_result: &PrepareResult,
    variables: LauncherVariables,
) -> (r: Launch)
    ensures
        r.game_dir.bytes() == game_dir.bytes(),
        r.prefix == prepare_result.prefix,
        r.vulkan_status == prepare_result.vulkan_status,
        r.variables == variables,
        r.progress == Progress::<LaunchStep, ()>::At(LaunchStep::GameDirectory),
{
    Launch {
        game_dir: game_dir.to_path_buf(),
        prefix: prepare_result.prefix.clone(),
        vulkan_status: prepare_result.vulkan_status,
        variables,
        progress: Progress::At(LaunchStep::GameDirectory),
    }
}

/// The message of a runtime that is cached.
pub fn cached_message(status: VulkanCacheStatus) -> (r: String)
    ensures
        r@ == "Vulkan runtime "@ + status.label() + "."@,
{
    let mut out = "Vulkan runtime ".to_owned();
    out.append(status.as_label());
    out.append(".");
    out
}

/// The message of a game that was started.
pub fn started_message(dependencies: DependencyStatus, vulkan: VulkanStatus) -> (r: String)
    ensures
        r@ == "Started GTA V (runtime dependencies "@ + dependencies.label() + ", Vulkan "@
            + vulkan.label() + ")."@,
{
    let mut out = "Started GTA V (runtime dependencies ".to_owned();
    out.append(dependencies.as_label());
    out.append(", Vulkan ");
    out.append(vulkan.as_label());
    out.append(").");
    out
}

/// The markers of caching and installation are written last: an operation that says that it
/// did the work now comes from the step that writes its marker, and that step follows only on
/// work that succeeded.
pub proof fn markers_are_written_last(
    cache: CacheStep,
    given: bool,
    dependency: DependencyStep,
    reply: LauncherReply,
)
    ensures
        cache_next(cache, given, reply) == Progress::<CacheStep, VulkanCacheStatus>::Succeeded(
            VulkanCacheStatus::CachedNow,
        ) <==> cache is WriteMarker && !reply.went_wrong(),
        cache_next(cache, given, reply) == Progress::<CacheStep, VulkanCacheStatus>::At(
            CacheStep::WriteMarker,
        ) <==> cache is Copy && !reply.went_wrong(),
        dependency_next(dependency, reply) == Progress::<
            DependencyStep,
            DependencyStatus,
        >::Succeeded(DependencyStatus::InstalledNow) <==> dependency is WriteMarker
            && !reply.went_wrong(),
        dependency_next(dependency, reply) == Progress::<DependencyStep, DependencyStatus>::At(
            DependencyStep::WriteMarker,
        ) <==> dependency == DependencyStep::Install(Trick::D3dx11) && !reply.went_wrong(),
{
}

/// Only an archive that was found is copied, and what is looked for first is what the copy and the
/// marker become: the archive that is copied is the one that was asked for, it goes where the cached
/// one is looked for, and the marker is written where it is looked for.
pub proof fn a_found_archive_is_cached(
    caching: VulkanCaching,
    given: bool,
    reply: LauncherReply,
    step: CacheStep,
)
    requires
        given ==> caching.given is Some,
    ensures
        cache_next(step, caching.given is Some, reply) == Progress::<
            CacheStep,
            VulkanCacheStatus,
        >::At(CacheStep::CreateDirectory { given }) <==> step == source_step(given) && reply is Yes,
        cache_next(step, caching.given is Some, reply) == Progress::<
            CacheStep,
            VulkanCacheStatus,
        >::At(CacheStep::Copy { given }) <==> step == (CacheStep::CreateDirectory { given })
            && !reply.went_wrong(),
        cache_next(step, caching.given is Some, reply) == Progress::<
            CacheStep,
            VulkanCacheStatus,
        >::Succeeded(VulkanCacheStatus::AlreadyCached) <==> step is Marker && reply is Yes,
        cache_next(step, caching.given is Some, reply) == Progress::<
            CacheStep,
            VulkanCacheStatus,
        >::At(CacheStep::Marker) <==> step is Archive && reply is Yes,
        caching.deed(CacheStep::Copy { given }) matches Deed::CopyFile { from, to } && caching.deed(
            source_step(given),
        ) == Deed::IsFile(from) && caching.deed(CacheStep::Archive) == Deed::IsFile(to),
        caching.deed(CacheStep::WriteMarker) matches Deed::WriteFile { path, .. } && caching.deed(
            CacheStep::Marker,
        ) == Deed::IsFile(path),
        given ==> caching.deed(source_step(given)) == Deed::IsFile((caching.given->0).bytes()),
        caching.given is Some ==> source_step(true) is GivenSource && cache_next(
            CacheStep::Archive,
            true,
            LauncherReply::No,
        ) == Progress::<CacheStep, VulkanCacheStatus>::At(CacheStep::GivenSource),
        cache_next(CacheStep::GivenSource, true, LauncherReply::No) == Progress::<
            CacheStep,
            VulkanCacheStatus,
        >::At(CacheStep::DefaultSource),
        cache_next(CacheStep::DefaultSource, given, LauncherReply::No) is Failed,
{
}

/// A cache that was filled is found complete by what the files tell.
pub proof fn a_filled_cache_is_complete(caching: VulkanCaching, given: bool, files: Set<Seq<Seq<u8>>>)
    requires
        caching.deed(CacheStep::Copy { given }) matches Deed::CopyFile { to, .. } && files.contains(
            crate::paths::path_class(to),
        ),
        caching.deed(CacheStep::WriteMarker) matches Deed::WriteFile { path, .. } && files.contains(
            crate::paths::path_class(path),
        ),
    ensures
        crate::launcher::runtime_cached(caching.workspace_dir.bytes(), files),
{
}

/// The preparation looks for what it later uses: the tools that it calls, the prefix that it makes, the
/// cached archive that it unpacks into the scratch directory, the script that it runs there, and the
/// marker that it writes. What it made for the time being is what it removes. Wine is run in the prefix.
pub proof fn a_preparation_uses_what_it_looked_for(preparation: Preparation)
    ensures
        preparation.deed(PrepareStep::Initialize) matches Deed::Run(command) && preparation.deed(
            PrepareStep::Wineboot,
        ) == Deed::HasBinary(command.binary) && command.envs == preparation.environment()
            && command.args == seq!["-i"@],
        preparation.deed(PrepareStep::WaitForServer) matches Deed::Run(command) && preparation.deed(
            PrepareStep::Wineserver,
        ) == Deed::HasBinary(command.binary) && command.envs == preparation.environment()
            && command.args == seq!["-w"@],
        preparation.deed(PrepareStep::RunScript) matches Deed::Run(command) && preparation.deed(
            PrepareStep::Bash,
        ) == Deed::HasBinary(command.binary) && command.envs == preparation.environment() && (
        preparation.deed(PrepareStep::Script) matches Deed::IsFile(script) && command.args == seq![
            lossy_path(script),
        ]),
        preparation.deed(PrepareStep::Extract) matches Deed::Run(command) && preparation.deed(
            PrepareStep::Tar,
        ) == Deed::HasBinary(command.binary) && (preparation.deed(PrepareStep::Archive) matches
            Deed::IsFile(archive) && (preparation.deed(PrepareStep::CreateScratch) matches
            Deed::CreateDirectory(scratch) && command.args == seq![
            "-xf"@,
            lossy_path(archive),
            "-C"@,
            lossy_path(scratch),
        ])),
        preparation.deed(PrepareStep::CreateScratch) matches Deed::CreateDirectory(scratch)
            && preparation.deed(PrepareStep::RemoveScratch) == Deed::RemoveDirectory(scratch)
            && scratch == preparation.scratch.bytes(),
        preparation.deed(PrepareStep::Prefix) matches Deed::IsDirectory(prefix) && preparation.deed(
            PrepareStep::CreatePrefix,
        ) == Deed::CreateDirectory(prefix) && prefix == prefix_of(preparation.workspace_dir.bytes()),
        preparation.deed(PrepareStep::WriteMarker) matches Deed::WriteFile { path, .. }
            && preparation.deed(PrepareStep::VulkanMarker) == Deed::IsFile(path) && preparation.deed(
            PrepareStep::Marker,
        ) == Deed::IsFile(path),
        preparation.deed(PrepareStep::Wine) == Deed::HasBinary(
            preparation.variables.command(Tool::Wine),
        ),
        set_to(preparation.environment(), "WINEPREFIX"@) == Some(
            lossy_path(prefix_of(preparation.workspace_dir.bytes())),
        ),
{
    wine_runs_in_its_prefix(
        prefix_of(preparation.workspace_dir.bytes()),
        if preparation.state.marker_found {
            VulkanStatus::AlreadyConfigured
        } else {
            VulkanStatus::NotConfigured
        },
        preparation.variables,
    );
}

/// A prefix counts as configured before only where its marker was found, and a prefix that is there is
/// not made again. A tool, archive or script that is missing ends the preparation.
pub proof fn a_marked_prefix_is_kept(state: PrepareState, step: PrepareStep, reply: LauncherReply)
    requires
        state.progress == Progress::<PrepareStep, VulkanStatus>::At(step),
    ensures
        prepare_after(state, reply).progress == Progress::<PrepareStep, VulkanStatus>::Succeeded(
            VulkanStatus::AlreadyConfigured,
        ) <==> step is VulkanMarker && reply is Yes,
        prepare_after(state, reply).progress == Progress::<PrepareStep, VulkanStatus>::At(
            PrepareStep::CreatePrefix,
        ) <==> step is Prefix && !(reply is Yes),
        !(prepare_after(state, reply).progress == Progress::<PrepareStep, VulkanStatus>::Succeeded(
            VulkanStatus::NotConfigured,
        )),
        (step is Wine || step is Wineboot || step is Wineserver || step is Archive || step is Tar
            || step is Bash) && !(reply is Yes) ==> prepare_after(state, reply).progress
            == Progress::<PrepareStep, VulkanStatus>::Failed(step, reply),
        (step is CreatePrefix || step is Initialize || step is WaitForServer || step
            is CreateScratch) && reply.went_wrong() ==> prepare_after(state, reply).progress
            == Progress::<PrepareStep, VulkanStatus>::Failed(step, reply),
        step is Script && !(reply is Yes) ==> prepare_after(state, reply).failure == Some(
            (step, reply),
        ),
        (step is Extract || step is RunScript || step is WriteMarker) && reply.went_wrong()
            ==> prepare_after(state, reply).failure == Some((step, reply)),
        step is Marker ==> prepare_after(state, reply).marker_found == (reply is Yes),
{
}

/// The installation looks for its marker where it writes it, and each run calls the winetricks that was
/// looked for, quietly, in the prefix.
pub proof fn an_installation_runs_in_its_prefix(installation: Installation, trick: Trick)
    ensures
        installation.deed(DependencyStep::WriteMarker) matches Deed::WriteFile { path, .. }
            && installation.deed(DependencyStep::Marker) == Deed::IsFile(path),
        installation.deed(DependencyStep::Install(trick)) matches Deed::Run(command)
            && installation.deed(DependencyStep::Winetricks) == Deed::HasBinary(command.binary)
            && command.args[0] == "-q"@ && command.args.skip(1) == trick.verbs() && set_to(
            command.envs,
            "WINEPREFIX"@,
        ) == Some(lossy_path(installation.prefix.bytes())),
        dependency_next(DependencyStep::Marker, LauncherReply::Yes) == Progress::<
            DependencyStep,
            DependencyStatus,
        >::Succeeded(DependencyStatus::AlreadyInstalled),
        dependency_next(DependencyStep::Winetricks, LauncherReply::No) is Failed,
{
    wine_runs_in_its_prefix(
        installation.prefix.bytes(),
        installation.vulkan_status,
        installation.variables,
    );
    assert((seq!["-q"@] + trick.verbs()).skip(1) =~= trick.verbs());
}

/// The runs of winetricks behind the first: what follows a run, as often as is asked for.
pub open spec fn trick_after(n: nat) -> DependencyStep
    decreases n,
{
    if n == 0 {
        DependencyStep::Install(Trick::RemoveMono)
    } else {
        match trick_after((n - 1) as nat) {
            DependencyStep::Install(trick) => after_trick(trick),
            other => other,
        }
    }
}

/// Every run of winetricks has its turn, each once, before the marker is written; a run installs what
/// its purpose names, and Windows is set back to version ten behind the runs that need an older one.
pub proof fn every_trick_has_its_turn(trick: Trick)
    ensures
        exists|n: nat| n < 6 && #[trigger] trick_after(n) == DependencyStep::Install(trick),
        trick_after(6) == DependencyStep::WriteMarker,
        trick is Dotnet452 || trick is Dotnet48 || trick is D3dx11 ==> occurs(
            trick.purpose(),
            trick.verbs().last(),
        ),
        trick.verbs()[0] == "winxp"@ ==> (after_trick(trick) matches DependencyStep::Install(next)
            && (next.verbs()[0] == "winxp"@ || next.verbs() == seq!["win10"@])),
{
    assert(trick_after(0) == DependencyStep::Install(Trick::RemoveMono));
    assert(trick_after(1) == DependencyStep::Install(Trick::Dotnet452));
    assert(trick_after(2) == DependencyStep::Install(Trick::Dotnet48));
    assert(trick_after(3) == DependencyStep::Install(Trick::Win10));
    assert(trick_after(4) == DependencyStep::Install(Trick::VcRuntime));
    assert(trick_after(5) == DependencyStep::Install(Trick::D3dx11));
    assert(trick_after(6) == DependencyStep::WriteMarker);
    reveal_strlit("install dotnet452 runtime");
    reveal_strlit("install dotnet48 runtime");
    reveal_strlit("install d3dx11_43");
    reveal_strlit("dotnet452");
    reveal_strlit("dotnet48");
    reveal_strlit("d3dx11_43");
    reveal_strlit("winxp");
    reveal_strlit("remove_mono");
    reveal_strlit("win10");
    reveal_strlit("ucrtbase2019");
    assert("install dotnet452 runtime"@.subrange(8, 17) =~= "dotnet452"@);
    assert("install dotnet48 runtime"@.subrange(8, 16) =~= "dotnet48"@);
    assert("install d3dx11_43"@.subrange(8, 17) =~= "d3dx11_43"@);
    assert(occurs_at("install dotnet452 runtime"@, "dotnet452"@, 8));
    assert(occurs_at("install dotnet48 runtime"@, "dotnet48"@, 8));
    assert(occurs_at("install d3dx11_43"@, "d3dx11_43"@, 8));
    assert("winxp"@.len() == 5 && "win10"@.len() == 5 && "winxp"@[3] == 'x' && "win10"@[3] == '1');
    assert("remove_mono"@.len() == 11 && "ucrtbase2019"@.len() == 12 && "d3dx11_43"@.len() == 9);
}

/// The game is started from the directory that was looked at, by the executable that was found there
/// and the Wine that was looked for, in the prepared prefix with the overrides of its Vulkan status.
pub proof fn the_game_is_started_where_it_was_found(launch: Launch)
    ensures
        launch.deed(LaunchStep::Start) matches Deed::Spawn { command, directory } && {
            &&& launch.deed(LaunchStep::GameDirectory) == Deed::IsDirectory(directory)
            &&& directory == launch.game_dir.bytes()
            &&& command.args.len() == 1
            &&& launch.deed(LaunchStep::Executable) == Deed::IsFile(
                join_bytes(directory, command.args[0]),
            )
            &&& launch.deed(LaunchStep::Wine) == Deed::HasBinary(command.binary)
            &&& set_to(command.envs, "WINEPREFIX"@) == Some(lossy_path(launch.prefix.bytes()))
            &&& launch.variables.dll_overrides is None ==> set_to(
                command.envs,
                "WINEDLLOVERRIDES"@,
            ) == Some(overrides_of(launch.vulkan_status))
        },
{
    wine_runs_in_its_prefix(launch.prefix.bytes(), launch.vulkan_status, launch.variables);
}

/// The game is started only where its directory, its executable and Wine were found, one after the
/// other; what is missing is told, and where all is there the start decides.
pub proof fn a_start_needs_everything(step: LaunchStep, reply: LauncherReply)
    ensures
        launch_next(step, reply) == Progress::<LaunchStep, ()>::At(LaunchStep::Start)
            <==> step is Wine && reply is Yes,
        launch_next(step, reply) == Progress::<LaunchStep, ()>::At(LaunchStep::Wine)
            <==> step is Executable && reply is Yes,
        launch_next(step, reply) == Progress::<LaunchStep, ()>::At(LaunchStep::Executable)
            <==> step is GameDirectory && reply is Yes,
        launch_next(step, reply) == Progress::<LaunchStep, ()>::Succeeded(()) <==> step is Start
            && !reply.went_wrong(),
        !(step is Start) && !(reply is Yes) ==> launch_next(step, reply) == Progress::<
            LaunchStep,
            (),
        >::Failed(step, reply),
{
}

/// What is told of a start agrees with what is told of the game directory itself.
pub proof fn a_start_is_refused_as_the_directory_is(
    launch: Launch,
    reply: LauncherReply,
    directories: Set<Seq<Seq<u8>>>,
    files: Set<Seq<Seq<u8>>>,
)
    ensures
        !directories.contains(crate::paths::path_class(launch.game_dir.bytes())) ==> Some(
            launch.trouble(LaunchStep::GameDirectory, reply),
        ) == crate::launcher::game_directory_trouble(launch.game_dir.bytes(), directories, files),
        directories.contains(crate::paths::path_class(launch.game_dir.bytes())) && !files.contains(
            crate::paths::path_class(executable_of(launch.game_dir.bytes())),
        ) ==> Some(launch.trouble(LaunchStep::Executable, reply))
            == crate::launcher::game_directory_trouble(launch.game_dir.bytes(), directories, files),
{
}

/// A missing tool is told under its name, whatever command stands for it.
pub proof fn a_missing_tool_is_told_by_its_name(
    preparation: Preparation,
    installation: Installation,
    launch: Launch,
    reply: LauncherReply,
)
    ensures
        preparation.trouble(PrepareStep::Wine, reply) == Trouble::MissingBinary(Tool::Wine.label()),
        preparation.trouble(PrepareStep::Wineboot, reply) == Trouble::MissingBinary(
            Tool::Wineboot.label(),
        ),
        preparation.trouble(PrepareStep::Wineserver, reply) == Trouble::MissingBinary(
            Tool::Wineserver.label(),
        ),
        preparation.trouble(PrepareStep::Tar, reply) == Trouble::MissingBinary(Tool::Tar.label()),
        preparation.trouble(PrepareStep::Bash, reply) == Trouble::MissingBinary(Tool::Bash.label()),
        installation.trouble(DependencyStep::Winetricks, reply) == Trouble::MissingBinary(
            Tool::Winetricks.label(),
        ),
        launch.trouble(LaunchStep::Wine, reply) == Trouble::MissingBinary(Tool::Wine.label()),
        preparation.deed(PrepareStep::Archive) matches Deed::IsFile(archive) && preparation.trouble(
            PrepareStep::Archive,
            reply,
        ) == Trouble::MissingVulkanArchive(archive),
        preparation.deed(PrepareStep::Script) matches Deed::IsFile(script) && preparation.trouble(
            PrepareStep::Script,
            reply,
        ) == Trouble::MissingSetupScript(script),
{
}

}
