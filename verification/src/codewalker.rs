//! Getting, updating and building the external tools, step by step.

use crate::outputs::complaint;
use crate::paths::{self, join_bytes, lossy_path, parent_bytes, shown_path, PathBytes};
use crate::programs::{
    opt_parts, ActionParts, Asked, AskedParts, CommandParts, ProgramEnd, StepReply, ToolAction,
    ToolCommand,
};
use crate::setup::ToolPaths;
use crate::text::{self, texts};
use std::path::PathBuf;
use vstd::prelude::*;
use vstd::utf8::encode_utf8;

verus! {

/// The check for an update of CodeWalker. What `Remote` holds is the local revision.
pub enum UpdateCheck {
    Git,
    Present,
    Checkout,
    Fetch,
    Local,
    Remote(String),
    Pull,
    Build,
    Finished(Result<String, String>),
}

/// What the check for an update holds.
pub enum UpdateStage {
    Git,
    Present,
    Checkout,
    Fetch,
    Local,
    Remote(Seq<char>),
    Pull,
    Build,
    Finished(Result<Seq<char>, Seq<char>>),
}

/// What the end of an operation holds.
pub open spec fn outcome(r: Result<String, String>) -> Result<Seq<char>, Seq<char>> {
    match r {
        Ok(message) => Ok(message@),
        Err(message) => Err(message@),
    }
}

impl View for UpdateCheck {
    type V = UpdateStage;

    open spec fn view(&self) -> UpdateStage {
        match *self {
            UpdateCheck::Git => UpdateStage::Git,
            UpdateCheck::Present => UpdateStage::Present,
            UpdateCheck::Checkout => UpdateStage::Checkout,
            UpdateCheck::Fetch => UpdateStage::Fetch,
            UpdateCheck::Local => UpdateStage::Local,
            UpdateCheck::Remote(local) => UpdateStage::Remote(local@),
            UpdateCheck::Pull => UpdateStage::Pull,
            UpdateCheck::Build => UpdateStage::Build,
            UpdateCheck::Finished(r) => UpdateStage::Finished(outcome(r)),
        }
    }
}

/// What the check says where the source of CodeWalker is missing.
pub const MISSING_SOURCE: &'static str = "CodeWalker source is missing. Run the setup wizard first.";

/// What the check says where the source of CodeWalker is no checkout.
pub const NO_CHECKOUT: &'static str = "CodeWalker is present but not a git checkout, so automatic updates are unavailable.";

impl UpdateStage {
    /// After a piece of work: the next stage, or the end with its message.
    pub open spec fn onward(next: UpdateStage, reply: StepReply) -> UpdateStage {
        match reply {
            StepReply::Failed(message) => UpdateStage::Finished(Err(message@)),
            _ => next,
        }
    }

    /// What a piece of work printed.
    pub open spec fn printed(reply: StepReply) -> Seq<char> {
        match reply {
            StepReply::Done(output) => output@,
            _ => Seq::empty(),
        }
    }

    /// What follows a stage.
    pub open spec fn after(self, reply: StepReply) -> UpdateStage {
        match self {
            UpdateStage::Git => UpdateStage::onward(UpdateStage::Present, reply),
            UpdateStage::Present => if reply is Yes {
                UpdateStage::Checkout
            } else {
                UpdateStage::Finished(Err(MISSING_SOURCE@))
            },
            UpdateStage::Checkout => if reply is Yes {
                UpdateStage::Fetch
            } else {
                UpdateStage::Finished(Ok(NO_CHECKOUT@))
            },
            UpdateStage::Fetch => UpdateStage::onward(UpdateStage::Local, reply),
            UpdateStage::Local => UpdateStage::onward(
                UpdateStage::Remote(UpdateStage::printed(reply)),
                reply,
            ),
            UpdateStage::Remote(local) => UpdateStage::onward(
                if UpdateStage::printed(reply) == local {
                    UpdateStage::Finished(Ok("CodeWalker is already up to date."@))
                } else {
                    UpdateStage::Pull
                },
                reply,
            ),
            UpdateStage::Pull => UpdateStage::onward(UpdateStage::Build, reply),
            UpdateStage::Build => UpdateStage::onward(
                UpdateStage::Finished(Ok("Updated CodeWalker and rebuilt CwAssetTool."@)),
                reply,
            ),
            UpdateStage::Finished(r) => UpdateStage::Finished(r),
        }
    }
}

fn continue_update(next: UpdateCheck, reply: StepReply) -> (r: UpdateCheck)
    ensures
        r@ == UpdateStage::onward(next@, reply),
{
    match reply {
        StepReply::Failed(message) => UpdateCheck::Finished(Err(message)),
        _ => next,
    }
}

fn printed_text(reply: &StepReply) -> (r: String)
    ensures
        r@ == UpdateStage::printed(*reply),
{
    match reply {
        StepReply::Done(output) => output.clone(),
        _ => String::new(),
    }
}

fn is_yes(reply: &StepReply) -> (r: bool)
    ensures
        r == (*reply is Yes),
{
    match reply {
        StepReply::Yes => true,
        _ => false,
    }
}

/// Begins to check for an update of CodeWalker.
pub fn check_codewalker_updates() -> (r: UpdateCheck)
    ensures
        r@ == UpdateStage::Git,
{
    UpdateCheck::Git
}

impl UpdateCheck {
    /// What follows, given how the last step went.
    pub fn after(self, reply: StepReply) -> (r: UpdateCheck)
        ensures
            r@ == self@.after(reply),
    {
        match self {
            UpdateCheck::Git => continue_update(UpdateCheck::Present, reply),
            UpdateCheck::Present => if is_yes(&reply) {
                UpdateCheck::Checkout
            } else {
                UpdateCheck::Finished(Err(MISSING_SOURCE.to_owned()))
            },
            UpdateCheck::Checkout => if is_yes(&reply) {
                UpdateCheck::Fetch
            } else {
                UpdateCheck::Finished(Ok(NO_CHECKOUT.to_owned()))
            },
            UpdateCheck::Fetch => continue_update(UpdateCheck::Local, reply),
            UpdateCheck::Local => {
                let local = printed_text(&reply);
                continue_update(UpdateCheck::Remote(local), reply)
            },
            UpdateCheck::Remote(local) => {
                let remote = printed_text(&reply);
                let next = if text::same_text(remote.as_str(), local.as_str()) {
                    UpdateCheck::Finished(Ok("CodeWalker is already up to date.".to_owned()))
                } else {
                    UpdateCheck::Pull
                };
                continue_update(next, reply)
            },
            UpdateCheck::Pull => continue_update(UpdateCheck::Build, reply),
            UpdateCheck::Build => continue_update(
                UpdateCheck::Finished(
                    Ok("Updated CodeWalker and rebuilt CwAssetTool.".to_owned()),
                ),
                reply,
            ),
            UpdateCheck::Finished(r) => UpdateCheck::Finished(r),
        }
    }
}

/// The tools are rebuilt only where the revisions differ: from the comparison of the revisions
/// the check goes on to pull exactly when the two are not equal and reading them did not fail.
pub proof fn equal_revisions_need_no_update(local: Seq<char>, reply: StepReply)
    requires
        !(reply is Failed),
    ensures
        UpdateStage::Remote(local).after(reply) == UpdateStage::Pull <==> UpdateStage::printed(
            reply,
        ) != local,
{
}

/// The download of CodeWalker.
#[derive(Clone, Copy, PartialEq, Eq, Structural)]
pub enum DownloadStep {
    Git,
    CreateFolder,
    Present,
    Exists,
    Remove,
    Clone,
}

/// How far a download has come.
pub enum Download {
    At(DownloadStep),
    Finished(Result<(), String>),
}

impl Download {
    /// After a piece of work: the next step, or the end with its message.
    pub open spec fn onward(next: Download, reply: StepReply) -> Download {
        match reply {
            StepReply::Failed(message) => Download::Finished(Err(message)),
            _ => next,
        }
    }

    /// What follows a step. What is already there is kept; a folder without the source is
    /// removed before the source is fetched.
    pub open spec fn following(self, reply: StepReply) -> Download {
        match self {
            Download::At(step) => match step {
                DownloadStep::Git => Download::onward(
                    Download::At(DownloadStep::CreateFolder),
                    reply,
                ),
                DownloadStep::CreateFolder => Download::onward(
                    Download::At(DownloadStep::Present),
                    reply,
                ),
                DownloadStep::Present => if reply is Yes {
                    Download::Finished(Ok(()))
                } else {
                    Download::At(DownloadStep::Exists)
                },
                DownloadStep::Exists => Download::At(
                    if reply is Yes {
                        DownloadStep::Remove
                    } else {
                        DownloadStep::Clone
                    },
                ),
                DownloadStep::Remove => Download::onward(Download::At(DownloadStep::Clone), reply),
                DownloadStep::Clone => Download::onward(Download::Finished(Ok(())), reply),
            },
            Download::Finished(r) => Download::Finished(r),
        }
    }

    fn go_on(next: Download, reply: StepReply) -> (r: Download)
        ensures
            r == Download::onward(next, reply),
    {
        match reply {
            StepReply::Failed(message) => Download::Finished(Err(message)),
            _ => next,
        }
    }

    /// What follows, given how the last step went.
    pub fn after(self, reply: StepReply) -> (r: Download)
        ensures
            r == self.following(reply),
    {
        match self {
            Download::At(step) => match step {
                DownloadStep::Git => Download::go_on(
                    Download::At(DownloadStep::CreateFolder),
                    reply,
                ),
                DownloadStep::CreateFolder => Download::go_on(
                    Download::At(DownloadStep::Present),
                    reply,
                ),
                DownloadStep::Present => if is_yes(&reply) {
                    Download::Finished(Ok(()))
                } else {
                    Download::At(DownloadStep::Exists)
                },
                DownloadStep::Exists => if is_yes(&reply) {
                    Download::At(DownloadStep::Remove)
                } else {
                    Download::At(DownloadStep::Clone)
                },
                DownloadStep::Remove => Download::go_on(Download::At(DownloadStep::Clone), reply),
                DownloadStep::Clone => Download::go_on(Download::Finished(Ok(())), reply),
            },
            Download::Finished(r) => Download::Finished(r),
        }
    }
}

/// Begins to download CodeWalker.
pub fn download_codewalker() -> (r: Download)
    ensures
        r == Download::At(DownloadStep::Git),
{
    Download::At(DownloadStep::Git)
}

/// A source that is present is never removed.
pub proof fn a_present_source_is_kept(reply: StepReply)
    requires
        reply is Yes,
    ensures
        Download::At(DownloadStep::Present).following(reply) == Download::Finished(Ok(())),
{
}

/// What is said where git could not be started to look for it, or to read a revision.
pub const NO_GIT: &'static str = "Failed to start git";

fn word(text: &str) -> (r: PathBuf)
    ensures
        r.bytes() == encode_utf8(text@),
{
    paths::path_from(text)
}

/// The run of git that shows whether it is there.
pub open spec fn git_probe() -> CommandParts {
    CommandParts {
        program: "git"@,
        arguments: seq![encode_utf8("--version"@)],
        directory: None,
        asked: AskedParts::Success { label: "git --version"@ },
        failure: NO_GIT@,
    }
}

/// The run of git that fetches the source of CodeWalker.
pub open spec fn clone_of(tools: ToolPaths) -> CommandParts {
    CommandParts {
        program: "git"@,
        arguments: seq![
            encode_utf8("clone"@),
            encode_utf8("--depth"@),
            encode_utf8("1"@),
            encode_utf8("https://github.com/dexyfex/CodeWalker"@),
            tools.codewalker_dir.bytes(),
        ],
        directory: None,
        asked: AskedParts::Success { label: "git clone CodeWalker"@ },
        failure: "Failed to start git clone for CodeWalker"@,
    }
}

/// The run of git that fetches what is new.
pub open spec fn fetch_of(tools: ToolPaths) -> CommandParts {
    CommandParts {
        program: "git"@,
        arguments: seq![
            encode_utf8("-C"@),
            tools.codewalker_dir.bytes(),
            encode_utf8("fetch"@),
            encode_utf8("origin"@),
            encode_utf8("master"@),
        ],
        directory: None,
        asked: AskedParts::Success { label: "git fetch CodeWalker"@ },
        failure: "Failed to fetch CodeWalker updates"@,
    }
}

/// The run of git that takes over what is new.
pub open spec fn pull_of(tools: ToolPaths) -> CommandParts {
    CommandParts {
        program: "git"@,
        arguments: seq![
            encode_utf8("-C"@),
            tools.codewalker_dir.bytes(),
            encode_utf8("pull"@),
            encode_utf8("--ff-only"@),
            encode_utf8("origin"@),
            encode_utf8("master"@),
        ],
        directory: None,
        asked: AskedParts::Success { label: "git pull CodeWalker"@ },
        failure: "Failed to update CodeWalker"@,
    }
}

/// The words of the run of git that prints a revision.
pub open spec fn revision_words(tools: ToolPaths, name: Seq<char>) -> Seq<Seq<char>> {
    seq!["-C"@, lossy_path(tools.codewalker_dir.bytes()), "rev-parse"@, name]
}

/// The run of git that prints a revision.
pub open spec fn revision_of(tools: ToolPaths, name: Seq<char>) -> CommandParts {
    let words = revision_words(tools, name);
    CommandParts {
        program: "git"@,
        arguments: seq![
            encode_utf8(words[0]),
            encode_utf8(words[1]),
            encode_utf8(words[2]),
            encode_utf8(words[3]),
        ],
        directory: None,
        asked: AskedParts::Output { words },
        failure: NO_GIT@,
    }
}

/// The run of dotnet that builds the helper in its folder.
pub open spec fn build_command_of(tools: ToolPaths, folder: Seq<u8>) -> CommandParts {
    CommandParts {
        program: "dotnet"@,
        arguments: seq![
            encode_utf8("build"@),
            encode_utf8("-c"@),
            encode_utf8("Release"@),
            tools.cwassettool_project.bytes(),
        ],
        directory: Some(folder),
        asked: AskedParts::Success { label: "dotnet build -c Release CwAssetTool"@ },
        failure: "Failed to start dotnet build for CwAssetTool"@,
    }
}

fn git_probe_command() -> (r: ToolCommand)
    ensures
        r@ == git_probe(),
{
    let mut arguments: Vec<PathBuf> = Vec::new();
    arguments.push(word("--version"));
    let command = ToolCommand {
        program: "git",
        arguments,
        directory: None,
        asked: Asked::Success { label: "git --version" },
        failure: NO_GIT,
    };
    assert(command@ =~= git_probe());
    command
}

fn clone_command(tools: &ToolPaths) -> (r: ToolCommand)
    ensures
        r@ == clone_of(*tools),
{
    let mut arguments: Vec<PathBuf> = Vec::new();
    arguments.push(word("clone"));
    arguments.push(word("--depth"));
    arguments.push(word("1"));
    arguments.push(word(tools.codewalker_clone_url()));
    arguments.push(tools.codewalker_dir.clone());
    let command = ToolCommand {
        program: "git",
        arguments,
        directory: None,
        asked: Asked::Success { label: "git clone CodeWalker" },
        failure: "Failed to start git clone for CodeWalker",
    };
    assert(command@ =~= clone_of(*tools));
    command
}

fn fetch_command(tools: &ToolPaths) -> (r: ToolCommand)
    ensures
        r@ == fetch_of(*tools),
{
    let mut arguments: Vec<PathBuf> = Vec::new();
    arguments.push(word("-C"));
    arguments.push(tools.codewalker_dir.clone());
    arguments.push(word("fetch"));
    arguments.push(word("origin"));
    arguments.push(word("master"));
    let command = ToolCommand {
        program: "git",
        arguments,
        directory: None,
        asked: Asked::Success { label: "git fetch CodeWalker" },
        failure: "Failed to fetch CodeWalker updates",
    };
    assert(command@ =~= fetch_of(*tools));
    command
}

fn pull_command(tools: &ToolPaths) -> (r: ToolCommand)
    ensures
        r@ == pull_of(*tools),
{
    let mut arguments: Vec<PathBuf> = Vec::new();
    arguments.push(word("-C"));
    arguments.push(tools.codewalker_dir.clone());
    arguments.push(word("pull"));
    arguments.push(word("--ff-only"));
    arguments.push(word("origin"));
    arguments.push(word("master"));
    let command = ToolCommand {
        program: "git",
        arguments,
        directory: None,
        asked: Asked::Success { label: "git pull CodeWalker" },
        failure: "Failed to update CodeWalker",
    };
    assert(command@ =~= pull_of(*tools));
    command
}

fn revision_command(tools: &ToolPaths, name: &str) -> (r: ToolCommand)
    ensures
        r@ == revision_of(*tools, name@),
{
    let mut words: Vec<String> = Vec::new();
    words.push("-C".to_owned());
    words.push(paths::lossy(tools.codewalker_dir.as_path()));
    words.push("rev-parse".to_owned());
    words.push(name.to_owned());
    let mut arguments: Vec<PathBuf> = Vec::new();
    arguments.push(word(words[0].as_str()));
    arguments.push(word(words[1].as_str()));
    arguments.push(word(words[2].as_str()));
    arguments.push(word(words[3].as_str()));
    assert(texts(words@) =~= revision_words(*tools, name@));
    let command = ToolCommand {
        program: "git",
        arguments,
        directory: None,
        asked: Asked::Output { words },
        failure: NO_GIT,
    };
    assert(command@.arguments =~= revision_of(*tools, name@).arguments);
    command
}

fn build_command(tools: &ToolPaths, folder: &PathBuf) -> (r: ToolCommand)
    ensures
        r@ == build_command_of(*tools, folder.bytes()),
{
    let mut arguments: Vec<PathBuf> = Vec::new();
    arguments.push(word("build"));
    arguments.push(word("-c"));
    arguments.push(word("Release"));
    arguments.push(tools.cwassettool_project.clone());
    let command = ToolCommand {
        program: "dotnet",
        arguments,
        directory: Some(folder.clone()),
        asked: Asked::Success { label: "dotnet build -c Release CwAssetTool" },
        failure: "Failed to start dotnet build for CwAssetTool",
    };
    assert(command@ =~= build_command_of(*tools, folder.bytes()));
    command
}

impl Download {
    /// What has to be done at this point of a download.
    pub open spec fn asks(self, tools: ToolPaths) -> Option<ActionParts> {
        match self {
            Download::At(step) => Some(
                match step {
                    DownloadStep::Git => ActionParts::Run(git_probe()),
                    DownloadStep::CreateFolder => ActionParts::CreateFolder(
                        tools.external_dir.bytes(),
                    ),
                    DownloadStep::Present => ActionParts::IsFile(tools.codewalker_mark()),
                    DownloadStep::Exists => ActionParts::Exists(tools.codewalker_dir.bytes()),
                    DownloadStep::Remove => ActionParts::RemoveFolder(tools.codewalker_dir.bytes()),
                    DownloadStep::Clone => ActionParts::Run(clone_of(tools)),
                },
            ),
            Download::Finished(_) => None,
        }
    }

    /// What has to be done at this point of a download; nothing where it has ended.
    pub fn action(&self, tools: &ToolPaths) -> (r: Option<ToolAction>)
        ensures
            opt_parts(r) == self.asks(*tools),
    {
        match self {
            Download::At(step) => Some(
                match step {
                    DownloadStep::Git => ToolAction::Run(git_probe_command()),
                    DownloadStep::CreateFolder => ToolAction::CreateFolder(
                        tools.external_dir.clone(),
                    ),
                    DownloadStep::Present => ToolAction::IsFile(tools.codewalker_project()),
                    DownloadStep::Exists => ToolAction::Exists(tools.codewalker_dir.clone()),
                    DownloadStep::Remove => ToolAction::RemoveFolder(tools.codewalker_dir.clone()),
                    DownloadStep::Clone => ToolAction::Run(clone_command(tools)),
                },
            ),
            Download::Finished(_) => None,
        }
    }
}

/// A download that has come to the cloning succeeds exactly when the run of git does.
pub proof fn a_download_succeeds_by_its_clone(
    tools: ToolPaths,
    end: Option<ProgramEnd>,
    reply: StepReply,
)
    requires
        reply@ == clone_of(tools).judged(end),
    ensures
        Download::At(DownloadStep::Clone).asks(tools) == Some(ActionParts::Run(clone_of(tools))),
        Download::At(DownloadStep::Clone).following(reply) == Download::Finished(Ok(())) <==> (
        end matches Some(e) && e.success),
{
}

/// The source is cloned only where it is not there, and only into a folder that is not there: a
/// download comes to the cloning from a question that found no folder, or from the removal of one.
pub proof fn a_clone_needs_an_absent_folder(before: Download, reply: StepReply)
    requires
        before.following(reply) == Download::At(DownloadStep::Clone),
    ensures
        before == Download::At(DownloadStep::Exists) && !(reply is Yes) || before == Download::At(
            DownloadStep::Remove,
        ) && !(reply is Failed),
{
}

impl UpdateStage {
    /// What has to be done at a stage.
    pub open spec fn asks(self, tools: ToolPaths) -> Option<ActionParts> {
        match self {
            UpdateStage::Git => Some(ActionParts::Run(git_probe())),
            UpdateStage::Present => Some(ActionParts::IsFile(tools.codewalker_mark())),
            UpdateStage::Checkout => Some(
                ActionParts::Exists(join_bytes(tools.codewalker_dir.bytes(), ".git"@)),
            ),
            UpdateStage::Fetch => Some(ActionParts::Run(fetch_of(tools))),
            UpdateStage::Local => Some(ActionParts::Run(revision_of(tools, "HEAD"@))),
            UpdateStage::Remote(_) => Some(ActionParts::Run(revision_of(tools, "origin/master"@))),
            UpdateStage::Pull => Some(ActionParts::Run(pull_of(tools))),
            UpdateStage::Build => Some(ActionParts::BuildHelper),
            UpdateStage::Finished(_) => None,
        }
    }
}

impl UpdateCheck {
    /// What has to be done at this point of the check; nothing where it has ended.
    pub fn action(&self, tools: &ToolPaths) -> (r: Option<ToolAction>)
        ensures
            opt_parts(r) == self@.asks(*tools),
    {
        match self {
            UpdateCheck::Git => Some(ToolAction::Run(git_probe_command())),
            UpdateCheck::Present => Some(ToolAction::IsFile(tools.codewalker_project())),
            UpdateCheck::Checkout => Some(
                ToolAction::Exists(paths::join(tools.codewalker_dir.as_path(), ".git")),
            ),
            UpdateCheck::Fetch => Some(ToolAction::Run(fetch_command(tools))),
            UpdateCheck::Local => Some(ToolAction::Run(revision_command(tools, "HEAD"))),
            UpdateCheck::Remote(_) => Some(
                ToolAction::Run(revision_command(tools, "origin/master")),
            ),
            UpdateCheck::Pull => Some(ToolAction::Run(pull_command(tools))),
            UpdateCheck::Build => Some(ToolAction::BuildHelper),
            UpdateCheck::Finished(_) => None,
        }
    }
}

/// The build of the helper. What `Compile` holds is the folder in which it is built.
pub enum HelperBuild {
    Project,
    Compile(PathBuf),
    Binary,
    Finished(Result<(), String>),
}

/// What the build of the helper holds.
pub enum BuildStage {
    Project,
    Compile(Seq<u8>),
    Binary,
    Finished(Option<Seq<char>>),
}

impl View for HelperBuild {
    type V = BuildStage;

    open spec fn view(&self) -> BuildStage {
        match *self {
            HelperBuild::Project => BuildStage::Project,
            HelperBuild::Compile(folder) => BuildStage::Compile(folder.bytes()),
            HelperBuild::Binary => BuildStage::Binary,
            HelperBuild::Finished(r) => BuildStage::Finished(complaint(r)),
        }
    }
}

impl BuildStage {
    /// What has to be done at a stage.
    pub open spec fn asks(self, tools: ToolPaths) -> Option<ActionParts> {
        match self {
            BuildStage::Project => Some(ActionParts::IsFile(tools.cwassettool_project.bytes())),
            BuildStage::Compile(folder) => Some(
                ActionParts::Run(build_command_of(tools, folder)),
            ),
            BuildStage::Binary => Some(ActionParts::IsFile(tools.cwassettool_bin.bytes())),
            BuildStage::Finished(_) => None,
        }
    }

    /// What follows a stage. A build needs the source, and has to leave the binary behind.
    pub open spec fn after(self, tools: ToolPaths, reply: StepReply) -> BuildStage {
        match self {
            BuildStage::Project => if !(reply is Yes) {
                BuildStage::Finished(
                    Some(
                        "CwAssetTool source was not found at "@ + shown_path(
                            tools.cwassettool_project.bytes(),
                        ),
                    ),
                )
            } else {
                match parent_bytes(tools.cwassettool_project.bytes()) {
                    Some(folder) => BuildStage::Compile(folder),
                    None => BuildStage::Finished(Some("Invalid CwAssetTool project path"@)),
                }
            },
            BuildStage::Compile(_) => match reply {
                StepReply::Failed(message) => BuildStage::Finished(Some(message@)),
                _ => BuildStage::Binary,
            },
            BuildStage::Binary => BuildStage::Finished(
                if reply is Yes {
                    None
                } else {
                    Some(
                        "CwAssetTool build completed but the binary was not found at "@
                            + shown_path(tools.cwassettool_bin.bytes()),
                    )
                },
            ),
            BuildStage::Finished(r) => BuildStage::Finished(r),
        }
    }
}

impl ToolPaths {
    /// Begins to build CwAssetTool.
    pub fn build_cwassettool(&self) -> (r: HelperBuild)
        ensures
            r@ == BuildStage::Project,
    {
        HelperBuild::Project
    }
}

impl HelperBuild {
    /// What has to be done at this point of the build; nothing where it has ended.
    pub fn action(&self, tools: &ToolPaths) -> (r: Option<ToolAction>)
        ensures
            opt_parts(r) == self@.asks(*tools),
    {
        match self {
            HelperBuild::Project => Some(ToolAction::IsFile(tools.cwassettool_project.clone())),
            HelperBuild::Compile(folder) => Some(ToolAction::Run(build_command(tools, folder))),
            HelperBuild::Binary => Some(ToolAction::IsFile(tools.cwassettool_bin.clone())),
            HelperBuild::Finished(_) => None,
        }
    }

    /// What follows, given how the last step went.
    pub fn after(self, tools: &ToolPaths, reply: StepReply) -> (r: HelperBuild)
        ensures
            r@ == self@.after(*tools, reply),
    {
        match self {
            HelperBuild::Project => {
                if !is_yes(&reply) {
                    let mut message = "CwAssetTool source was not found at ".to_owned();
                    message.append(paths::shown(tools.cwassettool_project.as_path()).as_str());
                    return HelperBuild::Finished(Err(message));
                }
                match paths::parent(tools.cwassettool_project.as_path()) {
                    Some(folder) => HelperBuild::Compile(folder),
                    None => HelperBuild::Finished(
                        Err("Invalid CwAssetTool project path".to_owned()),
                    ),
                }
            },
            HelperBuild::Compile(_) => match reply {
                StepReply::Failed(message) => HelperBuild::Finished(Err(message)),
                _ => HelperBuild::Binary,
            },
            HelperBuild::Binary => {
                if is_yes(&reply) {
                    return HelperBuild::Finished(Ok(()));
                }
                let mut message =
                    "CwAssetTool build completed but the binary was not found at ".to_owned();
                message.append(paths::shown(tools.cwassettool_bin.as_path()).as_str());
                HelperBuild::Finished(Err(message))
            },
            HelperBuild::Finished(r) => HelperBuild::Finished(r),
        }
    }
}

/// A build succeeds only once the binary was found: it ends well exactly after that question was
/// answered with yes.
pub proof fn a_build_leaves_the_binary(before: BuildStage, tools: ToolPaths, reply: StepReply)
    requires
        !(before is Finished),
    ensures
        before.after(tools, reply) == BuildStage::Finished(None) <==> before is Binary
            && reply is Yes,
{
}

/// The source is cloned into the folder that was asked for and, where it stood in the way, removed;
/// git works in that folder ever after.
pub proof fn git_works_in_one_folder(tools: ToolPaths, name: Seq<char>)
    ensures
        ({
            let folder = tools.codewalker_dir.bytes();
            &&& Download::At(DownloadStep::Exists).asks(tools) == Some(ActionParts::Exists(folder))
            &&& Download::At(DownloadStep::Remove).asks(tools) == Some(
                ActionParts::RemoveFolder(folder),
            )
            &&& clone_of(tools).arguments[0] == encode_utf8("clone"@)
            &&& clone_of(tools).arguments.last() == folder
            &&& fetch_of(tools).arguments[0] == encode_utf8("-C"@) && fetch_of(tools).arguments[1]
                == folder
            &&& pull_of(tools).arguments[0] == encode_utf8("-C"@) && pull_of(tools).arguments[1]
                == folder
            &&& revision_of(tools, name).arguments[1] == encode_utf8(lossy_path(folder))
            &&& revision_of(tools, name).arguments.last() == encode_utf8(name)
            &&& UpdateStage::Checkout.asks(tools) == Some(
                ActionParts::Exists(join_bytes(folder, ".git"@)),
            )
        }),
{
}

/// What is fetched is what is pulled: the same branch of the same origin, and the revision that is
/// compared is the one of that branch.
pub proof fn what_was_fetched_is_pulled(tools: ToolPaths, local: Seq<char>)
    ensures
        fetch_of(tools).arguments.skip(3) == pull_of(tools).arguments.skip(4),
        fetch_of(tools).arguments.skip(3) == seq![encode_utf8("origin"@), encode_utf8("master"@)],
        UpdateStage::Remote(local).asks(tools) == Some(
            ActionParts::Run(revision_of(tools, "origin"@ + "/"@ + "master"@)),
        ),
        UpdateStage::Local.asks(tools) == Some(ActionParts::Run(revision_of(tools, "HEAD"@))),
        fetch_of(tools).arguments[2] == encode_utf8("fetch"@),
        pull_of(tools).arguments[2] == encode_utf8("pull"@),
        pull_of(tools).arguments[3] == encode_utf8("--ff-only"@),
{
    reveal_strlit("origin");
    reveal_strlit("/");
    reveal_strlit("master");
    reveal_strlit("origin/master");
    assert("origin"@ + "/"@ + "master"@ =~= "origin/master"@);
    assert(fetch_of(tools).arguments.skip(3) =~= seq![encode_utf8("origin"@), encode_utf8("master"@)]);
    assert(pull_of(tools).arguments.skip(4) =~= seq![encode_utf8("origin"@), encode_utf8("master"@)]);
}

/// The helper is built from the project that was asked for, in its folder.
pub proof fn the_helper_is_built_from_its_project(tools: ToolPaths, reply: StepReply)
    requires
        reply is Yes,
    ensures
        BuildStage::Project.asks(tools) == Some(
            ActionParts::IsFile(tools.cwassettool_project.bytes()),
        ),
        parent_bytes(tools.cwassettool_project.bytes()) matches Some(folder) ==> {
            &&& BuildStage::Project.after(tools, reply) == BuildStage::Compile(folder)
            &&& BuildStage::Compile(folder).asks(tools) matches Some(ActionParts::Run(command))
            &&& command.directory == Some(folder)
            &&& command.program == "dotnet"@
            &&& command.arguments[0] == encode_utf8("build"@)
            &&& command.arguments.last() == tools.cwassettool_project.bytes()
        },
        BuildStage::Binary.asks(tools) == Some(ActionParts::IsFile(tools.cwassettool_bin.bytes())),
{
}

/// Any failure ends an operation with what was said of it, and nothing else is done after it.
pub proof fn a_failed_step_ends_the_operation(
    update: UpdateStage,
    download: Download,
    build: BuildStage,
    tools: ToolPaths,
    message: String,
)
    ensures
        update is Git || update is Fetch || update is Local || update is Remote || update is Pull
            || update is Build ==> update.after(StepReply::Failed(message))
            == UpdateStage::Finished(Err(message@)),
        download matches Download::At(step) ==> (step is Git || step is CreateFolder
            || step is Remove || step is Clone ==> download.following(StepReply::Failed(message))
            == Download::Finished(Err(message))),
        build is Compile ==> build.after(tools, StepReply::Failed(message)) == BuildStage::Finished(
            Some(message@),
        ),
        update is Finished ==> update.asks(tools) is None && update.after(
            StepReply::Failed(message),
        ) == update,
        download is Finished ==> download.asks(tools) is None,
        build is Finished ==> build.asks(tools) is None,
{
}

/// The stages of an update follow each other: the source is looked for, fetched, compared, pulled and
/// built, and each is reached only by the success of the one before.
pub proof fn an_update_goes_step_by_step(
    local: String,
    remote: String,
    yes: StepReply,
    tools: ToolPaths,
)
    requires
        yes is Yes,
        local@ != remote@,
    ensures
        ({
            let found = UpdateStage::Git.after(yes).after(yes).after(yes);
            let compared = found.after(yes).after(StepReply::Done(local));
            &&& found.asks(tools) == Some(ActionParts::Run(fetch_of(tools)))
            &&& compared.asks(tools) == Some(ActionParts::Run(revision_of(tools, "origin/master"@)))
            &&& compared.after(StepReply::Done(local)) matches UpdateStage::Finished(r) && r is Ok
            &&& compared.after(StepReply::Done(remote)).asks(tools) == Some(
                ActionParts::Run(pull_of(tools)),
            )
            &&& compared.after(StepReply::Done(remote)).after(yes).asks(tools) == Some(
                ActionParts::BuildHelper,
            )
            &&& compared.after(StepReply::Done(remote)).after(yes).after(yes) matches
                UpdateStage::Finished(end) && end is Ok
        }),
{
}

}
