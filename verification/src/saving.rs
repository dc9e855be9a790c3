//! Saving an asset in place, step by step: it is built at a temporary place, and takes the place
//! of the old file only once it was built.

use crate::helper::{build_call, build_of, rebuild_call, rebuild_of, CallParts, HelperCall};
use crate::paths::{
    self, file_name_text, join_bytes, opt_bytes, parent_bytes, renamed_bytes, shown_path, PathBytes,
};
use crate::setup::ToolPaths;
use crate::text::decimal;
use crate::workspace::{
    backup_of, backup_path_for, manifest_path, temporary_path, temporary_save_path,
};
use std::path::{Path, PathBuf};
use vstd::prelude::*;

verus! {

/// How a step went: a question is answered by `Yes` or `No`; other work is done, or failed; a
/// command that could not even be started is told apart.
pub enum SaveReply {
    Yes,
    No,
    Done,
    Failed(String),
    NotStarted,
}

impl SaveReply {
    /// Whether the step did not fail.
    pub open spec fn went_well(self) -> bool {
        !(self is Failed) && !(self is NotStarted)
    }

    /// What is told of a failure.
    pub open spec fn error(self) -> Seq<char> {
        match self {
            SaveReply::Failed(error) => error@,
            _ => Seq::empty(),
        }
    }

    fn is_yes(&self) -> (r: bool)
        ensures
            r == (*self is Yes),
    {
        match self {
            SaveReply::Yes => true,
            _ => false,
        }
    }

    fn is_well(&self) -> (r: bool)
        ensures
            r == self.went_well(),
    {
        match self {
            SaveReply::Failed(_) | SaveReply::NotStarted => false,
            _ => true,
        }
    }

    fn error_text(self) -> (r: String)
        ensures
            r@ == self.error(),
    {
        match self {
            SaveReply::Failed(error) => error,
            _ => String::new(),
        }
    }
}

/// How far a save has come. What `DropManifest` holds is why the build failed, and what `Copy`
/// holds is why the built file could not be moved.
pub enum SaveStage {
    Folder,
    AskSource,
    Backup,
    OutputFolder,
    ManifestFolder,
    Manifest,
    Build,
    DropManifest(Option<String>),
    Rename,
    Copy(String),
    DropTemporary,
    DropFolder,
    Finished(Result<(), String>),
}

/// What the stage of a save holds.
pub enum SaveAt {
    Folder,
    AskSource,
    Backup,
    OutputFolder,
    ManifestFolder,
    Manifest,
    Build,
    DropManifest(Option<Seq<char>>),
    Rename,
    Copy(Seq<char>),
    DropTemporary,
    DropFolder,
    Finished(Result<(), Seq<char>>),
}

impl View for SaveStage {
    type V = SaveAt;

    open spec fn view(&self) -> SaveAt {
        match *self {
            SaveStage::Folder => SaveAt::Folder,
            SaveStage::AskSource => SaveAt::AskSource,
            SaveStage::Backup => SaveAt::Backup,
            SaveStage::OutputFolder => SaveAt::OutputFolder,
            SaveStage::ManifestFolder => SaveAt::ManifestFolder,
            SaveStage::Manifest => SaveAt::Manifest,
            SaveStage::Build => SaveAt::Build,
            SaveStage::DropManifest(Some(error)) => SaveAt::DropManifest(Some(error@)),
            SaveStage::DropManifest(None) => SaveAt::DropManifest(None),
            SaveStage::Rename => SaveAt::Rename,
            SaveStage::Copy(error) => SaveAt::Copy(error@),
            SaveStage::DropTemporary => SaveAt::DropTemporary,
            SaveStage::DropFolder => SaveAt::DropFolder,
            SaveStage::Finished(Ok(_)) => SaveAt::Finished(Ok(())),
            SaveStage::Finished(Err(error)) => SaveAt::Finished(Err(error@)),
        }
    }
}

/// A save: the asset, the description that it is built from, where it is one, and the places of
/// the files on the way.
pub struct Saving {
    pub source_path: PathBuf,
    pub xml_path: Option<PathBuf>,
    pub backup_before_save: bool,
    pub temp_output: PathBuf,
    pub manifest: PathBuf,
    pub stage: SaveStage,
}

/// What a save depends on.
pub struct SaveTask {
    pub source: Seq<u8>,
    pub xml: Option<Seq<u8>>,
    pub backup: bool,
    pub temp: Seq<u8>,
    pub manifest: Seq<u8>,
}

/// What is to be done next.
pub enum SaveAction {
    Nothing,
    CreateFolder(PathBuf),
    IsFile(PathBuf),
    CopyFile { from: PathBuf, to: PathBuf },
    WriteManifest(PathBuf),
    Call(HelperCall),
    Rename { from: PathBuf, to: PathBuf },
    RemoveFile(PathBuf),
    RemoveFolder(PathBuf),
}

/// What an action consists of.
pub enum SaveDeed {
    Nothing,
    CreateFolder(Seq<u8>),
    IsFile(Seq<u8>),
    CopyFile { from: Seq<u8>, to: Seq<u8> },
    WriteManifest(Seq<u8>),
    Call(CallParts),
    Rename { from: Seq<u8>, to: Seq<u8> },
    RemoveFile(Seq<u8>),
    RemoveFolder(Seq<u8>),
}

impl View for SaveAction {
    type V = SaveDeed;

    open spec fn view(&self) -> SaveDeed {
        match *self {
            SaveAction::Nothing => SaveDeed::Nothing,
            SaveAction::CreateFolder(path) => SaveDeed::CreateFolder(path.bytes()),
            SaveAction::IsFile(path) => SaveDeed::IsFile(path.bytes()),
            SaveAction::CopyFile { from, to } => SaveDeed::CopyFile {
                from: from.bytes(),
                to: to.bytes(),
            },
            SaveAction::WriteManifest(path) => SaveDeed::WriteManifest(path.bytes()),
            SaveAction::Call(call) => SaveDeed::Call(call@),
            SaveAction::Rename { from, to } => SaveDeed::Rename {
                from: from.bytes(),
                to: to.bytes(),
            },
            SaveAction::RemoveFile(path) => SaveDeed::RemoveFile(path.bytes()),
            SaveAction::RemoveFolder(path) => SaveDeed::RemoveFolder(path.bytes()),
        }
    }
}

impl SaveTask {
    /// The backup of the file.
    pub open spec fn backup_path(self) -> Option<Seq<u8>> {
        match file_name_text(self.source) {
            Some(name) => Some(renamed_bytes(self.source, name + ".bak"@)),
            None => None,
        }
    }

    /// What is told where the backup fails.
    pub open spec fn backup_failure(self) -> Seq<char> {
        match self.backup_path() {
            Some(backup) => "Failed to create backup "@ + shown_path(backup) + " from "@
                + shown_path(self.source),
            None => Seq::empty(),
        }
    }

    /// The call of the helper that builds the file.
    pub open spec fn building(self) -> CallParts {
        match self.xml {
            Some(xml) => build_of(xml, self.temp),
            None => rebuild_of(self.source, self.temp, self.manifest),
        }
    }

    /// What is told where the built file can neither be moved nor copied.
    pub open spec fn replacing_failure(self, error: Seq<char>) -> Seq<char> {
        "Failed to replace "@ + shown_path(self.source) + " with "@ + shown_path(self.temp)
            + " after rename error: "@ + error
    }

    /// What is done with the folder of a file.
    pub open spec fn making(path: Seq<u8>) -> SaveDeed {
        match parent_bytes(path) {
            Some(folder) => SaveDeed::CreateFolder(folder),
            None => SaveDeed::Nothing,
        }
    }

    /// What is done at a stage.
    pub open spec fn deed(self, at: SaveAt) -> Option<SaveDeed> {
        match at {
            SaveAt::Folder | SaveAt::OutputFolder => Some(SaveTask::making(self.temp)),
            SaveAt::AskSource => Some(SaveDeed::IsFile(self.source)),
            SaveAt::Backup => match self.backup_path() {
                Some(to) => Some(SaveDeed::CopyFile { from: self.source, to }),
                None => Some(SaveDeed::Nothing),
            },
            SaveAt::ManifestFolder => Some(SaveTask::making(self.manifest)),
            SaveAt::Manifest => Some(SaveDeed::WriteManifest(self.manifest)),
            SaveAt::Build => Some(SaveDeed::Call(self.building())),
            SaveAt::DropManifest(_) => Some(SaveDeed::RemoveFile(self.manifest)),
            SaveAt::Rename => Some(SaveDeed::Rename { from: self.temp, to: self.source }),
            SaveAt::Copy(_) => Some(SaveDeed::CopyFile { from: self.temp, to: self.source }),
            SaveAt::DropTemporary => Some(SaveDeed::RemoveFile(self.temp)),
            SaveAt::DropFolder => Some(
                match parent_bytes(self.temp) {
                    Some(folder) => SaveDeed::RemoveFolder(folder),
                    None => SaveDeed::Nothing,
                },
            ),
            SaveAt::Finished(_) => None,
        }
    }

    /// After a step whose failure ends the save.
    pub open spec fn onward(next: SaveAt, reply: SaveReply) -> SaveAt {
        if reply.went_well() {
            next
        } else {
            SaveAt::Finished(Err(reply.error()))
        }
    }

    /// After the build: where an archive was built, its list of actions is removed first, unless
    /// the helper could not be started.
    pub open spec fn after_build(self, reply: SaveReply) -> SaveAt {
        match reply {
            SaveReply::NotStarted => SaveAt::Finished(Err(self.building().failure)),
            SaveReply::Failed(error) => if self.xml is Some {
                SaveAt::Finished(Err(error@))
            } else {
                SaveAt::DropManifest(Some(error@))
            },
            _ => if self.xml is Some {
                SaveAt::Rename
            } else {
                SaveAt::DropManifest(None)
            },
        }
    }

    /// What follows a stage.
    pub open spec fn after(self, at: SaveAt, reply: SaveReply) -> SaveAt {
        match at {
            SaveAt::Folder => SaveTask::onward(
                if self.backup {
                    SaveAt::AskSource
                } else {
                    SaveAt::OutputFolder
                },
                reply,
            ),
            SaveAt::AskSource => if !(reply is Yes) {
                SaveAt::OutputFolder
            } else if self.backup_path() is None {
                SaveAt::Finished(Err("Asset path does not contain a file name"@))
            } else {
                SaveAt::Backup
            },
            SaveAt::Backup => if reply.went_well() {
                SaveAt::OutputFolder
            } else {
                SaveAt::Finished(Err(self.backup_failure()))
            },
            SaveAt::OutputFolder => SaveTask::onward(
                if self.xml is Some {
                    SaveAt::Build
                } else {
                    SaveAt::ManifestFolder
                },
                reply,
            ),
            SaveAt::ManifestFolder => SaveTask::onward(SaveAt::Manifest, reply),
            SaveAt::Manifest => SaveTask::onward(SaveAt::Build, reply),
            SaveAt::Build => self.after_build(reply),
            SaveAt::DropManifest(error) => match error {
                Some(why) => SaveAt::Finished(Err(why)),
                None => SaveAt::Rename,
            },
            SaveAt::Rename => if reply.went_well() {
                SaveAt::DropFolder
            } else {
                SaveAt::Copy(reply.error())
            },
            SaveAt::Copy(error) => if reply.went_well() {
                SaveAt::DropTemporary
            } else {
                SaveAt::Finished(Err(self.replacing_failure(error)))
            },
            SaveAt::DropTemporary => SaveAt::DropFolder,
            SaveAt::DropFolder => SaveAt::Finished(Ok(())),
            SaveAt::Finished(r) => SaveAt::Finished(r),
        }
    }
}

impl Saving {
    /// What the save depends on.
    pub open spec fn task(self) -> SaveTask {
        SaveTask {
            source: self.source_path.bytes(),
            xml: opt_bytes(self.xml_path),
            backup: self.backup_before_save,
            temp: self.temp_output.bytes(),
            manifest: self.manifest.bytes(),
        }
    }

    /// Begins to save an asset at the given time.
    pub fn begin(
        tools: &ToolPaths,
        source_path: PathBuf,
        xml_path: Option<PathBuf>,
        backup_before_save: bool,
        millis: u64,
    ) -> (r: Saving)
        ensures
            r.source_path == source_path,
            r.xml_path == xml_path,
            r.backup_before_save == backup_before_save,
            r.temp_output.bytes() == temporary_path(source_path.bytes(), millis),
            r.manifest.bytes() == join_bytes(
                tools.imports(),
                "rpf_build_"@ + decimal(millis as nat) + ".json"@,
            ),
            r.stage@ == SaveAt::Folder,
    {
        let temp_output = temporary_save_path(source_path.as_path(), millis);
        Saving {
            source_path,
            xml_path,
            backup_before_save,
            temp_output,
            manifest: manifest_path(tools, millis),
            stage: SaveStage::Folder,
        }
    }

    fn folder_of(path: &Path) -> (r: SaveAction)
        ensures
            r@ == SaveTask::making(path.bytes()),
    {
        match paths::parent(path) {
            Some(folder) => SaveAction::CreateFolder(folder),
            None => SaveAction::Nothing,
        }
    }

    fn build(&self) -> (r: HelperCall)
        ensures
            r@ == self.task().building(),
    {
        match &self.xml_path {
            Some(xml) => build_call(xml.as_path(), self.temp_output.as_path()),
            None => rebuild_call(
                self.source_path.as_path(),
                self.temp_output.as_path(),
                self.manifest.as_path(),
            ),
        }
    }

    /// What is to be done next.
    pub fn action(&self) -> (r: Option<SaveAction>)
        ensures
            match r {
                Some(action) => self.task().deed(self.stage@) == Some(action@),
                None => self.task().deed(self.stage@) is None,
            },
    {
        Some(
            match &self.stage {
                SaveStage::Folder | SaveStage::OutputFolder => Saving::folder_of(
                    self.temp_output.as_path(),
                ),
                SaveStage::AskSource => SaveAction::IsFile(self.source_path.clone()),
                SaveStage::Backup => match backup_path_for(self.source_path.as_path()) {
                    Ok(to) => SaveAction::CopyFile { from: self.source_path.clone(), to },
                    Err(_) => SaveAction::Nothing,
                },
                SaveStage::ManifestFolder => Saving::folder_of(self.manifest.as_path()),
                SaveStage::Manifest => SaveAction::WriteManifest(self.manifest.clone()),
                SaveStage::Build => SaveAction::Call(self.build()),
                SaveStage::DropManifest(_) => SaveAction::RemoveFile(self.manifest.clone()),
                SaveStage::Rename => SaveAction::Rename {
                    from: self.temp_output.clone(),
                    to: self.source_path.clone(),
                },
                SaveStage::Copy(_) => SaveAction::CopyFile {
                    from: self.temp_output.clone(),
                    to: self.source_path.clone(),
                },
                SaveStage::DropTemporary => SaveAction::RemoveFile(self.temp_output.clone()),
                SaveStage::DropFolder => match paths::parent(self.temp_output.as_path()) {
                    Some(folder) => SaveAction::RemoveFolder(folder),
                    None => SaveAction::Nothing,
                },
                SaveStage::Finished(_) => {
                    return None;
                },
            },
        )
    }

    fn go_on(next: SaveStage, reply: SaveReply) -> (r: SaveStage)
        ensures
            r@ == SaveTask::onward(next@, reply),
    {
        if reply.is_well() {
            next
        } else {
            SaveStage::Finished(Err(reply.error_text()))
        }
    }

    fn backup_failed(&self) -> (r: String)
        ensures
            r@ == self.task().backup_failure(),
    {
        match backup_path_for(self.source_path.as_path()) {
            Ok(backup) => {
                let mut out = "Failed to create backup ".to_owned();
                out.append(paths::shown(backup.as_path()).as_str());
                out.append(" from ");
                out.append(paths::shown(self.source_path.as_path()).as_str());
                out
            },
            Err(_) => String::new(),
        }
    }

    fn replacing_failed(&self, error: &str) -> (r: String)
        ensures
            r@ == self.task().replacing_failure(error@),
    {
        let mut out = "Failed to replace ".to_owned();
        out.append(paths::shown(self.source_path.as_path()).as_str());
        out.append(" with ");
        out.append(paths::shown(self.temp_output.as_path()).as_str());
        out.append(" after rename error: ");
        out.append(error);
        out
    }

    fn built(&self, reply: SaveReply) -> (r: SaveStage)
        ensures
            r@ == self.task().after_build(reply),
    {
        match reply {
            SaveReply::NotStarted => SaveStage::Finished(Err(self.build().failure)),
            SaveReply::Failed(error) => if self.xml_path.is_some() {
                SaveStage::Finished(Err(error))
            } else {
                SaveStage::DropManifest(Some(error))
            },
            _ => if self.xml_path.is_some() {
                SaveStage::Rename
            } else {
                SaveStage::DropManifest(None)
            },
        }
    }

    fn asked(&self, reply: SaveReply) -> (r: SaveStage)
        ensures
            r@ == self.task().after(SaveAt::AskSource, reply),
    {
        if !reply.is_yes() {
            return SaveStage::OutputFolder;
        }
        match backup_path_for(self.source_path.as_path()) {
            Ok(_) => SaveStage::Backup,
            Err(message) => SaveStage::Finished(Err(message)),
        }
    }

    /// What follows, given how the last step went.
    pub fn after(self, reply: SaveReply) -> (r: Saving)
        ensures
            r.stage@ == self.task().after(self.stage@, reply),
            r == (Saving { stage: r.stage, ..self }),
    {
        let mut out = self;
        let stage = match &out.stage {
            SaveStage::Folder => Saving::go_on(
                if out.backup_before_save {
                    SaveStage::AskSource
                } else {
                    SaveStage::OutputFolder
                },
                reply,
            ),
            SaveStage::AskSource => out.asked(reply),
            SaveStage::Backup => if reply.is_well() {
                SaveStage::OutputFolder
            } else {
                SaveStage::Finished(Err(out.backup_failed()))
            },
            SaveStage::OutputFolder => Saving::go_on(
                if out.xml_path.is_some() {
                    SaveStage::Build
                } else {
                    SaveStage::ManifestFolder
                },
                reply,
            ),
            SaveStage::ManifestFolder => Saving::go_on(SaveStage::Manifest, reply),
            SaveStage::Manifest => Saving::go_on(SaveStage::Build, reply),
            SaveStage::Build => out.built(reply),
            SaveStage::DropManifest(error) => match error {
                Some(why) => SaveStage::Finished(Err(why.clone())),
                None => SaveStage::Rename,
            },
            SaveStage::Rename => if reply.is_well() {
                SaveStage::DropFolder
            } else {
                SaveStage::Copy(reply.error_text())
            },
            SaveStage::Copy(error) => if reply.is_well() {
                SaveStage::DropTemporary
            } else {
                SaveStage::Finished(Err(out.replacing_failed(error.as_str())))
            },
            SaveStage::DropTemporary => SaveStage::DropFolder,
            SaveStage::DropFolder => SaveStage::Finished(Ok(())),
            SaveStage::Finished(result) => {
                return out;
            },
        };
        out.stage = stage;
        out
    }
}

impl SaveTask {
    /// The stage after some replies.
    #[verifier::opaque]
    pub open spec fn stage(self, replies: Seq<SaveReply>) -> SaveAt
        decreases replies.len(),
    {
        if replies.len() == 0 {
            SaveAt::Folder
        } else {
            self.after(self.stage(replies.drop_last()), replies.last())
        }
    }

    /// Whether a save wrote to the file that it saves, or is about to, after some replies.
    pub open spec fn replacing(at: SaveAt) -> bool {
        at is Rename || at is Copy || at is DropTemporary || at is DropFolder
            || at == SaveAt::Finished(Ok(()))
    }

    /// Whether one of the replies told that the asset was built.
    pub open spec fn was_built(self, replies: Seq<SaveReply>) -> bool {
        exists|k: int|
            0 <= k < replies.len() && self.stage(replies.take(k)) is Build
                && (#[trigger] replies[k]).went_well()
    }

    /// Whether one of the replies told that a backup was made.
    pub open spec fn was_backed_up(self, replies: Seq<SaveReply>) -> bool {
        exists|k: int|
            0 <= k < replies.len() && self.stage(replies.take(k)) is Backup
                && (#[trigger] replies[k]).went_well()
    }

    /// Whether one of the replies told that the file that is saved was there.
    pub open spec fn was_there(self, replies: Seq<SaveReply>) -> bool {
        exists|k: int|
            0 <= k < replies.len() && self.stage(replies.take(k)) is AskSource && (
            #[trigger] replies[k]) is Yes
    }

    /// Whether a stage comes after the question whether the file is there.
    pub open spec fn past_backup(at: SaveAt) -> bool {
        !(at is Folder) && !(at is AskSource) && !(at is Backup) && !(at matches SaveAt::Finished(
            r,
        ) && r is Err)
    }

    /// How many steps a save has before it at most.
    pub open spec fn steps_left(at: SaveAt) -> nat {
        match at {
            SaveAt::Folder => 12,
            SaveAt::AskSource => 11,
            SaveAt::Backup => 10,
            SaveAt::OutputFolder => 9,
            SaveAt::ManifestFolder => 8,
            SaveAt::Manifest => 7,
            SaveAt::Build => 6,
            SaveAt::DropManifest(_) => 5,
            SaveAt::Rename => 4,
            SaveAt::Copy(_) => 3,
            SaveAt::DropTemporary => 2,
            SaveAt::DropFolder => 1,
            SaveAt::Finished(_) => 0,
        }
    }
}

proof fn lemma_earlier(task: SaveTask, replies: Seq<SaveReply>)
    requires
        replies.len() > 0,
    ensures
        task.was_built(replies.drop_last()) ==> task.was_built(replies),
        task.was_backed_up(replies.drop_last()) ==> task.was_backed_up(replies),
        task.was_there(replies) ==> task.was_there(replies.drop_last()) || (task.stage(
            replies.drop_last(),
        ) is AskSource && replies.last() is Yes),
        replies.last().went_well() && task.stage(replies.drop_last()) is Build ==> task.was_built(
            replies,
        ),
        replies.last().went_well() && task.stage(replies.drop_last()) is Backup
            ==> task.was_backed_up(replies),
{
    let before = replies.drop_last();
    let n = before.len() as int;
    assert(replies.take(n) =~= before);
    assert(replies[n] == replies.last());
    assert forall|k: int| 0 <= k < n implies replies.take(k) == before.take(k) && replies[k]
        == before[k] by {
        assert(replies.take(k) =~= before.take(k));
    }
    if task.was_built(before) {
        let k = choose|k: int|
            0 <= k < before.len() && task.stage(before.take(k)) is Build && (
            #[trigger] before[k]).went_well();
        assert(replies[k] == before[k]);
        assert(replies.take(k) == before.take(k));
    }
    if task.was_backed_up(before) {
        let k = choose|k: int|
            0 <= k < before.len() && task.stage(before.take(k)) is Backup && (
            #[trigger] before[k]).went_well();
        assert(replies[k] == before[k]);
        assert(replies.take(k) == before.take(k));
    }
    if task.was_there(replies) {
        let k = choose|k: int|
            0 <= k < replies.len() && task.stage(replies.take(k)) is AskSource && (
            #[trigger] replies[k]) is Yes;
        if k < n {
            assert(before[k] == replies[k]);
            assert(replies.take(k) == before.take(k));
        }
    }
}

/// A file is replaced only after its successor was built: whenever a save is about to write to
/// the file or has written to it, an earlier step built the asset, and that step did not fail.
pub proof fn a_file_is_replaced_only_after_a_build(task: SaveTask, replies: Seq<SaveReply>)
    requires
        SaveTask::replacing(task.stage(replies)),
    ensures
        task.was_built(replies),
{
    lemma_built(task, replies);
}

proof fn lemma_built(task: SaveTask, replies: Seq<SaveReply>)
    ensures
        SaveTask::replacing(task.stage(replies)) || task.stage(replies) == SaveAt::DropManifest(None)
            ==> task.was_built(replies),
    decreases replies.len(),
{
    reveal_with_fuel(SaveTask::stage, 2);
    if replies.len() > 0 {
        lemma_built(task, replies.drop_last());
        lemma_earlier(task, replies);
    }
}

proof fn lemma_step(task: SaveTask, replies: Seq<SaveReply>)
    requires
        replies.len() > 0,
    ensures
        task.stage(replies) == task.after(task.stage(replies.drop_last()), replies.last()),
{
    reveal_with_fuel(SaveTask::stage, 2);
}

proof fn lemma_after_backup(task: SaveTask, at: SaveAt, reply: SaveReply)
    ensures
        !(at is Folder) && !(at is AskSource) ==> !(task.after(at, reply) is Folder)
            && !(task.after(at, reply) is AskSource),
        at is Backup && !reply.went_well() ==> (task.after(at, reply) matches SaveAt::Finished(r)
            && r is Err),
        (at matches SaveAt::Finished(r) && r is Err) ==> task.after(at, reply) == at,
        at is AskSource && reply is Yes ==> task.after(at, reply) is Backup || (task.after(
            at,
            reply,
        ) matches SaveAt::Finished(r) && r is Err),
{
}

proof fn lemma_backed_up(task: SaveTask, replies: Seq<SaveReply>)
    requires
        task.was_there(replies),
    ensures
        task.stage(replies) is Backup || (task.stage(replies) matches SaveAt::Finished(r) && r is Err)
            || task.was_backed_up(replies),
        !(task.stage(replies) is Folder) && !(task.stage(replies) is AskSource),
    decreases replies.len(),
{
    if replies.len() > 0 {
        let before = replies.drop_last();
        lemma_earlier(task, replies);
        lemma_step(task, replies);
        lemma_after_backup(task, task.stage(before), replies.last());
        if task.was_there(before) {
            lemma_backed_up(task, before);
        }
    }
}

/// Where a backup was asked for and the file is there, the backup is made before the file is
/// replaced.
pub proof fn a_backup_is_made_before_a_file_is_replaced(task: SaveTask, replies: Seq<SaveReply>)
    requires
        SaveTask::replacing(task.stage(replies)),
        task.was_there(replies),
    ensures
        task.was_backed_up(replies),
{
    lemma_backed_up(task, replies);
}

/// Where a backup was asked for, no save goes on before it was asked whether the file is there.
pub proof fn a_wanted_backup_is_asked_for(task: SaveTask, at: SaveAt, reply: SaveReply)
    requires
        task.backup,
        !SaveTask::past_backup(at),
        SaveTask::past_backup(task.after(at, reply)),
    ensures
        at is AskSource && !(reply is Yes) || at is Backup && reply.went_well(),
{
}

/// A save ends: after twelve replies at the latest there is nothing left to do.
pub proof fn a_save_ends(task: SaveTask, replies: Seq<SaveReply>)
    ensures
        replies.len() + SaveTask::steps_left(task.stage(replies)) <= 12 || task.stage(
            replies,
        ) is Finished,
    decreases replies.len(),
{
    reveal_with_fuel(SaveTask::stage, 2);
    if replies.len() > 0 {
        a_save_ends(task, replies.drop_last());
    }
}

/// A save touches nothing but its own files: the file is written to only from the built one, the only
/// other copy is its backup, and what is removed is what the save made on the way. What is built goes
/// to the temporary place.
pub proof fn a_save_keeps_to_its_files(task: SaveTask, at: SaveAt)
    ensures
        task.deed(at) matches Some(SaveDeed::Rename { from, to }) ==> from == task.temp && to
            == task.source,
        task.deed(at) matches Some(SaveDeed::CopyFile { from, to }) ==> (from == task.temp && to
            == task.source && at is Copy) || (from == task.source && Some(to) == backup_of(
            task.source,
        ) && at is Backup),
        task.deed(at) matches Some(SaveDeed::RemoveFile(path)) ==> (path == task.temp
            && at is DropTemporary) || (path == task.manifest && at is DropManifest),
        task.deed(at) matches Some(SaveDeed::RemoveFolder(path)) ==> Some(path) == parent_bytes(
            task.temp,
        ),
        task.deed(at) matches Some(SaveDeed::CreateFolder(path)) ==> Some(path) == parent_bytes(
            task.temp,
        ) || Some(path) == parent_bytes(task.manifest),
        task.deed(at) matches Some(SaveDeed::IsFile(path)) ==> path == task.source,
        task.deed(at) matches Some(SaveDeed::WriteManifest(path)) ==> path == task.manifest,
        task.deed(at) matches Some(SaveDeed::Call(call)) ==> at is Build && (if task.xml is Some {
            call == build_of(task.xml->0, task.temp)
        } else {
            call == rebuild_of(task.source, task.temp, task.manifest)
        }),
        task.deed(at) is None <==> at is Finished,
        at is Rename ==> task.deed(at) is Some && (task.deed(at)->0) is Rename,
        at is Copy ==> task.deed(at) is Some && (task.deed(at)->0) is CopyFile,
        at is Build ==> task.deed(at) is Some && (task.deed(at)->0) is Call,
        at is AskSource ==> task.deed(at) is Some && (task.deed(at)->0) is IsFile,
        at is Manifest ==> task.deed(at) is Some && (task.deed(at)->0) is WriteManifest,
        at is DropTemporary ==> task.deed(at) is Some && (task.deed(at)->0) is RemoveFile,
        at is Backup && file_name_text(task.source) is Some ==> task.deed(at) is Some && (task.deed(
            at,
        )->0) is CopyFile,
{
}

/// Whether one of the replies told that the built file took the place of the old one.
pub open spec fn was_replaced(task: SaveTask, replies: Seq<SaveReply>) -> bool {
    exists|k: int|
        0 <= k < replies.len() && (task.stage(replies.take(k)) is Rename || task.stage(
            replies.take(k),
        ) is Copy) && (#[trigger] replies[k]).went_well()
}

/// A save that says that it succeeded has put the built file in the place of the old one.
pub proof fn a_save_succeeds_by_replacing(task: SaveTask, replies: Seq<SaveReply>)
    requires
        task.stage(replies) == SaveAt::Finished(Ok(())),
    ensures
        was_replaced(task, replies),
{
    lemma_replaced_before(task, replies);
}

proof fn lemma_replaced_before(task: SaveTask, replies: Seq<SaveReply>)
    ensures
        task.stage(replies) is DropTemporary || task.stage(replies) is DropFolder || task.stage(
            replies,
        ) == SaveAt::Finished(Ok(())) ==> was_replaced(task, replies),
    decreases replies.len(),
{
    reveal_with_fuel(SaveTask::stage, 2);
    if replies.len() > 0 {
        let before = replies.drop_last();
        let n = before.len() as int;
        lemma_replaced_before(task, before);
        assert(replies.take(n) =~= before);
        assert(replies[n] == replies.last());
        if was_replaced(task, before) {
            let k = choose|k: int|
                0 <= k < before.len() && (task.stage(before.take(k)) is Rename || task.stage(
                    before.take(k),
                ) is Copy) && (#[trigger] before[k]).went_well();
            assert(before.take(k) =~= replies.take(k));
            assert(replies[k] == before[k]);
            assert(was_replaced(task, replies));
        }
        if (task.stage(before) is Rename || task.stage(before) is Copy) && replies.last().went_well() {
            assert(replies[n].went_well());
            assert(was_replaced(task, replies));
        }
    }
}

/// A save in which nothing fails comes to its end with success.
pub proof fn a_save_without_trouble_succeeds(task: SaveTask, replies: Seq<SaveReply>)
    requires
        file_name_text(task.source) is Some,
        forall|k: int| 0 <= k < replies.len() ==> (#[trigger] replies[k]).went_well(),
        replies.len() >= 12,
    ensures
        task.stage(replies) == SaveAt::Finished(Ok(())),
{
    lemma_no_trouble(task, replies);
    if let SaveAt::Finished(Ok(unit)) = task.stage(replies) {
        assert(unit == ());
    }
}

proof fn lemma_no_trouble(task: SaveTask, replies: Seq<SaveReply>)
    requires
        file_name_text(task.source) is Some,
        forall|k: int| 0 <= k < replies.len() ==> (#[trigger] replies[k]).went_well(),
    ensures
        !(task.stage(replies) matches SaveAt::Finished(r) && r is Err),
        !(task.stage(replies) matches SaveAt::DropManifest(e) && e is Some),
        replies.len() >= 12 ==> task.stage(replies) is Finished,
    decreases replies.len(),
{
    reveal_with_fuel(SaveTask::stage, 2);
    a_save_ends(task, replies);
    if replies.len() > 0 {
        let before = replies.drop_last();
        assert forall|k: int| 0 <= k < before.len() implies (#[trigger] before[k]).went_well() by {
            assert(before[k] == replies[k]);
        }
        assert(replies[replies.len() - 1].went_well());
        lemma_no_trouble(task, before);
        if replies.len() >= 12 && !(task.stage(replies) is Finished) {
            assert(SaveTask::steps_left(task.stage(replies)) == 0);
        }
    }
}

/// What fails ends the save with what is told of it, before the file is written to: a backup that
/// cannot be made, a build that fails, and each folder and list that cannot be written. Only where the
/// built file cannot be moved, copying it is tried.
pub proof fn a_failure_leaves_the_file_alone(task: SaveTask, at: SaveAt, error: String)
    ensures
        at is Folder || at is OutputFolder || at is ManifestFolder || at is Manifest ==> task.after(
            at,
            SaveReply::Failed(error),
        ) == SaveAt::Finished(Err(error@)),
        at is Build && task.xml is Some ==> task.after(at, SaveReply::Failed(error))
            == SaveAt::Finished(Err(error@)),
        at is Build && task.xml is None ==> task.after(
            task.after(at, SaveReply::Failed(error)),
            SaveReply::Done,
        ) == SaveAt::Finished(Err(error@)),
        at is Backup ==> (task.after(at, SaveReply::Failed(error)) matches SaveAt::Finished(r)
            && r is Err),
        at is Rename ==> task.after(at, SaveReply::Failed(error)) == SaveAt::Copy(error@),
        at is Copy ==> (task.after(at, SaveReply::Failed(error)) matches SaveAt::Finished(r)
            && r is Err),
{
}

/// An archive is rebuilt by the list of its changes, and only after that list was written; any other
/// asset needs no list.
pub proof fn an_archive_is_built_by_its_list(task: SaveTask, at: SaveAt, reply: SaveReply)
    requires
        !(at is Build),
        task.after(at, reply) is Build,
    ensures
        reply.went_well(),
        task.xml is None ==> at is Manifest,
        !(at is Manifest) ==> at is OutputFolder && task.xml is Some,
{
}

/// The backup of a save is the one that its file has, made from that file before it is replaced.
pub proof fn a_backup_is_made_of_the_file(task: SaveTask)
    ensures
        task.backup_path() == backup_of(task.source),
        task.backup_path() matches Some(to) ==> task.deed(SaveAt::Backup) == Some(
            SaveDeed::CopyFile { from: task.source, to },
        ),
{
}

}
