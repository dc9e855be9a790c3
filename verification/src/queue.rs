//! Starting background jobs.

use crate::app::{folder_names, nested_path, App};
use crate::assets::{build_steps, entry_steps, ImportedAsset, RpfBuildAction};
use crate::browse::{has_texture, texture_in};
use crate::config::{AppConfig, CURRENT_SETUP_REVISION};
use crate::jobs::said;
use crate::layout_laws::{each_leaf_has_its_cell, leaves, shows};
use crate::paths::{
    self, file_name_bytes, joined_bytes, opt_bytes, parent_bytes, title_of, PathBytes,
};
use crate::sections::{whole, CompositionCell, PixelRect};
use crate::setup::{may_act, SetupStep};
use crate::text::{self, decimal, occurs, occurs_at, trimmed};
use crate::textures::{places, TextureFormat};
use std::path::{Path, PathBuf};
use vstd::prelude::*;
use vstd::utf8::encode_utf8;

verus! {

/// Whether one more job is under way, and the status says so.
pub open spec fn job_started(before: App, after: App, message: Seq<char>) -> bool {
    after == (App {
        pending_jobs: (before.pending_jobs + 1) as usize,
        status: after.status,
        ..before
    }) && after.status@ == message
}

/// The start of the game.
pub struct LaunchJob {
    pub game_root: PathBuf,
    pub workspace_dir: PathBuf,
}

/// The save of an asset.
pub struct SaveJob {
    pub asset_id: String,
    pub source_path: PathBuf,
    pub xml_path: Option<PathBuf>,
    pub actions: Vec<RpfBuildAction>,
    pub backup_before_save: bool,
}

/// Whether a save is that of an asset.
pub open spec fn saves(job: SaveJob, asset: ImportedAsset, config: AppConfig) -> bool {
    &&& job.asset_id == asset.id
    &&& job.source_path == asset.source_path
    &&& job.xml_path == asset.xml_path
    &&& job.backup_before_save == config.backup_before_save
    &&& build_steps(job.actions@) == asset.rebuild()
}

impl ImportedAsset {
    /// The changes that rebuild the archive.
    #[verifier::opaque]
    pub open spec fn rebuild(self) -> Seq<crate::assets::BuildStep> {
        crate::assets::folder_steps(
            self.pending_archive_folders@,
            crate::order::stable_order(
                crate::assets::folder_keys(self.pending_archive_folders@),
            ),
            self.pending_archive_folders@.len() as int,
        ) + crate::assets::entry_steps(self.archive_entries@)
    }
}

/// The message of a save.
pub open spec fn saving_text(asset: ImportedAsset) -> Seq<char> {
    "Applying changes to "@ + title_of(asset.source_path.bytes()) + "..."@
}

/// Whether the save of the asset at position `i` was started as it should be.
pub open spec fn save_started(before: App, i: int, after: App, job: Option<SaveJob>) -> bool {
    if i >= before.assets@.len() {
        after == before && job is None
    } else if !before.assets@[i].dirty {
        job is None && said(before, after, "There are no unsaved changes for this file."@)
    } else {
        &&& job matches Some(save)
        &&& saves(save, before.assets@[i], before.config)
        &&& job_started(before, after, saving_text(before.assets@[i]))
    }
}

/// The positions of the assets with unsaved changes, among the first `n`.
pub open spec fn dirty_upto(assets: Seq<ImportedAsset>, n: int) -> Seq<int>
    decreases n,
{
    if n <= 0 {
        Seq::empty()
    } else if assets[n - 1].dirty {
        dirty_upto(assets, n - 1).push(n - 1)
    } else {
        dirty_upto(assets, n - 1)
    }
}

/// Whether the saves of the assets with unsaved changes among the first `n` were started, one job
/// for each; the status speaks of the last of them.
pub open spec fn saves_started(before: App, n: int, after: App, jobs: Seq<SaveJob>) -> bool {
    let dirty = dirty_upto(before.assets@, n);
    &&& jobs.len() == dirty.len()
    &&& forall|k: int|
        0 <= k < jobs.len() ==> saves(
            #[trigger] jobs[k],
            before.assets@[dirty[k]],
            before.config,
        )
    &&& after == (App {
        pending_jobs: (before.pending_jobs + dirty.len()) as usize,
        status: after.status,
        ..before
    })
    &&& dirty.len() == 0 ==> after.status == before.status
    &&& dirty.len() > 0 ==> after.status@ == saving_text(before.assets@[dirty.last()])
}

proof fn lemma_dirty_upto(assets: Seq<ImportedAsset>, n: int)
    requires
        0 <= n <= assets.len(),
    ensures
        dirty_upto(assets, n).len() <= n,
        forall|k: int|
            0 <= k < dirty_upto(assets, n).len() ==> 0 <= #[trigger] dirty_upto(assets, n)[k] < n
                && assets[dirty_upto(assets, n)[k]].dirty,
    decreases n,
{
    if n > 0 {
        lemma_dirty_upto(assets, n - 1);
    }
}

proof fn lemma_one_more_save(
    start: App,
    i: int,
    mid: App,
    after: App,
    jobs: Seq<SaveJob>,
    job: SaveJob,
)
    requires
        0 <= i < start.assets@.len(),
        start.pending_jobs + start.assets@.len() <= usize::MAX,
        start.assets@[i].dirty,
        mid.assets == start.assets,
        saves_started(start, i, mid, jobs),
        save_started(mid, i, after, Some(job)),
    ensures
        saves_started(start, i + 1, after, jobs.push(job)),
        after.assets == start.assets,
{
    lemma_dirty_upto(start.assets@, i);
    let before = dirty_upto(start.assets@, i);
    let now = dirty_upto(start.assets@, i + 1);
    let more = jobs.push(job);
    assert(now == before.push(i));
    assert(saves(job, start.assets@[i], start.config));
    assert(after == (App {
        pending_jobs: (start.pending_jobs + now.len()) as usize,
        status: after.status,
        ..start
    }));
    assert(after.status@ == saving_text(start.assets@[i]));
    assert forall|k: int| 0 <= k < more.len() implies saves(
        #[trigger] more[k],
        start.assets@[now[k]],
        start.config,
    ) by {
        if k < jobs.len() {
            assert(more[k] == jobs[k]);
            assert(now[k] == before[k]);
        }
    }
}

impl App {
    /// Starts the game.
    pub fn queue_launch_game(&mut self, root_is_dir: bool) -> (r: Option<LaunchJob>)
        requires
            old(self).pending_jobs < usize::MAX,
        ensures
            match old(self).game_root(root_is_dir) {
                Some(root) => {
                    &&& r matches Some(job)
                    &&& job.game_root == root
                    &&& job.workspace_dir == old(self).tool_paths.workspace_dir
                    &&& job_started(
                        *old(self),
                        *final(self),
                        "Preparing GTA V launch environment..."@,
                    )
                },
                None => r is None && said(
                    *old(self),
                    *final(self),
                    "Choose the GTA V Linux game folder first."@,
                ),
            },
            old(self).well_formed() ==> final(self).well_formed(),
    {
        let game_root = match self.game_root_path(root_is_dir) {
            Some(root) => root.clone(),
            None => {
                self.set_status("Choose the GTA V Linux game folder first.".to_owned());
                return None;
            },
        };
        self.start_job("Preparing GTA V launch environment...".to_owned());
        Some(LaunchJob { game_root, workspace_dir: self.tool_paths.workspace_dir.clone() })
    }

    fn start_job(&mut self, message: String)
        requires
            old(self).pending_jobs < usize::MAX,
        ensures
            job_started(*old(self), *final(self), message@),
            old(self).well_formed() ==> final(self).well_formed(),
    {
        self.pending_jobs = self.pending_jobs + 1;
        self.set_status(message);
    }

    /// Starts to cache the Vulkan runtime.
    pub fn queue_prepare_vulkan_runtime(&mut self)
        requires
            old(self).pending_jobs < usize::MAX,
        ensures
            job_started(*old(self), *final(self), "Caching the Vulkan runtime bundle..."@),
            old(self).well_formed() ==> final(self).well_formed(),
    {
        self.start_job("Caching the Vulkan runtime bundle...".to_owned());
    }

    /// Starts to download CodeWalker.
    pub fn queue_download_codewalker(&mut self)
        requires
            old(self).pending_jobs < usize::MAX,
        ensures
            job_started(
                *old(self),
                *final(self),
                "Downloading CodeWalker into the app external folder..."@,
            ),
            old(self).well_formed() ==> final(self).well_formed(),
    {
        self.start_job("Downloading CodeWalker into the app external folder...".to_owned());
    }

    /// Starts to build the helper.
    pub fn queue_build_helper(&mut self)
        requires
            old(self).pending_jobs < usize::MAX,
        ensures
            job_started(*old(self), *final(self), "Building CwAssetTool helper..."@),
            old(self).well_formed() ==> final(self).well_formed(),
    {
        self.start_job("Building CwAssetTool helper...".to_owned());
    }

    /// Starts to check CodeWalker for updates.
    pub fn queue_check_external_updates(&mut self)
        requires
            old(self).pending_jobs < usize::MAX,
        ensures
            job_started(*old(self), *final(self), "Checking CodeWalker for updates..."@),
            old(self).well_formed() ==> final(self).well_formed(),
    {
        self.start_job("Checking CodeWalker for updates...".to_owned());
    }

    /// Starts to import files, one job for each; gives the folder that they go to.
    pub fn queue_import_files(&mut self, files: &Vec<PathBuf>) -> (r: u64)
        requires
            old(self).pending_jobs + files@.len() <= usize::MAX,
        ensures
            r == old(self).selected_folder_id,
            files@.len() == 0 ==> *final(self) == *old(self),
            files@.len() > 0 ==> *final(self) == (App {
                pending_jobs: (old(self).pending_jobs + files@.len()) as usize,
                status: final(self).status,
                ..*old(self)
            }) && final(self).status@ == "Importing "@ + decimal(files@.len()) + " file(s)..."@,
            old(self).well_formed() ==> final(self).well_formed(),
    {
        if files.len() == 0 {
            return self.selected_folder_id;
        }
        self.pending_jobs = self.pending_jobs + files.len();
        let mut message = "Importing ".to_owned();
        message.append(text::show(files.len() as u64).as_str());
        message.append(" file(s)...");
        self.set_status(message);
        self.selected_folder_id
    }

    /// Starts to save the asset at a position.
    pub fn queue_save_asset_by_index(&mut self, asset_index: usize) -> (r: Option<SaveJob>)
        requires
            old(self).pending_jobs < usize::MAX,
        ensures
            save_started(*old(self), asset_index as int, *final(self), r),
            old(self).well_formed() ==> final(self).well_formed(),
    {
        if asset_index >= self.assets.len() {
            return None;
        }
        if !self.assets[asset_index].dirty {
            self.set_status("There are no unsaved changes for this file.".to_owned());
            return None;
        }
        let asset = &self.assets[asset_index];
        let job = SaveJob {
            asset_id: asset.id.clone(),
            source_path: asset.source_path.clone(),
            xml_path: asset.xml_path.clone(),
            actions: asset.build_archive_actions(),
            backup_before_save: self.config.backup_before_save,
        };
        proof {
            reveal(ImportedAsset::rebuild);
        }
        let mut message = "Applying changes to ".to_owned();
        message.append(asset.title().as_str());
        message.append("...");
        self.start_job(message);
        Some(job)
    }

    /// Starts to save the selected asset.
    pub fn queue_save_selected_asset(&mut self) -> (r: Option<SaveJob>)
        requires
            old(self).pending_jobs < usize::MAX,
        ensures
            match old(self).selected_asset {
                Some(i) => save_started(*old(self), i as int, *final(self), r),
                None => r is None && said(*old(self), *final(self), "Select a package first."@),
            },
            old(self).well_formed() ==> final(self).well_formed(),
    {
        match self.selected_asset {
            Some(i) => self.queue_save_asset_by_index(i),
            None => {
                self.set_status("Select a package first.".to_owned());
                None
            },
        }
    }

    fn save_dirty_assets(&mut self) -> (r: Vec<SaveJob>)
        requires
            old(self).pending_jobs + old(self).assets@.len() <= usize::MAX,
        ensures
            saves_started(*old(self), old(self).assets@.len() as int, *final(self), r@),
    {
        let mut jobs: Vec<SaveJob> = Vec::new();
        let ghost start = *self;
        let mut i: usize = 0;
        while i < self.assets.len()
            invariant
                start == *old(self),
                self.assets == start.assets,
                start.pending_jobs + start.assets@.len() <= usize::MAX,
                0 <= i <= start.assets@.len(),
                saves_started(start, i as int, *self, jobs@),
            decreases start.assets@.len() - i,
        {
            let ghost mid = *self;
            let ghost before = jobs@;
            proof {
                lemma_dirty_upto(start.assets@, i as int);
            }
            if self.assets[i].dirty {
                let job = self.queue_save_asset_by_index(i);
                if let Some(save) = job {
                    proof {
                        lemma_one_more_save(start, i as int, mid, *self, before, save);
                    }
                    jobs.push(save);
                }
            }
            i += 1;
        }
        jobs
    }

    /// Starts to save all assets with unsaved changes, in their order.
    pub fn queue_save_all_dirty_assets(&mut self) -> (r: Vec<SaveJob>)
        requires
            old(self).pending_jobs + old(self).assets@.len() <= usize::MAX,
        ensures
            r@.len() == 0 ==> dirty_upto(
                old(self).assets@,
                old(self).assets@.len() as int,
            ).len() == 0 && said(
                *old(self),
                *final(self),
                "There are no unsaved builds to save."@,
            ),
            r@.len() > 0 ==> saves_started(
                *old(self),
                old(self).assets@.len() as int,
                *final(self),
                r@,
            ),
            old(self).well_formed() ==> final(self).well_formed(),
    {
        let jobs = self.save_dirty_assets();
        if jobs.len() == 0 {
            self.set_status("There are no unsaved builds to save.".to_owned());
            return jobs;
        }
        jobs
    }

    /// The folder of the last build of the selected asset.
    pub fn open_selected_build_folder(&mut self) -> (r: Option<PathBuf>)
        ensures
            match old(self).selected_asset {
                None => r is None && said(*old(self), *final(self), "Select a package first."@),
                Some(i) => if i >= old(self).assets@.len() {
                    r is None && *final(self) == *old(self)
                } else {
                    match old(self).assets@[i as int].last_saved_path {
                        None => r is None && said(
                            *old(self),
                            *final(self),
                            "This package has not been built yet."@,
                        ),
                        Some(path) => match parent_bytes(path.bytes()) {
                            Some(parent) => *final(self) == *old(self) && opt_bytes(r) == Some(
                                parent,
                            ),
                            None => r is None && said(
                                *old(self),
                                *final(self),
                                "The last build directory could not be determined."@,
                            ),
                        },
                    }
                },
            },
            old(self).well_formed() ==> final(self).well_formed(),
    {
        let i: usize = match self.selected_asset {
            Some(i) => i,
            None => {
                self.set_status("Select a package first.".to_owned());
                return None;
            },
        };
        if i >= self.assets.len() {
            return None;
        }
        let saved = match &self.assets[i].last_saved_path {
            Some(path) => path.clone(),
            None => {
                self.set_status("This package has not been built yet.".to_owned());
                return None;
            },
        };
        match paths::parent(saved.as_path()) {
            Some(parent) => Some(parent),
            None => {
                self.set_status("The last build directory could not be determined.".to_owned());
                None
            },
        }
    }
}

/// The writing of an edited texture.
pub struct ApplyJob {
    pub asset_id: String,
    pub entry_path: Option<String>,
    pub texture_index: usize,
    pub dds_path: PathBuf,
    pub preview_png_path: PathBuf,
    pub format: TextureFormat,
    pub mips: u32,
    pub width: u32,
    pub height: u32,
    pub cells: Vec<CompositionCell>,
}

impl App {
    /// Where the edited texture is: in which asset, and in which of its entries.
    pub open spec fn edited_entry(self) -> Option<int> {
        match self.editor {
            Some(editor) => match editor.entry_path {
                Some(path) => self.assets@[editor.asset_index as int].entry(path@),
                None => None,
            },
            None => None,
        }
    }

    /// Whether the entry of the edited texture is gone.
    pub open spec fn edited_entry_gone(self) -> bool {
        self.editor matches Some(editor) && editor.entry_path is Some && self.edited_entry() is None
    }

    /// Whether the edited texture is there.
    pub open spec fn edited_texture_there(self) -> bool {
        self.editor matches Some(editor) && !self.edited_entry_gone() && has_texture(
            self.assets@[editor.asset_index as int],
            self.edited_entry(),
            editor.texture_index as int,
        )
    }

    /// The edited texture.
    pub open spec fn edited_texture(self) -> crate::textures::TextureEntry {
        texture_in(
            self.assets@[self.editor->0.asset_index as int],
            self.edited_entry(),
            self.editor->0.texture_index as int,
        )
    }

    /// Whether the sections of the edited texture can be given their pixels.
    pub open spec fn can_compose(self) -> bool {
        self.edited_texture_there() ==> self.editor->0.root@.composable(
            whole(self.edited_texture().width, self.edited_texture().height),
        )
    }
}

/// Whether the writing of an edited texture was started as it should be.
pub open spec fn apply_started(before: App, after: App, job: Option<ApplyJob>) -> bool {
    if before.editor is None {
        after == before && job is None
    } else if before.edited_entry_gone() {
        job is None && said(
            before,
            after,
            "The selected archive entry is no longer available."@,
        )
    } else if !before.edited_texture_there() {
        after == before && job is None
    } else {
        let editor = before.editor->0;
        let texture = before.edited_texture();
        if !texture.format@.writable() {
            job is None && said(
                before,
                after,
                texture.format@.label() + " is not yet writable by the app."@,
            )
        } else if editor.root@.missing() > 0 {
            job is None && said(
                before,
                after,
                "Every section needs an image before you apply changes."@,
            )
        } else {
            &&& job matches Some(j)
            &&& j.asset_id == before.assets@[editor.asset_index as int].id
            &&& j.entry_path == editor.entry_path
            &&& j.texture_index == editor.texture_index
            &&& j.dds_path == texture.dds_path
            &&& j.preview_png_path == texture.preview_png_path
            &&& j.format == texture.format
            &&& j.mips == texture.mips
            &&& j.width == texture.width
            &&& j.height == texture.height
            &&& j.cells@ == editor.root@.cells(
                whole(texture.width, texture.height),
                texture.format@.alpha(),
            )
            &&& job_started(before, after, "Applying changes to "@ + texture.name@ + "..."@)
        }
    }
}

impl App {
    fn edited_entry_index(&self) -> (r: Option<usize>)
        requires
            self.well_formed(),
        ensures
            crate::browse::place(r) == self.edited_entry(),
            r matches Some(e) ==> self.editor matches Some(editor) && e
                < self.assets@[editor.asset_index as int].archive_entries@.len(),
    {
        match &self.editor {
            Some(editor) => match &editor.entry_path {
                Some(path) => self.assets[editor.asset_index].entry_position(path.as_str()),
                None => None,
            },
            None => None,
        }
    }

    /// The edited texture, where it is there.
    pub fn texture_being_edited(&self) -> (r: Option<&crate::textures::TextureEntry>)
        requires
            self.well_formed(),
        ensures
            match r {
                Some(texture) => self.edited_texture_there() && *texture == self.edited_texture(),
                None => !self.edited_texture_there(),
            },
    {
        let entry = self.edited_entry_index();
        match &self.editor {
            Some(editor) => {
                if editor.entry_path.is_some() && entry.is_none() {
                    return None;
                }
                self.assets[editor.asset_index].texture(entry, editor.texture_index)
            },
            None => None,
        }
    }

    /// Whether the sections of the edited texture can be given their pixels.
    pub fn sections_can_be_composed(&self) -> (r: bool)
        requires
            self.well_formed(),
        ensures
            r == self.can_compose(),
    {
        match (&self.editor, self.texture_being_edited()) {
            (Some(editor), Some(texture)) => editor.root.can_compose(
                crate::sections::PixelRect {
                    x: 0,
                    y: 0,
                    width: texture.width,
                    height: texture.height,
                },
            ),
            _ => true,
        }
    }

    /// Starts to write the edited texture.
    pub fn queue_apply_editor(&mut self) -> (r: Option<ApplyJob>)
        requires
            old(self).well_formed(),
            old(self).pending_jobs < usize::MAX,
            old(self).can_compose(),
        ensures
            apply_started(*old(self), *final(self), r),
            final(self).well_formed(),
    {
        let gone = match &self.editor {
            Some(editor) => editor.entry_path.is_some() && self.edited_entry_index().is_none(),
            None => {
                return None;
            },
        };
        if gone {
            self.set_status("The selected archive entry is no longer available.".to_owned());
            return None;
        }
        let message;
        let job;
        match (&self.editor, self.texture_being_edited()) {
            (Some(editor), Some(texture)) => {
                if !texture.format.supported_for_write() {
                    let mut refusal = texture.format.label().to_owned();
                    refusal.append(" is not yet writable by the app.");
                    self.set_status(refusal);
                    return None;
                }
                if !editor.is_complete() {
                    self.set_status(
                        "Every section needs an image before you apply changes.".to_owned(),
                    );
                    return None;
                }
                let cells = match editor.collect_composition_cells(
                    texture.width,
                    texture.height,
                    texture.format.supports_alpha(),
                ) {
                    Ok(cells) => cells,
                    Err(_) => {
                        return None;
                    },
                };
                let mut text = "Applying changes to ".to_owned();
                text.append(texture.name.as_str());
                text.append("...");
                message = text;
                job = ApplyJob {
                    asset_id: self.assets[editor.asset_index].id.clone(),
                    entry_path: editor.entry_path.clone(),
                    texture_index: editor.texture_index,
                    dds_path: texture.dds_path.clone(),
                    preview_png_path: texture.preview_png_path.clone(),
                    format: texture.format.clone(),
                    mips: texture.mips,
                    width: texture.width,
                    height: texture.height,
                    cells,
                };
            },
            _ => {
                return None;
            },
        }
        self.start_job(message);
        Some(job)
    }
}

/// Where a built file is copied to.
pub open spec fn copy_target(root: Seq<u8>, app: App, asset: ImportedAsset) -> Seq<u8> {
    joined_bytes(
        joined_bytes(root, nested_path(folder_names(app.folders@, asset.folder_id))),
        match file_name_bytes(asset.source_path.bytes()) {
            Some(name) => name,
            None => encode_utf8(""@),
        },
    )
}

/// The paths of a list of copies.
pub open spec fn copies(list: Seq<(PathBuf, PathBuf)>) -> Seq<(Seq<u8>, Seq<u8>)> {
    Seq::new(list.len(), |i: int| (list[i].0.bytes(), list[i].1.bytes()))
}

/// The copies of all built files among the first `n` assets.
pub open spec fn copies_upto(app: App, root: Seq<u8>, n: int) -> Seq<(Seq<u8>, Seq<u8>)>
    decreases n,
{
    if n <= 0 {
        Seq::empty()
    } else {
        let before = copies_upto(app, root, n - 1);
        let asset = app.assets@[n - 1];
        match asset.last_saved_path {
            Some(built) => before.push((built.bytes(), copy_target(root, app, asset))),
            None => before,
        }
    }
}

impl App {
    fn copy_jobs(&self, root: &Path) -> (r: Vec<(PathBuf, PathBuf)>)
        requires
            self.well_formed(),
        ensures
            copies(r@) == copies_upto(*self, root.bytes(), self.assets@.len() as int),
    {
        let mut jobs: Vec<(PathBuf, PathBuf)> = Vec::new();
        let mut i: usize = 0;
        assert(copies(jobs@) =~= copies_upto(*self, root.bytes(), 0));
        while i < self.assets.len()
            invariant
                self.well_formed(),
                0 <= i <= self.assets@.len(),
                copies(jobs@) == copies_upto(*self, root.bytes(), i as int),
            decreases self.assets@.len() - i,
        {
            let asset = &self.assets[i];
            let ghost before = copies(jobs@);
            if let Some(built) = &asset.last_saved_path {
                let folder = self.folder_path_buf(asset.folder_id);
                let target_dir = paths::join_path(root, folder.as_path());
                let name = match paths::file_name_path(asset.source_path.as_path()) {
                    Some(name) => name,
                    None => paths::path_from(""),
                };
                let target = paths::join_path(target_dir.as_path(), name.as_path());
                let source = built.clone();
                jobs.push((source, target));
                assert(copies(jobs@) =~= before.push((source.bytes(), target.bytes())));
            }
            i += 1;
        }
        jobs
    }

    /// Starts to copy all built files into a destination.
    pub fn queue_copy_all(&mut self, destination: &str) -> (r: Option<Vec<(PathBuf, PathBuf)>>)
        requires
            old(self).well_formed(),
            old(self).pending_jobs < usize::MAX,
        ensures
            ({
                let all = copies_upto(
                    *old(self),
                    encode_utf8(trimmed(destination@)),
                    old(self).assets@.len() as int,
                );
                if trimmed(destination@).len() == 0 {
                    r is None && said(
                        *old(self),
                        *final(self),
                        "Choose a copy destination first."@,
                    )
                } else if all.len() == 0 {
                    r is None && said(
                        *old(self),
                        *final(self),
                        "There are no built files to copy yet."@,
                    )
                } else {
                    &&& r matches Some(jobs)
                    &&& copies(jobs@) == all
                    &&& job_started(
                        *old(self),
                        *final(self),
                        "Copying "@ + decimal(all.len()) + " built file(s)..."@,
                    )
                }
            }),
            final(self).well_formed(),
    {
        let destination = text::trim(destination);
        proof {
            reveal_strlit("");
            if destination@.len() == 0 {
                assert(destination@ =~= ""@);
            }
        }
        if text::same_text(destination.as_str(), "") {
            self.set_status("Choose a copy destination first.".to_owned());
            return None;
        }
        let root = paths::path_from(destination.as_str());
        let jobs = self.copy_jobs(root.as_path());
        assert(copies(jobs@).len() == jobs@.len());
        if jobs.len() == 0 {
            self.set_status("There are no built files to copy yet.".to_owned());
            return None;
        }
        let mut message = "Copying ".to_owned();
        message.append(text::show(jobs.len() as u64).as_str());
        message.append(" built file(s)...");
        self.start_job(message);
        Some(jobs)
    }
}

/// What the action of a setup step asks for.
#[derive(Clone, Copy, PartialEq, Eq, Structural)]
pub enum SetupCommand {
    Nothing,
    Refresh,
    DownloadCodeWalker,
    BuildHelper,
    ChooseGameFolder,
    Finish,
}

/// Whether the action of the current step of the setup was taken as it should be.
pub open spec fn setup_acted(before: App, root_is_dir: bool, after: App, r: SetupCommand) -> bool {
    match before.setup_step {
        SetupStep::Welcome => r is Refresh && after == (App {
            setup_step: SetupStep::ExternalTools,
            ..before
        }),
        SetupStep::ExternalTools => if before.setup_status.codewalker_source {
            r is Nothing && after == before
        } else {
            r is DownloadCodeWalker && job_started(
                before,
                after,
                "Downloading CodeWalker into the app external folder..."@,
            )
        },
        SetupStep::SystemDependencies => r is Nothing && after == before,
        SetupStep::BuildHelper => if before.setup_status.cwassettool_binary {
            r is Nothing && after == before
        } else {
            r is BuildHelper && job_started(
                before,
                after,
                "Building CwAssetTool helper..."@,
            )
        },
        SetupStep::GameFolder => r is ChooseGameFolder && after == before,
        SetupStep::Ready => if before.setup_status.ready() && before.game_root(
            root_is_dir,
        ) is Some {
            r is Finish && after == (App {
                config: AppConfig {
                    setup_complete: true,
                    setup_revision: CURRENT_SETUP_REVISION,
                    ..before.config
                },
                ..before
            })
        } else {
            r is Nothing && said(before, after, "Setup is not complete yet."@)
        },
    }
}

impl App {
    /// Carries out the action of the setup step.
    pub fn handle_setup_action(&mut self, root_is_dir: bool) -> (r: SetupCommand)
        requires
            old(self).pending_jobs < usize::MAX,
        ensures
            setup_acted(*old(self), root_is_dir, *final(self), r),
            old(self).well_formed() ==> final(self).well_formed(),
    {
        match self.setup_step {
            SetupStep::Welcome => {
                self.setup_step = SetupStep::ExternalTools;
                SetupCommand::Refresh
            },
            SetupStep::ExternalTools => {
                if self.setup_status.codewalker_source {
                    return SetupCommand::Nothing;
                }
                self.queue_download_codewalker();
                SetupCommand::DownloadCodeWalker
            },
            SetupStep::SystemDependencies => SetupCommand::Nothing,
            SetupStep::BuildHelper => {
                if self.setup_status.cwassettool_binary {
                    return SetupCommand::Nothing;
                }
                self.queue_build_helper();
                SetupCommand::BuildHelper
            },
            SetupStep::GameFolder => SetupCommand::ChooseGameFolder,
            SetupStep::Ready => {
                if !self.setup_status.setup_ready() || self.game_root_path(root_is_dir).is_none() {
                    self.set_status("Setup is not complete yet.".to_owned());
                    return SetupCommand::Nothing;
                }
                self.config.setup_complete = true;
                self.config.setup_revision = CURRENT_SETUP_REVISION;
                SetupCommand::Finish
            },
        }
    }
}

/// Once the setup was finished, it is not asked for again while the tools and the game folder
/// are there.
pub proof fn a_finished_setup_is_not_asked_for_again(before: App, after: App, root_is_dir: bool)
    requires
        before.setup_status.ready(),
        before.game_root(root_is_dir) is Some,
        after == (App {
            config: AppConfig {
                setup_complete: true,
                setup_revision: CURRENT_SETUP_REVISION,
                ..before.config
            },
            ..before
        }),
    ensures
        !after.needs_setup(root_is_dir),
{
}

/// The assets that are saved together are those with unsaved changes, each once and in their order.
pub proof fn every_changed_asset_is_saved(assets: Seq<ImportedAsset>, n: int)
    requires
        0 <= n <= assets.len(),
    ensures
        dirty_upto(assets, n) == places(n).filter(|i: int| assets[i].dirty),
    decreases n,
{
    reveal(Seq::filter);
    if n > 0 {
        every_changed_asset_is_saved(assets, n - 1);
        assert(places(n).drop_last() =~= places(n - 1));
        assert(places(n).last() == n - 1);
    }
}

/// A save works on the file of its asset and builds it from its own description; whether there is a
/// backup follows from the settings. What is not changed is not saved.
pub proof fn a_save_is_that_of_its_asset(before: App, i: int, after: App, job: Option<SaveJob>)
    requires
        0 <= i < before.assets@.len(),
        save_started(before, i, after, job),
    ensures
        job is Some <==> before.assets@[i].dirty,
        job matches Some(save) ==> {
            &&& save.asset_id == before.assets@[i].id
            &&& save.source_path == before.assets@[i].source_path
            &&& save.xml_path == before.assets@[i].xml_path
            &&& save.backup_before_save == before.config.backup_before_save
            &&& build_steps(save.actions@) == before.assets@[i].rebuild()
            &&& after.pending_jobs == (before.pending_jobs + 1) as usize
        },
        after.assets == before.assets,
{
}

/// An archive is rebuilt with its new folders first: no folder is made behind a change of an entry. The
/// changes of the entries follow in full.
pub proof fn new_folders_are_made_first(asset: ImportedAsset, i: int, j: int)
    requires
        0 <= i < j < asset.rebuild().len(),
        asset.rebuild()[j] is AddFolder,
    ensures
        asset.rebuild()[i] is AddFolder,
        entry_steps(asset.archive_entries@).len() <= asset.rebuild().len(),
        asset.rebuild().skip(asset.rebuild().len() - entry_steps(asset.archive_entries@).len())
            == entry_steps(asset.archive_entries@),
{
    let folders = asset.pending_archive_folders@;
    let order = crate::order::stable_order(crate::assets::folder_keys(folders));
    let first = crate::assets::folder_steps(folders, order, folders.len() as int);
    let behind = entry_steps(asset.archive_entries@);
    reveal(ImportedAsset::rebuild);
    lemma_folder_kind(folders, order, folders.len() as int);
    lemma_entry_kind(asset.archive_entries@);
    assert(asset.rebuild() == first + behind);
    if j >= first.len() {
        assert(asset.rebuild()[j] == behind[j - first.len()]);
    }
    assert(asset.rebuild()[i] == first[i]);
    assert(asset.rebuild().skip(first.len() as int) =~= behind);
}

proof fn lemma_folder_kind(
    folders: Seq<crate::assets::PendingArchiveFolder>,
    order: Seq<int>,
    k: int,
)
    ensures
        forall|i: int|
            0 <= i < crate::assets::folder_steps(folders, order, k).len() ==> (
            #[trigger] crate::assets::folder_steps(folders, order, k)[i]) is AddFolder,
    decreases k,
{
    if k > 0 {
        lemma_folder_kind(folders, order, k - 1);
        let before = crate::assets::folder_steps(folders, order, k - 1);
        let after = crate::assets::folder_steps(folders, order, k);
        assert forall|i: int| 0 <= i < after.len() implies (#[trigger] after[i]) is AddFolder by {
            if i < before.len() {
                assert(after[i] == before[i]);
            }
        }
    }
}

proof fn lemma_entry_kind(entries: Seq<crate::assets::ImportedArchiveEntry>)
    ensures
        forall|i: int|
            0 <= i < entry_steps(entries).len() ==> !((#[trigger] entry_steps(
                entries,
            )[i]) is AddFolder),
    decreases entries.len(),
{
    if entries.len() > 0 {
        lemma_entry_kind(entries.drop_last());
        let before = entry_steps(entries.drop_last());
        let after = entry_steps(entries);
        assert forall|i: int| 0 <= i < after.len() implies !((#[trigger] after[i]) is AddFolder) by {
            if i < before.len() {
                assert(after[i] == before[i]);
            }
        }
    }
}

/// A texture that can be written is written: with its own format, mip levels and size, to its own file,
/// from the cells of the edited layout; the alpha channel is kept exactly where the format has one.
pub proof fn an_edited_texture_is_written(
    before: App,
    after: App,
    job: Option<ApplyJob>,
    root_is_dir: bool,
)
    requires
        apply_started(before, after, job),
    ensures
        before.can_apply(root_is_dir) ==> job is Some,
        job matches Some(j) ==> {
            let editor = before.editor->0;
            let texture = before.edited_texture();
            &&& before.editor is Some && before.edited_texture_there()
            &&& texture.format@.writable() && editor.root@.missing() == 0
            &&& j.asset_id == before.assets@[editor.asset_index as int].id
            &&& j.entry_path == editor.entry_path && j.texture_index == editor.texture_index
            &&& j.dds_path == texture.dds_path && j.preview_png_path == texture.preview_png_path
            &&& j.format == texture.format && j.mips == texture.mips
            &&& j.width == texture.width && j.height == texture.height
            &&& shows(j.cells@, leaves(editor.root@), texture.format@.alpha())
            &&& j.cells@ == editor.root@.cells(
                PixelRect { x: 0, y: 0, width: texture.width, height: texture.height },
                texture.format@.alpha(),
            )
        },
        job is None ==> after.pending_jobs == before.pending_jobs,
        after.assets == before.assets && after.editor == before.editor,
{
    if job is Some {
        let texture = before.edited_texture();
        each_leaf_has_its_cell(
            before.editor->0.root@,
            whole(texture.width, texture.height),
            texture.format@.alpha(),
        );
    }
}

/// The file of an asset that was built, and where it is copied to.
pub open spec fn copy_of(app: App, root: Seq<u8>, i: int) -> Option<(Seq<u8>, Seq<u8>)> {
    match app.assets@[i].last_saved_path {
        Some(built) => Some((built.bytes(), copy_target(root, app, app.assets@[i]))),
        None => None,
    }
}

/// Each file that was built is copied, once and in order, into the folder of its asset below the
/// destination and under the name of the asset.
pub proof fn each_built_file_is_copied(app: App, root: Seq<u8>, n: int, i: int, name: Seq<u8>)
    requires
        0 <= n <= app.assets@.len(),
    ensures
        copies_upto(app, root, n) == places(n).filter_map(|k: int| copy_of(app, root, k)),
        0 <= i < app.assets@.len() && file_name_bytes(app.assets@[i].source_path.bytes()) == Some(
            name,
        ) ==> copy_target(root, app, app.assets@[i]) == joined_bytes(
            joined_bytes(root, nested_path(folder_names(app.folders@, app.assets@[i].folder_id))),
            name,
        ),
    decreases n,
{
    reveal(Seq::filter_map);
    if n > 0 {
        each_built_file_is_copied(app, root, n - 1, i, name);
        assert(places(n).drop_last() =~= places(n - 1));
        assert(places(n).last() == n - 1);
    }
}

proof fn lemma_dirty_listed(assets: Seq<ImportedAsset>, n: int, a: int) -> (k: int)
    requires
        0 <= a < n <= assets.len(),
        assets[a].dirty,
    ensures
        0 <= k < dirty_upto(assets, n).len(),
        dirty_upto(assets, n)[k] == a,
    decreases n,
{
    if a == n - 1 {
        dirty_upto(assets, n).len() - 1
    } else {
        lemma_dirty_listed(assets, n - 1, a)
    }
}

/// Saving everything starts a job for each asset that has staged changes, that of its own file, and none
/// for any other; the assets stay as they are until the jobs are done.
pub proof fn saving_all_saves_each_changed_asset(
    before: App,
    after: App,
    jobs: Seq<SaveJob>,
    a: int,
)
    requires
        saves_started(before, before.assets@.len() as int, after, jobs),
        0 <= a < before.assets@.len(),
    ensures
        before.assets@[a].dirty ==> exists|k: int|
            0 <= k < jobs.len() && (#[trigger] jobs[k]).asset_id == before.assets@[a].id
                && jobs[k].source_path == before.assets@[a].source_path && jobs[k].xml_path
                == before.assets@[a].xml_path && build_steps(jobs[k].actions@)
                == before.assets@[a].rebuild(),
        jobs.len() == places(before.assets@.len() as int).filter(
            |i: int| before.assets@[i].dirty,
        ).len(),
        after.assets == before.assets && after.config == before.config,
        jobs.len() == 0 ==> after == before,
{
    every_changed_asset_is_saved(before.assets@, before.assets@.len() as int);
    if before.assets@[a].dirty {
        let k = lemma_dirty_listed(before.assets@, before.assets@.len() as int, a);
        assert(saves(
            jobs[k],
            before.assets@[dirty_upto(before.assets@, before.assets@.len() as int)[k]],
            before.config,
        ));
    }
}

/// The action of a step does something exactly when it can be started. Only what is missing is fetched or
/// built, as one more job; only a setup that is ready is finished, and only that changes the settings.
pub proof fn an_action_does_what_can_be_started(
    before: App,
    root_is_dir: bool,
    after: App,
    r: SetupCommand,
)
    requires
        setup_acted(before, root_is_dir, after, r),
    ensures
        !(r is Nothing) <==> may_act(
            before.setup_step,
            before.setup_status,
            before.game_root(root_is_dir) is Some,
        ),
        r is DownloadCodeWalker ==> !before.setup_status.codewalker_source,
        r is BuildHelper ==> !before.setup_status.cwassettool_binary,
        after.pending_jobs == if r is DownloadCodeWalker || r is BuildHelper {
            (before.pending_jobs + 1) as usize
        } else {
            before.pending_jobs
        },
        r is Finish ==> before.setup_step is Ready && after.config.setup_complete
            && after.config.setup_revision == CURRENT_SETUP_REVISION && before.game_root(
            root_is_dir,
        ) is Some,
        !(r is Finish) ==> after.config == before.config,
        r is Refresh ==> before.setup_step.following() == Some(after.setup_step),
        !(r is Refresh) ==> after.setup_step == before.setup_step,
        r is ChooseGameFolder <==> before.setup_step is GameFolder,
        after.assets == before.assets,
{
}

/// What is saved is told by the name of its file.
pub proof fn a_save_is_told_by_its_file(asset: ImportedAsset)
    ensures
        occurs(saving_text(asset), title_of(asset.source_path.bytes())),
{
    let told = saving_text(asset);
    let title = title_of(asset.source_path.bytes());
    let at = "Applying changes to "@.len() as int;
    assert(told.subrange(at, at + title.len()) =~= title);
    assert(occurs_at(told, title, at));
}

}
