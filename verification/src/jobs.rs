//! Taking in what background jobs have come to.

use crate::app::App;
use crate::archive::{ArchiveContentKind, ArchiveTextSourceKind};
use crate::assets::{
    asset_from, ArchiveEntryOpenOutcome, ImportedArchiveEntry, ImportedArchiveEntryData,
    ImportedArchiveEntryDraft, ImportedArchiveTextDraft, ImportedAsset, ImportedAssetDraft,
};
use crate::browse::{
    asset_at, asset_changed, asset_named, asset_selected, changed, has_texture, place,
    preview_requested, texture_in, PreviewJob, TextureChange,
};
use crate::paths::{self, path_class, shown_path, title_of, PathBytes};
use crate::setup::SetupStep;
use crate::text::{self, decimal, opt_text};
use crate::textures::{entries_of, texture_entries, TextureEntry};
use std::path::PathBuf;
use vstd::prelude::*;

verus! {

/// Why there is no preview.
pub enum PreviewTrouble {
    Generation(String),
    Load(String),
}

/// What a background job came to. A preview that was loaded is named by a number; with a save
/// come the texts that the staged files of the archive's entries hold now, as far as they could
/// be read.
#[allow(inconsistent_fields)]
pub enum JobResult {
    ImportFinished { source_path: PathBuf, result: Result<ImportedAssetDraft, String> },
    OpenArchiveEntryFinished {
        asset_id: String,
        entry_path: String,
        result: Result<ArchiveEntryOpenOutcome, String>,
    },
    DownloadCodeWalkerFinished(Result<(), String>),
    BuildHelperFinished(Result<(), String>),
    PrepareVulkanRuntimeFinished(Result<String, String>),
    UpdateCodeWalkerFinished(Result<String, String>),
    PreviewFinished {
        asset_id: String,
        entry_path: Option<String>,
        texture_index: usize,
        result: Result<u64, PreviewTrouble>,
    },
    SaveFinished { asset_id: String, result: Result<PathBuf, String>, texts: Vec<Option<String>> },
    ApplyFinished {
        asset_id: String,
        entry_path: Option<String>,
        texture_index: usize,
        result: Result<(), String>,
    },
    LaunchProgress(String),
    LaunchFinished(Result<String, String>),
    CopyAllFinished(Result<usize, String>),
}

/// What has to follow on a job: a preview, a message for the user, and whether the tools have to
/// be looked for again.
pub struct FollowUp {
    pub preview: Option<PreviewJob>,
    pub toast: Option<String>,
    pub detect: bool,
}

/// Whether nothing follows but the given preview.
pub open spec fn only_preview(r: FollowUp, preview: Option<PreviewJob>) -> bool {
    r.preview == preview && r.toast is None && !r.detect
}

/// Whether nothing follows.
pub open spec fn nothing_follows(r: FollowUp) -> bool {
    r.preview is None && r.toast is None && !r.detect
}

/// Whether only the status changed, to the given text.
pub open spec fn said(before: App, after: App, message: Seq<char>) -> bool {
    after == (App { status: after.status, ..before }) && after.status@ == message
}

fn quiet() -> (r: FollowUp)
    ensures
        nothing_follows(r),
{
    FollowUp { preview: None, toast: None, detect: false }
}

fn message_of(start: &str, rest: &str) -> (r: String)
    ensures
        r@ == start@ + rest@,
{
    let mut out = start.to_owned();
    out.append(rest);
    out
}

/// The state with one job less under way.
pub open spec fn job_done(before: App) -> App {
    App {
        pending_jobs: if before.pending_jobs > 0 {
            (before.pending_jobs - 1) as usize
        } else {
            0
        },
        ..before
    }
}

/// Whether an imported asset is among the opened ones, at position `i`: it was, or it is new.
pub open spec fn asset_taken_in(
    before: App,
    source: PathBuf,
    draft: ImportedAssetDraft,
    i: int,
    after: App,
) -> bool {
    &&& after == (App {
        pending_import_paths: after.pending_import_paths,
        assets: after.assets,
        ..before
    })
    &&& after.pending_import_paths@ == before.pending_import_paths@.remove(
        path_class(source.bytes()),
    )
    &&& match asset_at(before.assets@, path_class(draft.source_path.bytes())) {
        Some(k) => i == k && after.assets@ == before.assets@,
        None => i == before.assets@.len() && after.assets@.len() == before.assets@.len() + 1
            && after.assets@.drop_last() == before.assets@ && asset_from(
            draft,
            after.assets@.last(),
        ),
    }
}

/// Whether an import was taken in as it should be.
pub open spec fn import_taken_in(
    before: App,
    source: PathBuf,
    result: Result<ImportedAssetDraft, String>,
    after: App,
    r: FollowUp,
) -> bool {
    match result {
        Ok(draft) => exists|i: int, taken: App, shown: App, asked: App| #[trigger]
            asset_taken_in(before, source, draft, i, taken) && #[trigger] asset_selected(
                taken,
                i,
                shown,
            ) && only_preview(r, r.preview) && #[trigger] preview_requested(
                shown,
                asked,
                r.preview,
            ) && said(
                asked,
                after,
                "Opened "@ + title_of(taken.assets@[i].source_path.bytes()),
            ),
        Err(error) => {
            &&& nothing_follows(r)
            &&& after == (App {
                pending_import_paths: after.pending_import_paths,
                status: after.status,
                ..before
            })
            &&& after.pending_import_paths@ == before.pending_import_paths@.remove(
                path_class(source.bytes()),
            )
            &&& after.status@ == "Import failed: "@ + error@
        },
    }
}

impl App {
    fn take_in_asset(&mut self, source_path: &PathBuf, draft: ImportedAssetDraft) -> (r: usize)
        ensures
            asset_taken_in(*old(self), *source_path, draft, r as int, *final(self)),
            r < final(self).assets@.len(),
            old(self).well_formed() ==> final(self).well_formed(),
    {
        self.pending_import_paths.remove(source_path.as_path());
        match self.asset_index_for_source_path(draft.source_path.as_path()) {
            Some(i) => i,
            None => {
                let ghost before = self.assets@;
                let i: usize = self.assets.len();
                self.assets.push(ImportedAsset::from_draft(draft));
                assert(self.assets@.drop_last() =~= before);
                i
            },
        }
    }

    fn finish_import(&mut self, source_path: PathBuf, result: Result<ImportedAssetDraft, String>) -> (r:
        FollowUp)
        requires
            old(self).pending_jobs < usize::MAX,
        ensures
            import_taken_in(*old(self), source_path, result, *final(self), r),
            old(self).well_formed() ==> final(self).well_formed(),
    {
        match result {
            Ok(draft) => {
                let i: usize = self.take_in_asset(&source_path, draft);
                let ghost taken = *self;
                let mut message = "Opened ".to_owned();
                message.append(self.assets[i].title().as_str());
                let preview = self.select_asset(i);
                let ghost asked = *self;
                let ghost shown = choose|shown: App| #[trigger]
                    asset_selected(taken, i as int, shown) && preview_requested(
                        shown,
                        asked,
                        preview,
                    );
                self.set_status(message);
                let r = FollowUp { preview, toast: None, detect: false };
                assert(asset_taken_in(*old(self), source_path, draft, i as int, taken)
                    && asset_selected(taken, i as int, shown) && preview_requested(
                    shown,
                    asked,
                    r.preview,
                ));
                r
            },
            Err(error) => {
                self.pending_import_paths.remove(source_path.as_path());
                self.set_status(message_of("Import failed: ", error.as_str()));
                quiet()
            },
        }
    }
}

/// Whether an entry holds the textures of a draft.
pub open spec fn entry_with_textures(
    draft: ImportedArchiveEntryDraft,
    entry: ImportedArchiveEntry,
) -> bool {
    &&& entry.entry_path == draft.entry_path
    &&& entry.title == draft.title
    &&& entry.content_kind is TextureAsset
    &&& !entry.dirty
    &&& !entry.added
    &&& entry.data matches ImportedArchiveEntryData::TextureAsset { xml_path, textures }
    &&& xml_path == draft.xml_path
    &&& textures@ == entries_of(draft.textures@)
}

/// The entry that holds the text of a draft.
pub open spec fn entry_with_text(draft: ImportedArchiveTextDraft) -> ImportedArchiveEntry {
    ImportedArchiveEntry {
        entry_path: draft.entry_path,
        title: draft.title,
        content_kind: match draft.source_kind {
            ArchiveTextSourceKind::RawText => ArchiveContentKind::XmlText,
            ArchiveTextSourceKind::YmtXml => ArchiveContentKind::ConvertedXml,
        },
        data: ImportedArchiveEntryData::XmlText {
            source_path: draft.source_path,
            original_text: draft.original_text,
            source_kind: draft.source_kind,
        },
        dirty: false,
        added: false,
    }
}

/// The entries with one that takes the place of the entry with its path, or stands behind them.
pub open spec fn with_entry(
    entries: Seq<ImportedArchiveEntry>,
    entry: ImportedArchiveEntry,
) -> Seq<ImportedArchiveEntry> {
    match crate::assets::entry_at(entries, entry.entry_path@) {
        Some(i) => entries.update(i, entry),
        None => entries.push(entry),
    }
}

/// Whether an asset took in an entry that was opened, and shows it.
pub open spec fn entry_taken_in(
    before: ImportedAsset,
    after: ImportedAsset,
    path: String,
    entry: ImportedArchiveEntry,
) -> bool {
    &&& after == (ImportedAsset {
        archive_entries: after.archive_entries,
        archive_selected_file: Some(path),
        archive_file_notice: None,
        archive_file_loading_path: None,
        ..before
    })
    &&& after.archive_entries@ == with_entry(before.archive_entries@, entry)
}

/// Whether the textures of an entry were taken in.
pub open spec fn textures_taken_in(
    before: App,
    a: int,
    path: String,
    draft: ImportedArchiveEntryDraft,
    after: App,
    r: FollowUp,
) -> bool {
    only_preview(r, r.preview) && exists|entry: ImportedArchiveEntry, taken: App, asked: App|
        #[trigger] entry_with_textures(draft, entry) && #[trigger] entry_shown_in(
            before,
            a,
            path,
            entry,
            Some(0usize),
            taken,
        ) && #[trigger] preview_requested(taken, asked, r.preview) && said(
            asked,
            after,
            "Opened "@ + draft.title@,
        )
}

/// Whether the text of an entry was taken in.
pub open spec fn text_taken_in(
    before: App,
    a: int,
    path: String,
    draft: ImportedArchiveTextDraft,
    after: App,
) -> bool {
    exists|taken: App| #[trigger]
        entry_shown_in(before, a, path, entry_with_text(draft), None, taken) && said(
            taken,
            after,
            "Opened "@ + draft.title@,
        )
}

/// Whether it was noted that an entry is not supported.
pub open spec fn refusal_taken_in(
    before: App,
    a: int,
    path: String,
    message: String,
    after: App,
) -> bool {
    &&& after == (App { assets: after.assets, selected_texture: None, status: message, ..before })
    &&& after.assets@ == before.assets@.update(
        a,
        ImportedAsset {
            archive_selected_file: Some(path),
            archive_file_notice: Some(message),
            archive_file_loading_path: None,
            ..before.assets@[a]
        },
    )
}

/// Whether it was noted that opening an entry failed.
pub open spec fn failure_taken_in(before: App, a: int, error: String, after: App) -> bool {
    &&& after == (App {
        assets: after.assets,
        selected_texture: None,
        status: after.status,
        ..before
    })
    &&& after.status@ == "Open failed: "@ + error@
    &&& opt_text(after.assets@[a].archive_file_notice) == Some("Not supported."@)
    &&& after.assets@ == before.assets@.update(
        a,
        ImportedAsset {
            archive_file_notice: after.assets@[a].archive_file_notice,
            archive_file_loading_path: None,
            ..before.assets@[a]
        },
    )
}

/// Whether an entry that was opened was taken in as it should be.
pub open spec fn entry_result_taken_in(
    before: App,
    asset_id: Seq<char>,
    path: String,
    result: Result<ArchiveEntryOpenOutcome, String>,
    after: App,
    r: FollowUp,
) -> bool {
    match asset_named(before.assets@, asset_id) {
        None => after == before && nothing_follows(r),
        Some(a) => match result {
            Ok(ArchiveEntryOpenOutcome::TextureAsset(draft)) => textures_taken_in(
                before,
                a,
                path,
                draft,
                after,
                r,
            ),
            Ok(ArchiveEntryOpenOutcome::XmlText(draft)) => nothing_follows(r) && text_taken_in(
                before,
                a,
                path,
                draft,
                after,
            ),
            Ok(ArchiveEntryOpenOutcome::Unsupported(message)) => nothing_follows(r)
                && refusal_taken_in(before, a, path, message, after),
            Err(error) => nothing_follows(r) && failure_taken_in(before, a, error, after),
        },
    }
}

/// Whether an entry was taken into an asset, and a texture of it selected.
pub open spec fn entry_shown_in(
    before: App,
    a: int,
    path: String,
    entry: ImportedArchiveEntry,
    texture: Option<usize>,
    after: App,
) -> bool {
    &&& after == (App { assets: after.assets, selected_texture: texture, ..before })
    &&& after.assets@ == before.assets@.update(a, after.assets@[a])
    &&& entry_taken_in(before.assets@[a], after.assets@[a], path, entry)
}

impl ImportedAsset {
    fn put_entry(&mut self, path: String, entry: ImportedArchiveEntry)
        ensures
            entry_taken_in(*old(self), *final(self), path, entry),
    {
        match self.entry_position(entry.entry_path.as_str()) {
            Some(i) => {
                self.archive_entries.set(i, entry);
            },
            None => {
                self.archive_entries.push(entry);
            },
        }
        self.archive_selected_file = Some(path);
        self.archive_file_notice = None;
        self.archive_file_loading_path = None;
    }
}

fn texture_entry(draft: ImportedArchiveEntryDraft) -> (r: ImportedArchiveEntry)
    ensures
        entry_with_textures(draft, r),
{
    ImportedArchiveEntry {
        entry_path: draft.entry_path,
        title: draft.title,
        content_kind: ArchiveContentKind::TextureAsset,
        data: ImportedArchiveEntryData::TextureAsset {
            xml_path: draft.xml_path,
            textures: texture_entries(draft.textures),
        },
        dirty: false,
        added: false,
    }
}

fn text_entry(draft: ImportedArchiveTextDraft) -> (r: ImportedArchiveEntry)
    ensures
        r == entry_with_text(draft),
{
    ImportedArchiveEntry {
        entry_path: draft.entry_path,
        title: draft.title,
        content_kind: match draft.source_kind {
            ArchiveTextSourceKind::RawText => ArchiveContentKind::XmlText,
            ArchiveTextSourceKind::YmtXml => ArchiveContentKind::ConvertedXml,
        },
        data: ImportedArchiveEntryData::XmlText {
            source_path: draft.source_path,
            original_text: draft.original_text,
            source_kind: draft.source_kind,
        },
        dirty: false,
        added: false,
    }
}

impl App {
    fn take_in_entry(
        &mut self,
        a: usize,
        path: String,
        entry: ImportedArchiveEntry,
        texture: Option<usize>,
    )
        requires
            a < old(self).assets@.len(),
        ensures
            entry_shown_in(*old(self), a as int, path, entry, texture, *final(self)),
            old(self).well_formed() ==> final(self).well_formed(),
    {
        let ghost before = self.assets@;
        self.assets[a].put_entry(path, entry);
        self.selected_texture = texture;
        assert(self.assets@ =~= before.update(a as int, self.assets@[a as int]));
    }

    fn take_in_textures(&mut self, a: usize, path: String, draft: ImportedArchiveEntryDraft) -> (r:
        FollowUp)
        requires
            old(self).pending_jobs < usize::MAX,
            a < old(self).assets@.len(),
        ensures
            textures_taken_in(*old(self), a as int, path, draft, *final(self), r),
            old(self).well_formed() ==> final(self).well_formed(),
    {
        let message = message_of("Opened ", draft.title.as_str());
        let entry = texture_entry(draft);
        self.take_in_entry(a, path, entry, Some(0));
        let ghost taken = *self;
        let preview = self.request_preview_for_selected_texture();
        let ghost asked = *self;
        self.set_status(message);
        let r = FollowUp { preview, toast: None, detect: false };
        assert(entry_with_textures(draft, entry) && entry_shown_in(
            *old(self),
            a as int,
            path,
            entry,
            Some(0usize),
            taken,
        ) && preview_requested(taken, asked, r.preview));
        r
    }

    fn take_in_text(&mut self, a: usize, path: String, draft: ImportedArchiveTextDraft)
        requires
            a < old(self).assets@.len(),
        ensures
            text_taken_in(*old(self), a as int, path, draft, *final(self)),
            old(self).well_formed() ==> final(self).well_formed(),
    {
        let message = message_of("Opened ", draft.title.as_str());
        self.take_in_entry(a, path, text_entry(draft), None);
        let ghost taken = *self;
        self.set_status(message);
        assert(entry_shown_in(*old(self), a as int, path, entry_with_text(draft), None, taken));
    }

    fn take_in_refusal(&mut self, a: usize, path: String, message: String)
        requires
            a < old(self).assets@.len(),
        ensures
            refusal_taken_in(*old(self), a as int, path, message, *final(self)),
            old(self).well_formed() ==> final(self).well_formed(),
    {
        let ghost before = self.assets@;
        self.assets[a].archive_selected_file = Some(path);
        self.assets[a].archive_file_notice = Some(message.clone());
        self.assets[a].archive_file_loading_path = None;
        assert(self.assets@ =~= before.update(a as int, self.assets@[a as int]));
        self.selected_texture = None;
        self.set_status(message);
    }

    fn take_in_failure(&mut self, a: usize, error: String)
        requires
            a < old(self).assets@.len(),
        ensures
            failure_taken_in(*old(self), a as int, error, *final(self)),
            old(self).well_formed() ==> final(self).well_formed(),
    {
        let ghost before = self.assets@;
        self.assets[a].archive_file_notice = Some("Not supported.".to_owned());
        self.assets[a].archive_file_loading_path = None;
        assert(self.assets@ =~= before.update(a as int, self.assets@[a as int]));
        self.selected_texture = None;
        self.set_status(message_of("Open failed: ", error.as_str()));
    }

    fn finish_open_entry(
        &mut self,
        asset_id: &str,
        entry_path: String,
        result: Result<ArchiveEntryOpenOutcome, String>,
    ) -> (r: FollowUp)
        requires
            old(self).pending_jobs < usize::MAX,
        ensures
            entry_result_taken_in(*old(self), asset_id@, entry_path, result, *final(self), r),
            old(self).well_formed() ==> final(self).well_formed(),
    {
        let a: usize = match self.asset_index_for_id(asset_id) {
            Some(a) => a,
            None => {
                return quiet();
            },
        };
        match result {
            Ok(ArchiveEntryOpenOutcome::TextureAsset(draft)) => self.take_in_textures(
                a,
                entry_path,
                draft,
            ),
            Ok(ArchiveEntryOpenOutcome::XmlText(draft)) => {
                self.take_in_text(a, entry_path, draft);
                quiet()
            },
            Ok(ArchiveEntryOpenOutcome::Unsupported(message)) => {
                self.take_in_refusal(a, entry_path, message);
                quiet()
            },
            Err(error) => {
                self.take_in_failure(a, error);
                quiet()
            },
        }
    }
}

/// The position of the entry that a job speaks of, where it speaks of one that is there.
pub open spec fn entry_of_job(asset: ImportedAsset, path: Option<String>) -> Option<int> {
    match path {
        Some(p) => asset.entry(p@),
        None => None,
    }
}

/// Whether the texture that a job speaks of is there.
pub open spec fn texture_of_job(asset: ImportedAsset, path: Option<String>, t: int) -> bool {
    (path is Some ==> entry_of_job(asset, path) is Some) && has_texture(
        asset,
        entry_of_job(asset, path),
        t,
    )
}

/// Whether one texture of one asset changed, and the status says so.
pub open spec fn texture_reported(
    before: App,
    a: int,
    path: Option<String>,
    t: int,
    change: TextureChange,
    message: Seq<char>,
    after: App,
) -> bool {
    &&& after == (App { assets: after.assets, status: after.status, ..before })
    &&& after.status@ == message
    &&& after.assets@ == before.assets@.update(a, after.assets@[a])
    &&& asset_changed(
        before.assets@[a],
        after.assets@[a],
        entry_of_job(before.assets@[a], path),
        t,
        change,
    )
}

/// Whether a preview was taken in as it should be.
pub open spec fn preview_taken_in(
    before: App,
    asset_id: Seq<char>,
    path: Option<String>,
    t: int,
    result: Result<u64, PreviewTrouble>,
    after: App,
) -> bool {
    match asset_named(before.assets@, asset_id) {
        Some(a) if texture_of_job(before.assets@[a], path, t) => {
            let texture = texture_in(
                before.assets@[a],
                entry_of_job(before.assets@[a], path),
                t,
            );
            match result {
                Ok(picture) => texture_reported(
                    before,
                    a,
                    path,
                    t,
                    TextureChange::PreviewLoaded(picture),
                    "Loaded preview for "@ + texture.name@,
                    after,
                ),
                Err(PreviewTrouble::Load(error)) => texture_reported(
                    before,
                    a,
                    path,
                    t,
                    TextureChange::PreviewFailed,
                    "Preview load failed: "@ + error@,
                    after,
                ),
                Err(PreviewTrouble::Generation(error)) => texture_reported(
                    before,
                    a,
                    path,
                    t,
                    TextureChange::PreviewFailed,
                    "Preview generation failed: "@ + error@,
                    after,
                ),
            }
        },
        _ => after == before,
    }
}

impl App {
    /// The texture that a job speaks of: its asset, its entry, and its name.
    fn texture_for_job(&self, asset_id: &str, path: &Option<String>, t: usize) -> (r: Option<
        (usize, Option<usize>, String),
    >)
        ensures
            match r {
                Some((a, e, name)) => {
                    &&& asset_named(self.assets@, asset_id@) == Some(a as int)
                    &&& a < self.assets@.len()
                    &&& texture_of_job(self.assets@[a as int], *path, t as int)
                    &&& place(e) == entry_of_job(self.assets@[a as int], *path)
                    &&& name@ == texture_in(self.assets@[a as int], place(e), t as int).name@
                },
                None => match asset_named(self.assets@, asset_id@) {
                    Some(a) => !texture_of_job(self.assets@[a], *path, t as int),
                    None => true,
                },
            },
    {
        let a: usize = match self.asset_index_for_id(asset_id) {
            Some(a) => a,
            None => {
                return None;
            },
        };
        let asset = &self.assets[a];
        let entry = match path {
            Some(p) => match asset.entry_position(p.as_str()) {
                Some(e) => Some(e),
                None => {
                    return None;
                },
            },
            None => None,
        };
        match asset.texture(entry, t) {
            Some(texture) => Some((a, entry, texture.name.clone())),
            None => None,
        }
    }

    fn report_texture(
        &mut self,
        a: usize,
        e: Option<usize>,
        t: usize,
        change: TextureChange,
        message: String,
    )
        requires
            a < old(self).assets@.len(),
            has_texture(old(self).assets@[a as int], place(e), t as int),
        ensures
            *final(self) == (App {
                assets: final(self).assets,
                status: message,
                ..*old(self)
            }),
            final(self).assets@ == old(self).assets@.update(
                a as int,
                final(self).assets@[a as int],
            ),
            asset_changed(
                old(self).assets@[a as int],
                final(self).assets@[a as int],
                place(e),
                t as int,
                change,
            ),
            old(self).well_formed() ==> final(self).well_formed(),
    {
        let ghost before = self.assets@;
        self.assets[a].change_texture(e, t, change);
        assert(self.assets@ =~= before.update(a as int, self.assets@[a as int]));
        self.set_status(message);
    }

    fn finish_preview(
        &mut self,
        asset_id: &str,
        entry_path: Option<String>,
        texture_index: usize,
        result: Result<u64, PreviewTrouble>,
    )
        ensures
            preview_taken_in(
                *old(self),
                asset_id@,
                entry_path,
                texture_index as int,
                result,
                *final(self),
            ),
            old(self).well_formed() ==> final(self).well_formed(),
    {
        if let Some((a, e, name)) = self.texture_for_job(asset_id, &entry_path, texture_index) {
            match result {
                Ok(picture) => {
                    let message = message_of("Loaded preview for ", name.as_str());
                    self.report_texture(
                        a,
                        e,
                        texture_index,
                        TextureChange::PreviewLoaded(picture),
                        message,
                    );
                },
                Err(PreviewTrouble::Load(error)) => {
                    let message = message_of("Preview load failed: ", error.as_str());
                    self.report_texture(a, e, texture_index, TextureChange::PreviewFailed, message);
                },
                Err(PreviewTrouble::Generation(error)) => {
                    let message = message_of("Preview generation failed: ", error.as_str());
                    self.report_texture(a, e, texture_index, TextureChange::PreviewFailed, message);
                },
            }
        }
    }
}

/// Whether textures were marked as saved.
pub open spec fn textures_saved(before: Seq<TextureEntry>, after: Seq<TextureEntry>) -> bool {
    &&& after.len() == before.len()
    &&& forall|i: int|
        0 <= i < before.len() ==> #[trigger] after[i] == changed(before[i], TextureChange::Saved)
}

/// Whether an entry was marked as saved; the text in the archive now is the given one, as far as
/// it could be read.
pub open spec fn entry_saved(
    before: ImportedArchiveEntry,
    after: ImportedArchiveEntry,
    text: Option<String>,
) -> bool {
    &&& after == (ImportedArchiveEntry { data: after.data, dirty: false, added: false, ..before })
    &&& match before.data {
        ImportedArchiveEntryData::TextureAsset { xml_path, textures } => {
            &&& after.data matches ImportedArchiveEntryData::TextureAsset {
                xml_path: same_path,
                textures: new_textures,
            }
            &&& same_path == xml_path
            &&& textures_saved(textures@, new_textures@)
        },
        ImportedArchiveEntryData::XmlText { source_path, original_text, source_kind } => after.data
            == (ImportedArchiveEntryData::XmlText {
            source_path,
            original_text: match text {
                Some(t) => t,
                None => original_text,
            },
            source_kind,
        }),
        ImportedArchiveEntryData::StagedRaw { source_path } => after.data
            == (ImportedArchiveEntryData::StagedRaw { source_path }),
    }
}

/// Whether an asset was marked as saved.
pub open spec fn asset_saved(
    before: ImportedAsset,
    after: ImportedAsset,
    path: PathBuf,
    texts: Seq<Option<String>>,
) -> bool {
    &&& after == (ImportedAsset {
        last_saved_path: Some(path),
        dirty: false,
        textures: after.textures,
        pending_archive_folders: after.pending_archive_folders,
        archive_entries: after.archive_entries,
        ..before
    })
    &&& textures_saved(before.textures@, after.textures@)
    &&& after.pending_archive_folders@.len() == 0
    &&& after.archive_entries@.len() == before.archive_entries@.len()
    &&& forall|i: int|
        0 <= i < before.archive_entries@.len() ==> entry_saved(
            before.archive_entries@[i],
            #[trigger] after.archive_entries@[i],
            if i < texts.len() {
                texts[i]
            } else {
                None
            },
        )
}

/// Whether a save was taken in as it should be.
pub open spec fn save_taken_in(
    before: App,
    asset_id: Seq<char>,
    result: Result<PathBuf, String>,
    texts: Seq<Option<String>>,
    after: App,
    r: FollowUp,
) -> bool {
    match asset_named(before.assets@, asset_id) {
        None => after == before && nothing_follows(r),
        Some(a) => match result {
            Ok(path) => {
                &&& r.preview is None && !r.detect
                &&& opt_text(r.toast) == Some(
                    "Changes applied to "@ + title_of(before.assets@[a].source_path.bytes())
                        + "."@,
                )
                &&& after == (App { assets: after.assets, status: after.status, ..before })
                &&& after.status@ == "Applied changes to "@ + shown_path(path.bytes())
                &&& after.assets@ == before.assets@.update(a, after.assets@[a])
                &&& asset_saved(before.assets@[a], after.assets@[a], path, texts)
            },
            Err(error) => nothing_follows(r) && said(before, after, "Save failed: "@ + error@),
        },
    }
}

fn mark_textures_saved(textures: &mut Vec<TextureEntry>)
    ensures
        textures_saved(old(textures)@, final(textures)@),
{
    let ghost before = textures@;
    let mut i: usize = 0;
    while i < textures.len()
        invariant
            before == old(textures)@,
            textures@.len() == before.len(),
            0 <= i <= before.len(),
            forall|j: int|
                0 <= j < i ==> #[trigger] textures@[j] == changed(before[j], TextureChange::Saved),
            forall|j: int| i <= j < before.len() ==> #[trigger] textures@[j] == before[j],
        decreases before.len() - i,
    {
        textures[i].apply(TextureChange::Saved);
        i += 1;
    }
}

impl ImportedArchiveEntry {
    fn mark_saved(&mut self, text: Option<String>)
        ensures
            entry_saved(*old(self), *final(self), text),
    {
        self.dirty = false;
        self.added = false;
        match &mut self.data {
            ImportedArchiveEntryData::TextureAsset { textures, .. } => {
                mark_textures_saved(textures);
            },
            ImportedArchiveEntryData::XmlText { original_text, .. } => {
                if let Some(now) = text {
                    *original_text = now;
                }
            },
            ImportedArchiveEntryData::StagedRaw { .. } => {},
        }
    }
}

fn mark_entries_saved(entries: &mut Vec<ImportedArchiveEntry>, texts: &Vec<Option<String>>)
    ensures
        final(entries)@.len() == old(entries)@.len(),
        forall|i: int|
            0 <= i < old(entries)@.len() ==> entry_saved(
                old(entries)@[i],
                #[trigger] final(entries)@[i],
                if i < texts@.len() {
                    texts@[i]
                } else {
                    None
                },
            ),
{
    let ghost before = entries@;
    let mut i: usize = 0;
    while i < entries.len()
        invariant
            before == old(entries)@,
            entries@.len() == before.len(),
            0 <= i <= before.len(),
            forall|j: int|
                0 <= j < i ==> entry_saved(
                    before[j],
                    #[trigger] entries@[j],
                    if j < texts@.len() {
                        texts@[j]
                    } else {
                        None
                    },
                ),
            forall|j: int| i <= j < before.len() ==> #[trigger] entries@[j] == before[j],
        decreases before.len() - i,
    {
        let text = if i < texts.len() {
            match &texts[i] {
                Some(now) => Some(now.clone()),
                None => None,
            }
        } else {
            None
        };
        entries[i].mark_saved(text);
        i += 1;
    }
}

impl ImportedAsset {
    fn mark_saved(&mut self, path: PathBuf, texts: &Vec<Option<String>>)
        ensures
            asset_saved(*old(self), *final(self), path, texts@),
    {
        self.last_saved_path = Some(path);
        self.dirty = false;
        mark_textures_saved(&mut self.textures);
        self.pending_archive_folders = Vec::new();
        mark_entries_saved(&mut self.archive_entries, texts);
    }
}

/// A saved asset has no staged changes.
pub proof fn a_saved_asset_is_clean(
    before: ImportedAsset,
    after: ImportedAsset,
    path: PathBuf,
    texts: Seq<Option<String>>,
)
    requires
        asset_saved(before, after, path, texts),
    ensures
        !after.dirty,
        !after.staged(),
        after.synced() == after,
        forall|i: int| 0 <= i < after.textures@.len() ==> !(#[trigger] after.textures@[i]).modified,
        crate::assets::entry_steps(after.archive_entries@).len() == 0,
{
    assert forall|i: int| 0 <= i < after.archive_entries@.len() implies !(
    #[trigger] after.archive_entries@[i]).dirty by {
        assert(entry_saved(
            before.archive_entries@[i],
            after.archive_entries@[i],
            if i < texts.len() {
                texts[i]
            } else {
                None
            },
        ));
    }
    lemma_no_steps(after.archive_entries@);
}

proof fn lemma_no_steps(entries: Seq<ImportedArchiveEntry>)
    requires
        forall|i: int| 0 <= i < entries.len() ==> !(#[trigger] entries[i]).dirty,
    ensures
        crate::assets::entry_steps(entries).len() == 0,
    decreases entries.len(),
{
    if entries.len() > 0 {
        let front = entries.drop_last();
        assert forall|i: int| 0 <= i < front.len() implies !(#[trigger] front[i]).dirty by {
            assert(front[i] == entries[i]);
        }
        lemma_no_steps(front);
        assert(!entries[entries.len() - 1].dirty);
    }
}

impl App {
    /// The staged files of the entries of an asset, where their texts have to be read again once
    /// the asset is saved.
    pub fn staged_texts(&self, asset_id: &str) -> (r: Vec<Option<PathBuf>>)
        ensures
            match asset_named(self.assets@, asset_id@) {
                Some(a) => {
                    &&& r@.len() == self.assets@[a].archive_entries@.len()
                    &&& forall|i: int|
                        0 <= i < r@.len() ==> #[trigger] r@[i] == match
                            self.assets@[a].archive_entries@[i].data {
                            ImportedArchiveEntryData::XmlText { source_path, .. } => Some(
                                source_path,
                            ),
                            _ => None,
                        }
                },
                None => r@.len() == 0,
            },
    {
        let mut out: Vec<Option<PathBuf>> = Vec::new();
        let a: usize = match self.asset_index_for_id(asset_id) {
            Some(a) => a,
            None => {
                return out;
            },
        };
        let entries = &self.assets[a].archive_entries;
        let mut i: usize = 0;
        while i < entries.len()
            invariant
                0 <= i <= entries@.len(),
                out@.len() == i,
                forall|j: int|
                    0 <= j < i ==> #[trigger] out@[j] == match entries@[j].data {
                        ImportedArchiveEntryData::XmlText { source_path, .. } => Some(source_path),
                        _ => None,
                    },
            decreases entries@.len() - i,
        {
            let file = match &entries[i].data {
                ImportedArchiveEntryData::XmlText { source_path, .. } => Some(source_path.clone()),
                _ => None,
            };
            out.push(file);
            i += 1;
        }
        out
    }

    fn finish_save(
        &mut self,
        asset_id: &str,
        result: Result<PathBuf, String>,
        texts: Vec<Option<String>>,
    ) -> (r: FollowUp)
        ensures
            save_taken_in(*old(self), asset_id@, result, texts@, *final(self), r),
            old(self).well_formed() ==> final(self).well_formed(),
    {
        let a: usize = match self.asset_index_for_id(asset_id) {
            Some(a) => a,
            None => {
                return quiet();
            },
        };
        match result {
            Ok(path) => {
                let message = message_of(
                    "Applied changes to ",
                    paths::shown(path.as_path()).as_str(),
                );
                let ghost before = self.assets@;
                self.assets[a].mark_saved(path, &texts);
                assert(self.assets@ =~= before.update(a as int, self.assets@[a as int]));
                let mut toast = message_of(
                    "Changes applied to ",
                    self.assets[a].title().as_str(),
                );
                toast.append(".");
                self.set_status(message);
                FollowUp { preview: None, toast: Some(toast), detect: false }
            },
            Err(error) => {
                self.set_status(message_of("Save failed: ", error.as_str()));
                quiet()
            },
        }
    }
}

/// The asset after an edited texture was written: it or its entry has staged changes.
pub open spec fn texture_applied(
    before: ImportedAsset,
    after: ImportedAsset,
    path: Option<String>,
    t: int,
) -> bool {
    exists|mid: ImportedAsset| #[trigger]
        asset_changed(before, mid, entry_of_job(before, path), t, TextureChange::Applied)
            && marked_dirty(mid, after, entry_of_job(before, path))
}

/// Whether an asset, or one of its entries and with it the archive, was marked as changed.
pub open spec fn marked_dirty(before: ImportedAsset, after: ImportedAsset, entry: Option<int>) -> bool {
    match entry {
        Some(e) => exists|mid: ImportedAsset| #[trigger]
            entry_marked(before, mid, e) && after == mid.synced(),
        None => after == (ImportedAsset { dirty: true, ..before }),
    }
}

/// Whether an entry was marked as changed.
pub open spec fn entry_marked(before: ImportedAsset, after: ImportedAsset, e: int) -> bool {
    &&& after == (ImportedAsset { archive_entries: after.archive_entries, ..before })
    &&& after.archive_entries@ == before.archive_entries@.update(
        e,
        ImportedArchiveEntry { dirty: true, ..before.archive_entries@[e] },
    )
}

/// Whether an asset with a texture that was written is shown, and the editors are left.
pub open spec fn edit_shown(before: App, a: int, path: Option<String>, t: int, after: App) -> bool {
    &&& after == (App {
        assets: after.assets,
        editor: None,
        text_editor: None,
        selected_asset: Some(a as usize),
        selected_texture: Some(t as usize),
        ..before
    })
    &&& after.assets@ == before.assets@.update(a, after.assets@[a])
    &&& texture_applied(before.assets@[a], after.assets@[a], path, t)
}

/// Whether an edit was taken in as it should be.
pub open spec fn edit_taken_in(
    before: App,
    asset_id: Seq<char>,
    path: Option<String>,
    t: int,
    result: Result<(), String>,
    after: App,
    r: FollowUp,
) -> bool {
    match asset_named(before.assets@, asset_id) {
        Some(a) if texture_of_job(before.assets@[a], path, t) => {
            let texture = texture_in(before.assets@[a], entry_of_job(before.assets@[a], path), t);
            match result {
                Ok(_) => only_preview(r, r.preview) && exists|shown: App, asked: App| #[trigger]
                    edit_shown(before, a, path, t, shown) && #[trigger] preview_requested(
                        shown,
                        asked,
                        r.preview,
                    ) && said(asked, after, "Applied changes to "@ + texture.name@),
                Err(error) => nothing_follows(r) && said(
                    before,
                    after,
                    "Apply failed: "@ + error@,
                ),
            }
        },
        _ => after == before && nothing_follows(r),
    }
}

impl ImportedAsset {
    fn apply_texture(&mut self, e: Option<usize>, t: usize, path: Ghost<Option<String>>)
        requires
            has_texture(*old(self), place(e), t as int),
            place(e) == entry_of_job(*old(self), path@),
        ensures
            texture_applied(*old(self), *final(self), path@, t as int),
    {
        self.change_texture(e, t, TextureChange::Applied);
        let ghost mid = *self;
        match e {
            Some(i) => {
                self.archive_entries[i].dirty = true;
                let ghost marked = *self;
                assert(entry_marked(mid, marked, i as int));
                self.sync_archive_dirty();
            },
            None => {
                self.dirty = true;
            },
        }
        assert(marked_dirty(mid, *self, place(e)));
        assert(asset_changed(
            *old(self),
            mid,
            entry_of_job(*old(self), path@),
            t as int,
            TextureChange::Applied,
        ));
    }
}

impl App {
    fn show_edit(
        &mut self,
        a: usize,
        e: Option<usize>,
        t: usize,
        path: Ghost<Option<String>>,
    )
        requires
            a < old(self).assets@.len(),
            has_texture(old(self).assets@[a as int], place(e), t as int),
            place(e) == entry_of_job(old(self).assets@[a as int], path@),
        ensures
            edit_shown(*old(self), a as int, path@, t as int, *final(self)),
            old(self).well_formed() ==> final(self).well_formed(),
    {
        let ghost before = self.assets@;
        self.assets[a].apply_texture(e, t, path);
        assert(self.assets@ =~= before.update(a as int, self.assets@[a as int]));
        self.editor = None;
        self.text_editor = None;
        self.selected_asset = Some(a);
        self.selected_texture = Some(t);
    }

    fn finish_apply(
        &mut self,
        asset_id: &str,
        entry_path: Option<String>,
        texture_index: usize,
        result: Result<(), String>,
    ) -> (r: FollowUp)
        requires
            old(self).pending_jobs < usize::MAX,
        ensures
            edit_taken_in(
                *old(self),
                asset_id@,
                entry_path,
                texture_index as int,
                result,
                *final(self),
                r,
            ),
            old(self).well_formed() ==> final(self).well_formed(),
    {
        let (a, e, name) = match self.texture_for_job(asset_id, &entry_path, texture_index) {
            Some((a, e, name)) => (a, e, name),
            None => {
                return quiet();
            },
        };
        match result {
            Ok(_) => {
                self.show_edit(a, e, texture_index, Ghost(entry_path));
                let ghost shown = *self;
                let preview = self.request_preview_for_selected_texture();
                let ghost asked = *self;
                self.set_status(message_of("Applied changes to ", name.as_str()));
                let r = FollowUp { preview, toast: None, detect: false };
                assert(edit_shown(
                    *old(self),
                    a as int,
                    entry_path,
                    texture_index as int,
                    shown,
                ) && preview_requested(shown, asked, r.preview));
                r
            },
            Err(error) => {
                self.set_status(message_of("Apply failed: ", error.as_str()));
                quiet()
            },
        }
    }
}

/// Whether a step of the setup was taken in: the tools are looked for again after a success, and
/// the wizard goes on from the step that was waiting.
pub open spec fn setup_taken_in(
    before: App,
    failed: Option<Seq<char>>,
    waiting: Option<(SetupStep, SetupStep)>,
    success: Seq<char>,
    failure: Seq<char>,
    after: App,
    r: FollowUp,
) -> bool {
    match failed {
        Some(error) => nothing_follows(r) && said(before, after, failure + error),
        None => {
            &&& r.preview is None && r.toast is None && r.detect
            &&& after == (App {
                setup_step: match waiting {
                    Some((here, next)) => if before.setup_step == here {
                        next
                    } else {
                        before.setup_step
                    },
                    None => before.setup_step,
                },
                status: after.status,
                ..before
            })
            &&& after.status@ == success
        },
    }
}

fn looked_again() -> (r: FollowUp)
    ensures
        r.preview is None,
        r.toast is None,
        r.detect,
{
    FollowUp { preview: None, toast: None, detect: true }
}

/// The message of a success, and the error of a failure.
pub open spec fn message_or_empty(r: Result<String, String>) -> Seq<char> {
    match r {
        Ok(message) => message@,
        Err(_) => Seq::empty(),
    }
}

/// Whether a job was taken in as it should be.
pub open spec fn job_taken_in(before: App, job: JobResult, after: App, r: FollowUp) -> bool {
    match job {
        JobResult::LaunchProgress(message) => nothing_follows(r) && after == (App {
            status: message,
            ..before
        }),
        JobResult::ImportFinished { source_path, result } => import_taken_in(
            job_done(before),
            source_path,
            result,
            after,
            r,
        ),
        JobResult::OpenArchiveEntryFinished { asset_id, entry_path, result } => {
            entry_result_taken_in(job_done(before), asset_id@, entry_path, result, after, r)
        },
        JobResult::DownloadCodeWalkerFinished(result) => setup_taken_in(
            job_done(before),
            crate::outputs::complaint(result),
            Some((SetupStep::ExternalTools, SetupStep::SystemDependencies)),
            "Downloaded CodeWalker into the app external folder."@,
            "CodeWalker download failed: "@,
            after,
            r,
        ),
        JobResult::BuildHelperFinished(result) => setup_taken_in(
            job_done(before),
            crate::outputs::complaint(result),
            Some((SetupStep::BuildHelper, SetupStep::Ready)),
            "Built the CwAssetTool helper successfully."@,
            "Helper build failed: "@,
            after,
            r,
        ),
        JobResult::PrepareVulkanRuntimeFinished(result) => setup_taken_in(
            job_done(before),
            crate::outputs::complaint(result),
            None,
            message_or_empty(result),
            "Vulkan runtime setup failed: "@,
            after,
            r,
        ),
        JobResult::UpdateCodeWalkerFinished(result) => setup_taken_in(
            job_done(before),
            crate::outputs::complaint(result),
            None,
            message_or_empty(result),
            "External update check failed: "@,
            after,
            r,
        ),
        JobResult::PreviewFinished { asset_id, entry_path, texture_index, result } => {
            nothing_follows(r) && preview_taken_in(
                job_done(before),
                asset_id@,
                entry_path,
                texture_index as int,
                result,
                after,
            )
        },
        JobResult::SaveFinished { asset_id, result, texts } => save_taken_in(
            job_done(before),
            asset_id@,
            result,
            texts@,
            after,
            r,
        ),
        JobResult::ApplyFinished { asset_id, entry_path, texture_index, result } => edit_taken_in(
            job_done(before),
            asset_id@,
            entry_path,
            texture_index as int,
            result,
            after,
            r,
        ),
        JobResult::LaunchFinished(result) => match result {
            Ok(message) => r.preview is None && !r.detect && opt_text(r.toast) == Some(message@)
                && said(job_done(before), after, message@),
            Err(error) => nothing_follows(r) && said(
                job_done(before),
                after,
                "Launch failed: "@ + error@,
            ),
        },
        JobResult::CopyAllFinished(result) => match result {
            Ok(count) => nothing_follows(r) && said(
                job_done(before),
                after,
                "Copied "@ + decimal(count as nat) + " built file(s)."@,
            ),
            Err(error) => nothing_follows(r) && said(
                job_done(before),
                after,
                "Copy All failed: "@ + error@,
            ),
        },
    }
}

impl App {
    fn finish_one(&mut self)
        ensures
            *final(self) == job_done(*old(self)),
            old(self).well_formed() ==> final(self).well_formed(),
    {
        if self.pending_jobs > 0 {
            self.pending_jobs = self.pending_jobs - 1;
        }
    }

    fn finish_setup_step(
        &mut self,
        result: Result<(), String>,
        here: SetupStep,
        next: SetupStep,
        success: &str,
        failure: &str,
    ) -> (r: FollowUp)
        ensures
            setup_taken_in(
                *old(self),
                crate::outputs::complaint(result),
                Some((here, next)),
                success@,
                failure@,
                *final(self),
                r,
            ),
            old(self).well_formed() ==> final(self).well_formed(),
    {
        match result {
            Ok(_) => {
                if self.setup_step == here {
                    self.setup_step = next;
                }
                self.set_status(success.to_owned());
                looked_again()
            },
            Err(error) => {
                self.set_status(message_of(failure, error.as_str()));
                quiet()
            },
        }
    }

    fn finish_with_message(&mut self, result: Result<String, String>, failure: &str) -> (r: FollowUp)
        ensures
            setup_taken_in(
                *old(self),
                crate::outputs::complaint(result),
                None,
                message_or_empty(result),
                failure@,
                *final(self),
                r,
            ),
            old(self).well_formed() ==> final(self).well_formed(),
    {
        match result {
            Ok(message) => {
                self.set_status(message);
                looked_again()
            },
            Err(error) => {
                self.set_status(message_of(failure, error.as_str()));
                quiet()
            },
        }
    }

    /// Takes in what a background job came to.
    pub fn handle_job_results(&mut self, job: JobResult) -> (r: FollowUp)
        ensures
            job_taken_in(*old(self), job, *final(self), r),
            old(self).well_formed() ==> final(self).well_formed(),
    {
        match job {
            JobResult::LaunchProgress(message) => {
                self.set_status(message);
                quiet()
            },
            JobResult::ImportFinished { source_path, result } => {
                self.finish_one();
                self.finish_import(source_path, result)
            },
            JobResult::OpenArchiveEntryFinished { asset_id, entry_path, result } => {
                self.finish_one();
                self.finish_open_entry(asset_id.as_str(), entry_path, result)
            },
            JobResult::DownloadCodeWalkerFinished(result) => {
                self.finish_one();
                self.finish_setup_step(
                    result,
                    SetupStep::ExternalTools,
                    SetupStep::SystemDependencies,
                    "Downloaded CodeWalker into the app external folder.",
                    "CodeWalker download failed: ",
                )
            },
            JobResult::BuildHelperFinished(result) => {
                self.finish_one();
                self.finish_setup_step(
                    result,
                    SetupStep::BuildHelper,
                    SetupStep::Ready,
                    "Built the CwAssetTool helper successfully.",
                    "Helper build failed: ",
                )
            },
            JobResult::PrepareVulkanRuntimeFinished(result) => {
                self.finish_one();
                self.finish_with_message(result, "Vulkan runtime setup failed: ")
            },
            JobResult::UpdateCodeWalkerFinished(result) => {
                self.finish_one();
                self.finish_with_message(result, "External update check failed: ")
            },
            JobResult::PreviewFinished { asset_id, entry_path, texture_index, result } => {
                self.finish_one();
                self.finish_preview(asset_id.as_str(), entry_path, texture_index, result);
                quiet()
            },
            JobResult::SaveFinished { asset_id, result, texts } => {
                self.finish_one();
                self.finish_save(asset_id.as_str(), result, texts)
            },
            JobResult::ApplyFinished { asset_id, entry_path, texture_index, result } => {
                self.finish_one();
                self.finish_apply(asset_id.as_str(), entry_path, texture_index, result)
            },
            JobResult::LaunchFinished(result) => {
                self.finish_one();
                match result {
                    Ok(message) => {
                        self.set_status(message.clone());
                        FollowUp { preview: None, toast: Some(message), detect: false }
                    },
                    Err(error) => {
                        self.set_status(message_of("Launch failed: ", error.as_str()));
                        quiet()
                    },
                }
            },
            JobResult::CopyAllFinished(result) => {
                self.finish_one();
                match result {
                    Ok(count) => {
                        let mut message = message_of("Copied ", text::show(count as u64).as_str());
                        message.append(" built file(s).");
                        self.set_status(message);
                        quiet()
                    },
                    Err(error) => {
                        self.set_status(message_of("Copy All failed: ", error.as_str()));
                        quiet()
                    },
                }
            },
        }
    }
}

}
