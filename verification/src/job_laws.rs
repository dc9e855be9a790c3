//! What holds of every background job that is taken in.

use crate::app::App;
use crate::assets::{
    any_dirty, entry_at, entry_step, ArchiveEntryOpenOutcome, ImportedArchiveEntry,
    ImportedArchiveEntryDraft, ImportedArchiveTextDraft, ImportedAsset, ImportedAssetDraft,
};
use crate::browse::{
    asset_at, asset_changed, asset_named, asset_selected, lemma_asset_bounds, preview_requested,
    texture_in, PreviewJob, TextureChange,
};
use crate::jobs::{
    a_saved_asset_is_clean, asset_taken_in, edit_shown, entry_marked, entry_of_job, entry_saved,
    entry_shown_in, entry_with_text, entry_with_textures, job_done, job_taken_in, marked_dirty,
    said, texture_applied, texture_of_job, with_entry, FollowUp, JobResult, PreviewTrouble,
};
use crate::paths::{path_class, title_of, PathBytes};
use crate::setup::SetupStep;
use crate::text::{ends, opt_text};
use crate::textures::drafts_become_unchanged_textures;
use std::path::PathBuf;
use vstd::prelude::*;

verus! {

/// Asking for a preview changes nothing but the textures of the selected asset, and how many jobs are
/// under way.
proof fn lemma_asking(before: App, after: App, job: Option<PreviewJob>)
    requires
        preview_requested(before, after, job),
    ensures
        after == (App { assets: after.assets, pending_jobs: after.pending_jobs, ..before }),
        after.assets@.len() == before.assets@.len(),
        job is None ==> after == before,
        job is Some ==> after.pending_jobs == (before.pending_jobs + 1) as usize,
        forall|k: int|
            0 <= k < before.assets@.len() ==> (#[trigger] after.assets@[k])
                == (ImportedAsset {
                textures: after.assets@[k].textures,
                archive_entries: after.assets@[k].archive_entries,
                ..before.assets@[k]
            }),
        forall|k: int|
            0 <= k < before.assets@.len() && before.selected_asset != Some(k as usize) ==> (
            #[trigger] after.assets@[k]) == before.assets@[k],
{
    if before.current_slot() is Some {
        let (a, e, t) = before.current_slot()->0;
        assert(after.assets@ == before.assets@ || after.assets@ == before.assets@.update(
            a,
            after.assets@[a],
        ));
    }
}

/// A job that came to its end is under way no more, and no other job ends with it; the one job that may
/// follow is the preview that is handed out. The settings stay as they are.
pub proof fn every_job_ends_once(before: App, job: JobResult, after: App, r: FollowUp)
    requires
        job_taken_in(before, job, after, r),
    ensures
        after.pending_jobs == (if job is LaunchProgress || before.pending_jobs == 0 {
            before.pending_jobs as int
        } else {
            before.pending_jobs - 1
        }) + (if r.preview is Some {
            1int
        } else {
            0int
        }),
        after.config == before.config && after.tool_paths == before.tool_paths,
        after.folders == before.folders && after.setup_status == before.setup_status,
        !(job is DownloadCodeWalkerFinished) && !(job is BuildHelperFinished) ==> after.setup_step
            == before.setup_step,
        !(job is ImportFinished) ==> after.pending_import_paths == before.pending_import_paths
            && after.selected_mod_path == before.selected_mod_path && after.current_mod_browser_path
            == before.current_mod_browser_path,
        !(job is ApplyFinished) ==> after.editor == before.editor && after.text_editor
            == before.text_editor,
{
    let done = job_done(before);
    match job {
        JobResult::ImportFinished { source_path, result } => {
            if let Ok(draft) = result {
                let (i, taken, shown, asked) = choose|i: int, taken: App, shown: App, asked: App|
                    #[trigger]
                    asset_taken_in(done, source_path, draft, i, taken) && #[trigger] asset_selected(
                        taken,
                        i,
                        shown,
                    ) && #[trigger] preview_requested(shown, asked, r.preview) && said(
                        asked,
                        after,
                        "Opened "@ + title_of(taken.assets@[i].source_path.bytes()),
                    );
                lemma_asking(shown, asked, r.preview);
            }
        },
        JobResult::OpenArchiveEntryFinished { asset_id, entry_path, result } => {
            let named = asset_named(done.assets@, asset_id@);
            if named is Some {
                let a = named->0;
                match result {
                    Ok(ArchiveEntryOpenOutcome::TextureAsset(draft)) => {
                        let (entry, taken, asked) = choose|
                            entry: ImportedArchiveEntry,
                            taken: App,
                            asked: App,
                        | #[trigger]
                            entry_with_textures(draft, entry) && #[trigger] entry_shown_in(
                                done,
                                a,
                                entry_path,
                                entry,
                                Some(0usize),
                                taken,
                            ) && #[trigger] preview_requested(taken, asked, r.preview) && said(
                                asked,
                                after,
                                "Opened "@ + draft.title@,
                            );
                        lemma_asking(taken, asked, r.preview);
                    },
                    Ok(ArchiveEntryOpenOutcome::XmlText(draft)) => {
                        let taken = choose|taken: App| #[trigger]
                            entry_shown_in(
                                done,
                                a,
                                entry_path,
                                entry_with_text(draft),
                                None,
                                taken,
                            ) && said(taken, after, "Opened "@ + draft.title@);
                    },
                    _ => {},
                }
            }
        },
        JobResult::ApplyFinished { asset_id, entry_path, texture_index, result } => {
            let named = asset_named(done.assets@, asset_id@);
            if result is Ok && !nothing_done(done, after, r) {
                let (shown, asked) = choose|shown: App, asked: App| #[trigger]
                    edit_shown(done, named->0, entry_path, texture_index as int, shown)
                        && #[trigger] preview_requested(shown, asked, r.preview) && said(
                        asked,
                        after,
                        after.status@,
                    );
                lemma_asking(shown, asked, r.preview);
            }
        },
        _ => {},
    }
}

/// Whether a job that was taken in left everything as it was.
spec fn nothing_done(before: App, after: App, r: FollowUp) -> bool {
    after == before && r.preview is None
}

/// The tools are looked for again exactly when one of them was fetched, built, prepared or updated; the
/// user gets a message when the game was started and when changes were saved.
pub proof fn success_is_followed_up(before: App, job: JobResult, after: App, r: FollowUp)
    requires
        job_taken_in(before, job, after, r),
    ensures
        r.detect <==> (job matches JobResult::DownloadCodeWalkerFinished(Ok(_))) || (
        job matches JobResult::BuildHelperFinished(Ok(_))) || (
        job matches JobResult::PrepareVulkanRuntimeFinished(Ok(_))) || (
        job matches JobResult::UpdateCodeWalkerFinished(Ok(_))),
        r.toast is Some <==> (job matches JobResult::LaunchFinished(Ok(_))) || (
        job matches JobResult::SaveFinished { asset_id, result: Ok(_), .. } && asset_named(
            before.assets@,
            asset_id@,
        ) is Some),
        r.preview is Some ==> job is ImportFinished || job is OpenArchiveEntryFinished
            || job is ApplyFinished,
{
}

/// The error of a job.
pub open spec fn error_of(job: JobResult) -> Option<Seq<char>> {
    match job {
        JobResult::ImportFinished { result: Err(error), .. } => Some(error@),
        JobResult::OpenArchiveEntryFinished { result: Err(error), .. } => Some(error@),
        JobResult::DownloadCodeWalkerFinished(Err(error)) => Some(error@),
        JobResult::BuildHelperFinished(Err(error)) => Some(error@),
        JobResult::PrepareVulkanRuntimeFinished(Err(error)) => Some(error@),
        JobResult::UpdateCodeWalkerFinished(Err(error)) => Some(error@),
        JobResult::SaveFinished { result: Err(error), .. } => Some(error@),
        JobResult::ApplyFinished { result: Err(error), .. } => Some(error@),
        JobResult::LaunchFinished(Err(error)) => Some(error@),
        JobResult::CopyAllFinished(Err(error)) => Some(error@),
        _ => None,
    }
}

proof fn lemma_ends(front: Seq<char>, error: Seq<char>)
    ensures
        ends(front + error, error),
{
    let told = front + error;
    assert(told.subrange(told.len() - error.len(), told.len() as int) =~= error);
}

/// A job that failed is told with its error and changes nothing that was edited: no texture, no entry and
/// no mark of staged changes. Nothing follows on it, and the setup stays where it is.
#[verifier::rlimit(60)]
pub proof fn a_failed_job_is_only_told(before: App, job: JobResult, after: App, r: FollowUp, k: int)
    requires
        job_taken_in(before, job, after, r),
        error_of(job) is Some,
    ensures
        r.preview is None && r.toast is None && !r.detect,
        after.status == before.status || ends(after.status@, error_of(job)->0),
        !(job is SaveFinished) && !(job is ApplyFinished) && !(job is OpenArchiveEntryFinished) ==> ends(
            after.status@,
            error_of(job)->0,
        ),
        after.setup_step == before.setup_step && after.selected_asset == before.selected_asset,
        !(job is OpenArchiveEntryFinished) ==> after.assets@ == before.assets@
            && after.selected_texture == before.selected_texture,
        after.assets@.len() == before.assets@.len(),
        0 <= k < before.assets@.len() ==> after.assets@[k].archive_entries
            == before.assets@[k].archive_entries && after.assets@[k].textures
            == before.assets@[k].textures && after.assets@[k].dirty == before.assets@[k].dirty
            && after.assets@[k].archive_selected_file == before.assets@[k].archive_selected_file,
{
    let error = error_of(job)->0;
    match job {
        JobResult::OpenArchiveEntryFinished { asset_id, .. } => {
            lemma_asset_bounds(before.assets@, Seq::empty(), asset_id@);
            lemma_ends("Open failed: "@, error);
        },
        JobResult::ImportFinished { .. } => lemma_ends("Import failed: "@, error),
        JobResult::DownloadCodeWalkerFinished(_) => lemma_ends("CodeWalker download failed: "@, error),
        JobResult::BuildHelperFinished(_) => lemma_ends("Helper build failed: "@, error),
        JobResult::PrepareVulkanRuntimeFinished(_) => lemma_ends("Vulkan runtime setup failed: "@, error),
        JobResult::UpdateCodeWalkerFinished(_) => lemma_ends("External update check failed: "@, error),
        JobResult::SaveFinished { .. } => lemma_ends("Save failed: "@, error),
        JobResult::ApplyFinished { .. } => lemma_ends("Apply failed: "@, error),
        JobResult::LaunchFinished(_) => lemma_ends("Launch failed: "@, error),
        JobResult::CopyAllFinished(_) => lemma_ends("Copy All failed: "@, error),
        _ => {},
    }
}

/// An import that succeeded is open and selected, whether it is new or was open before, and is waited for
/// no more; no other asset is lost or touched.
pub proof fn an_imported_asset_is_selected(
    before: App,
    source: PathBuf,
    draft: ImportedAssetDraft,
    after: App,
    r: FollowUp,
    k: int,
)
    requires
        job_taken_in(
            before,
            JobResult::ImportFinished { source_path: source, result: Ok(draft) },
            after,
            r,
        ),
    ensures
        after.selected_asset matches Some(i) && i < after.assets@.len() && path_class(
            after.assets@[i as int].source_path.bytes(),
        ) == path_class(draft.source_path.bytes()) && (0 <= k < before.assets@.len() && k != i
            ==> after.assets@[k] == before.assets@[k]),
        !after.pending_import_paths@.contains(path_class(source.bytes())),
        after.assets@.len() == before.assets@.len() + (if asset_at(
            before.assets@,
            path_class(draft.source_path.bytes()),
        ) is None {
            1int
        } else {
            0int
        }),
        asset_at(before.assets@, path_class(draft.source_path.bytes())) is None ==> {
            let new = after.assets@.last();
            new.id == draft.id && new.kind == draft.kind && new.source_path == draft.source_path
                && new.textures@.len() == draft.textures@.len() && !new.dirty
                && new.archive_entries@.len() == 0 && new.archive_tree == draft.archive_tree
        },
{
    let done = job_done(before);
    let class = path_class(draft.source_path.bytes());
    let (i, taken, shown, asked) = choose|i: int, taken: App, shown: App, asked: App| #[trigger]
        asset_taken_in(done, source, draft, i, taken) && #[trigger] asset_selected(taken, i, shown)
            && #[trigger] preview_requested(shown, asked, r.preview) && said(
            asked,
            after,
            "Opened "@ + title_of(taken.assets@[i].source_path.bytes()),
        );
    lemma_asset_bounds(before.assets@, class, Seq::empty());
    lemma_asking(shown, asked, r.preview);
    assert(taken.assets.len() == taken.assets@.len());
    assert(shown.selected_asset == Some(i as usize));
    assert(0 <= i < taken.assets@.len());
    assert(asked.assets@[i].source_path == shown.assets@[i].source_path);
    assert(shown.assets@[i].source_path == taken.assets@[i].source_path);
    if asset_at(before.assets@, class) is None {
        assert(taken.assets@[i] == taken.assets@.last());
        if shown.current_slot() is None {
            assert(asked == shown);
        }
    }
    if 0 <= k < before.assets@.len() && k != i {
        assert(taken.assets@[k] == before.assets@[k]) by {
            if asset_at(before.assets@, class) is None {
                assert(taken.assets@.drop_last()[k] == taken.assets@[k]);
            }
        }
        assert(shown.assets@[k] == taken.assets@[k]);
        assert(shown.selected_asset != Some(k as usize));
        assert(asked.assets@[k] == shown.assets@[k]);
    }
}

/// An entry that is taken in is found by its path, and the other entries stay as and where they are.
pub proof fn a_new_entry_takes_its_place(
    entries: Seq<ImportedArchiveEntry>,
    entry: ImportedArchiveEntry,
    k: int,
)
    ensures
        entry_at(with_entry(entries, entry), entry.entry_path@) matches Some(e) && 0 <= e
            < with_entry(entries, entry).len() && with_entry(entries, entry)[e] == entry && (0 <= k
            < entries.len() && k != e ==> with_entry(entries, entry)[k] == entries[k]),
        entries.len() <= with_entry(entries, entry).len() <= entries.len() + 1,
        entry_at(entries, entry.entry_path@) is Some <==> with_entry(entries, entry).len()
            == entries.len(),
{
    let path = entry.entry_path@;
    let new = with_entry(entries, entry);
    match entry_at(entries, path) {
        Some(e) => {
            lemma_first(entries, path);
            lemma_found_first(new, path, e);
        },
        None => {
            lemma_first(entries, path);
            lemma_found_first(new, path, entries.len() as int);
        },
    }
}

proof fn lemma_first(entries: Seq<ImportedArchiveEntry>, path: Seq<char>)
    ensures
        entry_at(entries, path) matches Some(e) ==> 0 <= e < entries.len()
            && entries[e].entry_path@ == path && forall|j: int|
            0 <= j < e ==> (#[trigger] entries[j]).entry_path@ != path,
        entry_at(entries, path) is None ==> forall|j: int|
            0 <= j < entries.len() ==> (#[trigger] entries[j]).entry_path@ != path,
    decreases entries.len(),
{
    if entries.len() > 0 {
        let front = entries.drop_last();
        lemma_first(front, path);
        assert forall|j: int| 0 <= j < front.len() implies front[j] == #[trigger] entries[j] by {}
    }
}

proof fn lemma_found_first(entries: Seq<ImportedArchiveEntry>, path: Seq<char>, e: int)
    requires
        0 <= e < entries.len(),
        entries[e].entry_path@ == path,
        forall|j: int| 0 <= j < e ==> (#[trigger] entries[j]).entry_path@ != path,
    ensures
        entry_at(entries, path) == Some(e),
{
    lemma_first(entries, path);
    if entry_at(entries, path) is Some {
        let f = entry_at(entries, path)->0;
        assert(entries[f].entry_path@ == path);
    }
}

/// A text that was opened is in the archive as it was exported: unchanged, not new, staged in the file
/// that it was written to. It counts as converted exactly when it was, and is shown as a text.
pub proof fn an_opened_text_is_unchanged(draft: ImportedArchiveTextDraft)
    ensures
        ({
            let entry = entry_with_text(draft);
            &&& entry.entry_path == draft.entry_path && entry.title == draft.title
            &&& entry.text_before() == Some(draft.original_text)
            &&& entry.staged_file() == Some(draft.source_path)
            &&& entry.shown_as_text() && !entry.dirty && !entry.added
            &&& entry.content_kind is ConvertedXml <==> draft.source_kind is YmtXml
            &&& entry.texture_list() is None
            &&& entry_step(entry) is None
            &&& entry_step(ImportedArchiveEntry { dirty: true, ..entry }) matches Some(
                step,
            ) && (step is ReplaceYmtXml <==> draft.source_kind is YmtXml) && (step is ReplaceRawFile
                <==> draft.source_kind is RawText)
        }),
{
}

/// A text that was opened is selected, found by its path and waited for no more.
pub proof fn an_opened_text_is_shown(
    before: App,
    asset_id: String,
    path: String,
    draft: ImportedArchiveTextDraft,
    after: App,
    r: FollowUp,
    k: int,
)
    requires
        job_taken_in(
            before,
            JobResult::OpenArchiveEntryFinished {
                asset_id,
                entry_path: path,
                result: Ok(ArchiveEntryOpenOutcome::XmlText(draft)),
            },
            after,
            r,
        ),
        asset_named(before.assets@, asset_id@) is Some,
    ensures
        ({
            let a = asset_named(before.assets@, asset_id@)->0;
            let asset = after.assets@[a];
            &&& asset.archive_selected_file == Some(path)
            &&& asset.archive_file_loading_path is None && asset.archive_file_notice is None
            &&& asset.entry(draft.entry_path@) matches Some(e) && asset.archive_entries@[e]
                == entry_with_text(draft)
            &&& asset.dirty == before.assets@[a].dirty
            &&& after.selected_texture is None && r.preview is None
            &&& 0 <= k < before.assets@.len() && k != a ==> after.assets@[k] == before.assets@[k]
        }),
{
    let done = job_done(before);
    let a = asset_named(before.assets@, asset_id@)->0;
    lemma_asset_bounds(before.assets@, Seq::empty(), asset_id@);
    let taken = choose|taken: App| #[trigger]
        entry_shown_in(done, a, path, entry_with_text(draft), None, taken) && said(
            taken,
            after,
            "Opened "@ + draft.title@,
        );
    a_new_entry_takes_its_place(before.assets@[a].archive_entries@, entry_with_text(draft), 0);
}

/// A texture that was written is marked as changed and has to be shown anew, and with it the asset, and
/// the entry that holds it, have staged changes. Every other texture and entry stays as it is.
pub proof fn a_written_texture_is_staged(
    before: ImportedAsset,
    after: ImportedAsset,
    path: Option<String>,
    t: int,
    k: int,
)
    requires
        texture_applied(before, after, path, t),
        texture_of_job(before, path, t),
        path is Some ==> before.kind is Rpf,
    ensures
        path is None ==> {
            &&& after.dirty && after.archive_entries == before.archive_entries
            &&& after.textures@.len() == before.textures@.len()
            &&& after.textures@[t].modified && after.textures@[t].preview_texture is None
            &&& after.textures@[t].name == before.textures@[t].name
            &&& 0 <= k < before.textures@.len() && k != t ==> after.textures@[k]
                == before.textures@[k]
        },
        path matches Some(p) ==> {
            let e = before.entry(p@)->0;
            &&& after.dirty && after.archive_entries@[e].dirty
            &&& after.textures == before.textures
            &&& after.archive_entries@.len() == before.archive_entries@.len()
            &&& after.archive_entries@[e].texture_list() matches Some(list) && list[t].modified
                && list[t].preview_texture is None
            &&& 0 <= k < before.archive_entries@.len() && k != e ==> after.archive_entries@[k]
                == before.archive_entries@[k]
        },
{
    let place = entry_of_job(before, path);
    let mid = choose|mid: ImportedAsset| #[trigger]
        asset_changed(before, mid, place, t, TextureChange::Applied) && marked_dirty(
            mid,
            after,
            place,
        );
    if let Some(e) = place {
        let end = choose|end: ImportedAsset| #[trigger]
            entry_marked(mid, end, e) && after == end.synced();
        assert(end.archive_entries@[e].dirty);
        assert(any_dirty(end.archive_entries@));
    }
}

/// A preview that was loaded is the picture of the texture that it was made for, and of no other.
pub proof fn a_preview_comes_to_its_texture(
    before: App,
    asset_id: String,
    path: Option<String>,
    texture_index: usize,
    picture: u64,
    after: App,
    r: FollowUp,
    k: int,
)
    requires
        job_taken_in(
            before,
            JobResult::PreviewFinished {
                asset_id,
                entry_path: path,
                texture_index,
                result: Ok(picture),
            },
            after,
            r,
        ),
        asset_named(before.assets@, asset_id@) matches Some(a) && texture_of_job(
            before.assets@[a],
            path,
            texture_index as int,
        ),
    ensures
        ({
            let a = asset_named(before.assets@, asset_id@)->0;
            let e = entry_of_job(before.assets@[a], path);
            let texture = texture_in(after.assets@[a], e, texture_index as int);
            &&& texture.preview_texture == Some(picture) && !texture.preview_loading
            &&& texture.modified == texture_in(
                before.assets@[a],
                e,
                texture_index as int,
            ).modified
            &&& after.assets@[a].dirty == before.assets@[a].dirty
            &&& 0 <= k < before.assets@.len() && k != a ==> after.assets@[k] == before.assets@[k]
            &&& after.selected_asset == before.selected_asset && after.selected_texture
                == before.selected_texture
        }),
{
    lemma_asset_bounds(before.assets@, Seq::empty(), asset_id@);
}

/// A save that succeeded leaves its asset without staged changes, and the texts that were read again are
/// what the archive holds now; the other assets stay as they are.
pub proof fn a_saved_asset_holds_what_was_written(
    before: App,
    asset_id: String,
    path: PathBuf,
    texts: Vec<Option<String>>,
    after: App,
    r: FollowUp,
    i: int,
    k: int,
)
    requires
        job_taken_in(
            before,
            JobResult::SaveFinished { asset_id, result: Ok(path), texts },
            after,
            r,
        ),
        asset_named(before.assets@, asset_id@) is Some,
    ensures
        ({
            let a = asset_named(before.assets@, asset_id@)->0;
            let asset = after.assets@[a];
            let entries = before.assets@[a].archive_entries@;
            &&& asset.last_saved_path == Some(path) && !asset.dirty && !asset.staged()
            &&& asset.source_path == before.assets@[a].source_path
            &&& asset.archive_entries@.len() == entries.len()
            &&& 0 <= i < entries.len() && i < texts@.len() && texts@[i] is Some
                && entries[i].text_before() is Some ==> asset.archive_entries@[i].text_before()
                == texts@[i]
            &&& 0 <= i < entries.len() ==> asset.archive_entries@[i].entry_path
                == entries[i].entry_path && asset.archive_entries@[i].staged_file()
                == entries[i].staged_file() && !asset.archive_entries@[i].added
            &&& 0 <= i < entries.len() && (i >= texts@.len() || texts@[i] is None)
                ==> asset.archive_entries@[i].text_before() == entries[i].text_before()
            &&& 0 <= k < before.assets@.len() && k != a ==> after.assets@[k] == before.assets@[k]
        }),
{
    let a = asset_named(before.assets@, asset_id@)->0;
    lemma_asset_bounds(before.assets@, Seq::empty(), asset_id@);
    a_saved_asset_is_clean(before.assets@[a], after.assets@[a], path, texts@);
    if 0 <= i < before.assets@[a].archive_entries@.len() {
        assert(entry_saved(
            before.assets@[a].archive_entries@[i],
            after.assets@[a].archive_entries@[i],
            if i < texts@.len() {
                texts@[i]
            } else {
                None
            },
        ));
    }
}

/// The wizard goes on from the step at which it waited for a tool, to the step behind it, once the tool
/// is there; a user who has gone elsewhere is left there.
pub proof fn the_wizard_goes_on_with_a_tool(before: App, job: JobResult, after: App, r: FollowUp)
    requires
        job_taken_in(before, job, after, r),
    ensures
        job matches JobResult::DownloadCodeWalkerFinished(Ok(_)) ==> before.setup_step
            is ExternalTools ==> Some(after.setup_step) == SetupStep::ExternalTools.following(),
        job matches JobResult::BuildHelperFinished(Ok(_)) ==> before.setup_step is BuildHelper
            ==> Some(after.setup_step) == SetupStep::BuildHelper.following(),
        after.setup_step != before.setup_step ==> {
            &&& before.setup_step.following() == Some(after.setup_step)
            &&& (job is DownloadCodeWalkerFinished && before.setup_step is ExternalTools) || (
            job is BuildHelperFinished && before.setup_step is BuildHelper)
        },
{
    every_job_ends_once(before, job, after, r);
}

/// What a job has to say is what the user is told.
pub proof fn the_message_of_a_job_is_told(before: App, job: JobResult, after: App, r: FollowUp)
    requires
        job_taken_in(before, job, after, r),
    ensures
        job matches JobResult::LaunchProgress(message) ==> after.status == message,
        job matches JobResult::LaunchFinished(Ok(message)) ==> after.status@ == message@
            && opt_text(r.toast) == Some(message@),
        job matches JobResult::PrepareVulkanRuntimeFinished(Ok(message)) ==> after.status@
            == message@,
        job matches JobResult::UpdateCodeWalkerFinished(Ok(message)) ==> after.status@ == message@,
{
}

/// Textures that were opened are in the archive as they were exported: all of them, unchanged, under the
/// path and the title of their entry.
pub proof fn opened_textures_are_unchanged(
    draft: ImportedArchiveEntryDraft,
    entry: ImportedArchiveEntry,
    i: int,
)
    requires
        entry_with_textures(draft, entry),
    ensures
        entry.entry_path == draft.entry_path && entry.title == draft.title,
        !entry.dirty && !entry.added && entry_step(entry) is None,
        entry.texture_list() matches Some(list) && list.len() == draft.textures@.len() && (0 <= i
            < list.len() ==> list[i].name == draft.textures@[i].name && list[i].dds_path
            == draft.textures@[i].dds_path && !list[i].modified && list[i].preview_texture is None),
        entry_step(ImportedArchiveEntry { dirty: true, ..entry }) matches Some(step)
            && step is ReplaceAssetXml,
{
    if 0 <= i < draft.textures@.len() {
        drafts_become_unchanged_textures(draft.textures@, i);
    }
}

/// Once an edited texture was written, the editors are left, the texture is selected, and its asset has
/// staged changes.
pub proof fn an_applied_edit_is_left(
    before: App,
    asset_id: String,
    path: Option<String>,
    texture_index: usize,
    after: App,
    r: FollowUp,
)
    requires
        job_taken_in(
            before,
            JobResult::ApplyFinished { asset_id, entry_path: path, texture_index, result: Ok(()) },
            after,
            r,
        ),
        asset_named(before.assets@, asset_id@) matches Some(a) && texture_of_job(
            before.assets@[a],
            path,
            texture_index as int,
        ) && (path is Some ==> before.assets@[a].kind is Rpf),
    ensures
        after.editor is None && after.text_editor is None,
        after.selected_asset == Some(asset_named(before.assets@, asset_id@)->0 as usize),
        after.selected_texture == Some(texture_index),
        after.assets@[asset_named(before.assets@, asset_id@)->0].dirty,
        after.assets@.len() == before.assets@.len(),
{
    let done = job_done(before);
    let a = asset_named(before.assets@, asset_id@)->0;
    lemma_asset_bounds(before.assets@, Seq::empty(), asset_id@);
    let (shown, asked) = choose|shown: App, asked: App| #[trigger]
        edit_shown(done, a, path, texture_index as int, shown) && #[trigger] preview_requested(
            shown,
            asked,
            r.preview,
        ) && said(asked, after, after.status@);
    lemma_asking(shown, asked, r.preview);
    a_written_texture_is_staged(
        before.assets@[a],
        shown.assets@[a],
        path,
        texture_index as int,
        0,
    );
    assert(asked.assets@[a].dirty == shown.assets@[a].dirty);
}

/// An entry that cannot be shown is waited for no more, and told as what it is: one that is not supported
/// by its own message, as the selected file, and one that could not be opened as not supported.
pub proof fn an_entry_that_cannot_be_shown_is_told(
    before: App,
    asset_id: String,
    path: String,
    result: Result<ArchiveEntryOpenOutcome, String>,
    after: App,
    r: FollowUp,
)
    requires
        job_taken_in(
            before,
            JobResult::OpenArchiveEntryFinished { asset_id, entry_path: path, result },
            after,
            r,
        ),
        asset_named(before.assets@, asset_id@) is Some,
    ensures
        ({
            let asset = after.assets@[asset_named(before.assets@, asset_id@)->0];
            let was = before.assets@[asset_named(before.assets@, asset_id@)->0];
            &&& asset.archive_file_loading_path is None
            &&& result matches Ok(ArchiveEntryOpenOutcome::Unsupported(message))
                ==> asset.archive_file_notice == Some(message) && asset.archive_selected_file
                == Some(path) && after.status == message && asset.archive_entries
                == was.archive_entries && after.selected_texture is None
            &&& result is Err ==> opt_text(asset.archive_file_notice) == Some("Not supported."@)
                && asset.archive_entries == was.archive_entries && after.selected_texture is None
            &&& result matches Ok(ArchiveEntryOpenOutcome::TextureAsset(_))
                ==> asset.archive_file_notice is None && asset.archive_selected_file == Some(path)
                && after.selected_texture == Some(0usize)
        }),
{
    let done = job_done(before);
    let a = asset_named(before.assets@, asset_id@)->0;
    lemma_asset_bounds(before.assets@, Seq::empty(), asset_id@);
    match result {
        Ok(ArchiveEntryOpenOutcome::TextureAsset(draft)) => {
            let (entry, taken, asked) = choose|entry: ImportedArchiveEntry, taken: App, asked: App|
                #[trigger]
                entry_with_textures(draft, entry) && #[trigger] entry_shown_in(
                    done,
                    a,
                    path,
                    entry,
                    Some(0usize),
                    taken,
                ) && #[trigger] preview_requested(taken, asked, r.preview) && said(
                    asked,
                    after,
                    "Opened "@ + draft.title@,
                );
            lemma_asking(taken, asked, r.preview);
            assert(asked.assets@[a].archive_selected_file == taken.assets@[a].archive_selected_file);
        },
        Ok(ArchiveEntryOpenOutcome::XmlText(draft)) => {
            an_opened_text_is_shown(before, asset_id, path, draft, after, r, 0);
        },
        _ => {},
    }
}

/// A preview that could not be made is waited for no more, so that it can be asked for again; a picture
/// that was there stays.
pub proof fn a_failed_preview_can_be_asked_for_again(
    before: App,
    asset_id: String,
    path: Option<String>,
    texture_index: usize,
    trouble: PreviewTrouble,
    after: App,
    r: FollowUp,
)
    requires
        job_taken_in(
            before,
            JobResult::PreviewFinished {
                asset_id,
                entry_path: path,
                texture_index,
                result: Err(trouble),
            },
            after,
            r,
        ),
        asset_named(before.assets@, asset_id@) matches Some(a) && texture_of_job(
            before.assets@[a],
            path,
            texture_index as int,
        ),
    ensures
        ({
            let a = asset_named(before.assets@, asset_id@)->0;
            let e = entry_of_job(before.assets@[a], path);
            let was = texture_in(before.assets@[a], e, texture_index as int);
            let texture = texture_in(after.assets@[a], e, texture_index as int);
            &&& !texture.preview_loading
            &&& texture.preview_texture == was.preview_texture && texture.modified == was.modified
            &&& after.assets@[a].dirty == before.assets@[a].dirty
            &&& trouble matches PreviewTrouble::Load(why) ==> ends(after.status@, why@)
            &&& trouble matches PreviewTrouble::Generation(why) ==> ends(after.status@, why@)
        }),
{
    lemma_asset_bounds(before.assets@, Seq::empty(), asset_id@);
    match trouble {
        PreviewTrouble::Load(why) => lemma_ends("Preview load failed: "@, why@),
        PreviewTrouble::Generation(why) => lemma_ends("Preview generation failed: "@, why@),
    }
}

}
