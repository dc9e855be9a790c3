//! Selecting assets and textures, and moving through an archive.

use crate::app::App;
use crate::archive::ArchiveContentKind;
use crate::assets::{
    entry_at, lemma_entry_bounds, ImportedArchiveEntry, ImportedArchiveEntryData, ImportedAsset,
};
use crate::paths::{self, opt_bytes, parent_bytes, path_class, shown_path, PathBytes};
use crate::text::{self, opt_text};
use crate::textures::TextureEntry;
use std::path::{Path, PathBuf};
use vstd::prelude::*;

verus! {

/// What happens to a texture.
#[derive(Clone, Copy, PartialEq, Eq, Structural)]
pub enum TextureChange {
    Loading,
    PreviewFailed,
    PreviewLoaded(u64),
    Applied,
    Saved,
}

/// A texture after a change.
pub open spec fn changed(texture: TextureEntry, change: TextureChange) -> TextureEntry {
    match change {
        TextureChange::Loading => TextureEntry { preview_loading: true, ..texture },
        TextureChange::PreviewFailed => TextureEntry { preview_loading: false, ..texture },
        TextureChange::PreviewLoaded(picture) => TextureEntry {
            preview_loading: false,
            preview_texture: Some(picture),
            ..texture
        },
        TextureChange::Applied => TextureEntry {
            preview_loading: false,
            preview_texture: None,
            modified: true,
            ..texture
        },
        TextureChange::Saved => TextureEntry { modified: false, ..texture },
    }
}

impl TextureEntry {
    /// Changes the texture.
    pub fn apply(&mut self, change: TextureChange)
        ensures
            *final(self) == changed(*old(self), change),
    {
        match change {
            TextureChange::Loading => {
                self.preview_loading = true;
            },
            TextureChange::PreviewFailed => {
                self.preview_loading = false;
            },
            TextureChange::PreviewLoaded(picture) => {
                self.preview_loading = false;
                self.preview_texture = Some(picture);
            },
            TextureChange::Applied => {
                self.preview_loading = false;
                self.preview_texture = None;
                self.modified = true;
            },
            TextureChange::Saved => {
                self.modified = false;
            },
        }
    }
}

/// Whether an entry changed in one texture only.
pub open spec fn entry_changed(
    before: ImportedArchiveEntry,
    after: ImportedArchiveEntry,
    t: int,
    change: TextureChange,
) -> bool {
    &&& after == (ImportedArchiveEntry { data: after.data, ..before })
    &&& before.data matches ImportedArchiveEntryData::TextureAsset { xml_path, textures }
    &&& after.data matches ImportedArchiveEntryData::TextureAsset {
        xml_path: same_path,
        textures: new_textures,
    }
    &&& same_path == xml_path
    &&& new_textures@ == textures@.update(t, changed(textures@[t], change))
}

impl ImportedArchiveEntry {
    /// Changes one texture of the entry.
    pub fn change_texture(&mut self, t: usize, change: TextureChange)
        requires
            old(self).texture_list() matches Some(list) && t < list.len(),
        ensures
            entry_changed(*old(self), *final(self), t as int, change),
    {
        match &mut self.data {
            ImportedArchiveEntryData::TextureAsset { textures, .. } => {
                textures[t].apply(change);
            },
            _ => {},
        }
    }
}

impl ImportedArchiveEntry {
    /// Exchanges the text that the entry has in the archive.
    pub fn set_original_text(&mut self, text: String)
        requires
            old(self).data is XmlText,
        ensures
            *final(self) == (ImportedArchiveEntry { data: final(self).data, ..*old(self) }),
            old(self).data matches ImportedArchiveEntryData::XmlText { source_path, source_kind, .. }
                && final(self).data == (ImportedArchiveEntryData::XmlText {
                source_path,
                original_text: text,
                source_kind,
            }),
    {
        match &mut self.data {
            ImportedArchiveEntryData::XmlText { original_text, .. } => {
                *original_text = text;
            },
            _ => {},
        }
    }
}

/// Whether an asset has the texture with the given number, in one of its entries or of its own.
pub open spec fn has_texture(asset: ImportedAsset, entry: Option<int>, t: int) -> bool {
    match entry {
        Some(e) => 0 <= e < asset.archive_entries@.len() && (
        asset.archive_entries@[e].texture_list() matches Some(list) && 0 <= t < list.len()),
        None => 0 <= t < asset.textures@.len(),
    }
}

/// The texture with the given number, in an entry of an asset or of its own.
pub open spec fn texture_in(asset: ImportedAsset, entry: Option<int>, t: int) -> TextureEntry {
    match entry {
        Some(e) => asset.archive_entries@[e].texture_list()->0[t],
        None => asset.textures@[t],
    }
}

/// Whether an asset changed in one texture only.
pub open spec fn asset_changed(
    before: ImportedAsset,
    after: ImportedAsset,
    entry: Option<int>,
    t: int,
    change: TextureChange,
) -> bool {
    match entry {
        Some(e) => {
            &&& after == (ImportedAsset { archive_entries: after.archive_entries, ..before })
            &&& after.archive_entries@ == before.archive_entries@.update(
                e,
                after.archive_entries@[e],
            )
            &&& entry_changed(before.archive_entries@[e], after.archive_entries@[e], t, change)
        },
        None => {
            &&& after == (ImportedAsset { textures: after.textures, ..before })
            &&& after.textures@ == before.textures@.update(
                t,
                changed(before.textures@[t], change),
            )
        },
    }
}

/// The position of an optional number.
pub open spec fn place(entry: Option<usize>) -> Option<int> {
    match entry {
        Some(e) => Some(e as int),
        None => None,
    }
}

impl ImportedAsset {
    /// Changes one texture of the asset.
    pub fn change_texture(&mut self, entry: Option<usize>, t: usize, change: TextureChange)
        requires
            has_texture(*old(self), place(entry), t as int),
        ensures
            asset_changed(*old(self), *final(self), place(entry), t as int, change),
    {
        match entry {
            Some(e) => {
                let ghost before = self.archive_entries@;
                self.archive_entries[e].change_texture(t, change);
                assert(self.archive_entries@ =~= before.update(
                    e as int,
                    self.archive_entries@[e as int],
                ));
            },
            None => {
                self.textures[t].apply(change);
            },
        }
    }

    /// Whether the asset has the texture with the given number.
    pub fn holds_texture(&self, entry: Option<usize>, t: usize) -> (r: bool)
        requires
            entry matches Some(e) ==> e < self.archive_entries@.len(),
        ensures
            r == has_texture(*self, place(entry), t as int),
    {
        match entry {
            Some(e) => match self.archive_entries[e].textures() {
                Some(textures) => t < textures.len(),
                None => false,
            },
            None => t < self.textures.len(),
        }
    }

    /// The texture with the given number.
    pub fn texture(&self, entry: Option<usize>, t: usize) -> (r: Option<&TextureEntry>)
        requires
            entry matches Some(e) ==> e < self.archive_entries@.len(),
        ensures
            match r {
                Some(texture) => has_texture(*self, place(entry), t as int) && *texture
                    == texture_in(*self, place(entry), t as int),
                None => !has_texture(*self, place(entry), t as int),
            },
    {
        match entry {
            Some(e) => match self.archive_entries[e].textures() {
                Some(textures) => if t < textures.len() {
                    Some(&textures[t])
                } else {
                    None
                },
                None => None,
            },
            None => if t < self.textures.len() {
                Some(&self.textures[t])
            } else {
                None
            },
        }
    }
}

/// A preview that has to be made.
pub struct PreviewJob {
    pub asset_id: String,
    pub entry_path: Option<String>,
    pub texture_index: usize,
    pub dds_path: PathBuf,
    pub preview_png_path: PathBuf,
}

/// An entry of an archive that has to be exported.
pub struct OpenEntryJob {
    pub asset_id: String,
    pub archive_path: PathBuf,
    pub entry_path: String,
    pub content_kind: ArchiveContentKind,
}

/// The position of the first asset that comes from the given file.
pub open spec fn asset_at(assets: Seq<ImportedAsset>, class: Seq<Seq<u8>>) -> Option<int>
    decreases assets.len(),
{
    if assets.len() == 0 {
        None
    } else {
        match asset_at(assets.drop_last(), class) {
            Some(i) => Some(i),
            None => if path_class(assets.last().source_path.bytes()) == class {
                Some(assets.len() - 1)
            } else {
                None
            },
        }
    }
}

/// The position of the first asset with the given identifier.
pub open spec fn asset_named(assets: Seq<ImportedAsset>, id: Seq<char>) -> Option<int>
    decreases assets.len(),
{
    if assets.len() == 0 {
        None
    } else {
        match asset_named(assets.drop_last(), id) {
            Some(i) => Some(i),
            None => if assets.last().id@ == id {
                Some(assets.len() - 1)
            } else {
                None
            },
        }
    }
}

impl App {
    /// The position of the entry that is selected in an archive, as far as it was opened.
    pub open spec fn active_entry(self, a: int) -> Option<int> {
        if 0 <= a < self.assets@.len() && self.assets@[a].archive() {
            match self.assets@[a].archive_selected_file {
                Some(path) => self.assets@[a].entry(path@),
                None => None,
            }
        } else {
            None
        }
    }

    /// The positions of the selected asset and of its selected entry.
    pub open spec fn current_entry(self) -> Option<(int, int)> {
        match self.selected_asset {
            Some(a) => match self.active_entry(a as int) {
                Some(e) => Some((a as int, e)),
                None => None,
            },
            None => None,
        }
    }

    /// Where the selected texture is: in which asset, in which of its entries, and its number.
    pub open spec fn current_slot(self) -> Option<(int, Option<int>, int)> {
        match (self.selected_asset, self.selected_texture) {
            (Some(a), Some(t)) => if a < self.assets@.len() && has_texture(
                self.assets@[a as int],
                self.active_entry(a as int),
                t as int,
            ) {
                Some((a as int, self.active_entry(a as int), t as int))
            } else {
                None
            },
            _ => None,
        }
    }

    pub fn asset_index_for_source_path(&self, path: &Path) -> (r: Option<usize>)
        ensures
            match r {
                Some(i) => asset_at(self.assets@, path_class(path.bytes())) == Some(i as int) && i
                    < self.assets@.len(),
                None => asset_at(self.assets@, path_class(path.bytes())) is None,
            },
    {
        let ghost all = self.assets@;
        let ghost class = path_class(path.bytes());
        let mut found: Option<usize> = None;
        let mut i: usize = 0;
        while i < self.assets.len()
            invariant
                all == self.assets@,
                class == path_class(path.bytes()),
                0 <= i <= all.len(),
                match found {
                    Some(k) => asset_at(all.take(i as int), class) == Some(k as int) && k < i,
                    None => asset_at(all.take(i as int), class) is None,
                },
            decreases all.len() - i,
        {
            proof {
                assert(all.take(i + 1).drop_last() =~= all.take(i as int));
                assert(all.take(i + 1).last() == all[i as int]);
            }
            if found.is_none() && paths::same_path(self.assets[i].source_path.as_path(), path) {
                found = Some(i);
            }
            i += 1;
        }
        assert(all.take(all.len() as int) =~= all);
        found
    }

    /// The position of the asset with the given identifier.
    pub fn asset_index_for_id(&self, id: &str) -> (r: Option<usize>)
        ensures
            match r {
                Some(i) => asset_named(self.assets@, id@) == Some(i as int) && i
                    < self.assets@.len(),
                None => asset_named(self.assets@, id@) is None,
            },
    {
        let ghost all = self.assets@;
        let mut found: Option<usize> = None;
        let mut i: usize = 0;
        while i < self.assets.len()
            invariant
                all == self.assets@,
                0 <= i <= all.len(),
                match found {
                    Some(k) => asset_named(all.take(i as int), id@) == Some(k as int) && k < i,
                    None => asset_named(all.take(i as int), id@) is None,
                },
            decreases all.len() - i,
        {
            proof {
                assert(all.take(i + 1).drop_last() =~= all.take(i as int));
                assert(all.take(i + 1).last() == all[i as int]);
            }
            if found.is_none() && text::same_text(self.assets[i].id.as_str(), id) {
                found = Some(i);
            }
            i += 1;
        }
        assert(all.take(all.len() as int) =~= all);
        found
    }

    fn active_entry_index(&self, asset_index: usize) -> (r: Option<usize>)
        ensures
            place(r) == self.active_entry(asset_index as int),
            r matches Some(e) ==> asset_index < self.assets@.len() && e
                < self.assets@[asset_index as int].archive_entries@.len(),
    {
        if asset_index >= self.assets.len() {
            return None;
        }
        let asset = &self.assets[asset_index];
        if !asset.is_archive() {
            return None;
        }
        match &asset.archive_selected_file {
            Some(path) => asset.entry_position(path.as_str()),
            None => None,
        }
    }

    /// The path of the entry that is selected in an archive, as far as it was opened.
    pub fn active_archive_entry_path(&self, asset_index: usize) -> (r: Option<String>)
        ensures
            r == if self.active_entry(asset_index as int) is Some {
                self.assets@[asset_index as int].archive_selected_file
            } else {
                None
            },
    {
        match self.active_entry_index(asset_index) {
            Some(_) => match &self.assets[asset_index].archive_selected_file {
                Some(path) => Some(path.clone()),
                None => None,
            },
            None => None,
        }
    }

    fn texture_slot(&self) -> (r: Option<(usize, Option<usize>, usize)>)
        ensures
            match r {
                Some((a, e, t)) => self.current_slot() == Some((a as int, place(e), t as int)) && a
                    < self.assets@.len() && (e matches Some(k) ==> k
                    < self.assets@[a as int].archive_entries@.len()),
                None => self.current_slot() is None,
            },
    {
        match self.selected_asset {
            Some(a) => match self.selected_texture {
                Some(t) => {
                    if a >= self.assets.len() {
                        return None;
                    }
                    let entry = self.active_entry_index(a);
                    if self.assets[a].holds_texture(entry, t) {
                        Some((a, entry, t))
                    } else {
                        None
                    }
                },
                None => None,
            },
            None => None,
        }
    }

    /// The selected texture.
    pub fn current_texture_entry(&self) -> (r: Option<&TextureEntry>)
        ensures
            match (r, self.current_slot()) {
                (Some(texture), Some((a, e, t))) => *texture == texture_in(self.assets@[a], e, t),
                (None, None) => true,
                _ => false,
            },
    {
        match self.texture_slot() {
            Some((a, e, t)) => self.assets[a].texture(e, t),
            None => None,
        }
    }

    /// The selected entry of an archive.
    pub fn current_archive_entry(&self) -> (r: Option<&ImportedArchiveEntry>)
        ensures
            match (r, self.current_entry()) {
                (Some(entry), Some((a, e))) => *entry == self.assets@[a].archive_entries@[e],
                (None, None) => true,
                _ => false,
            },
    {
        match self.selected_asset {
            Some(a) => match self.active_entry_index(a) {
                Some(e) => Some(&self.assets[a].archive_entries[e]),
                None => None,
            },
            None => None,
        }
    }

    /// The selected entry of an archive, where it is a text.
    pub open spec fn current_text(self) -> Option<(int, int)> {
        match self.current_entry() {
            Some((a, e)) => if self.assets@[a].archive_entries@[e].shown_as_text() {
                Some((a, e))
            } else {
                None
            },
            None => None,
        }
    }

    pub fn current_archive_text_entry(&self) -> (r: Option<&ImportedArchiveEntry>)
        ensures
            match (r, self.current_text()) {
                (Some(entry), Some((a, e))) => *entry == self.assets@[a].archive_entries@[e],
                (None, None) => true,
                _ => false,
            },
    {
        match self.current_archive_entry() {
            Some(entry) => if entry.is_xml_text() {
                Some(entry)
            } else {
                None
            },
            None => None,
        }
    }

    /// Whether what is selected can be edited.
    pub open spec fn editable(self) -> bool {
        self.current_text() is Some || (self.current_slot() matches Some((a, e, t)) && texture_in(
            self.assets@[a],
            e,
            t,
        ).format@.writable())
    }

    pub fn current_entry_editable(&self) -> (r: bool)
        ensures
            r == self.editable(),
    {
        if self.current_archive_text_entry().is_some() {
            return true;
        }
        match self.current_texture_entry() {
            Some(texture) => texture.format.supported_for_write(),
            None => false,
        }
    }

    pub fn current_edit_button_label(&self) -> (r: &'static str)
        ensures
            r@ == if self.current_text() is Some {
                "Edit XML"@
            } else {
                "Edit Texture"@
            },
    {
        if self.current_archive_text_entry().is_some() {
            "Edit XML"
        } else {
            "Edit Texture"
        }
    }
}

/// Whether a preview of the selected texture was asked for as it should be: where there is none
/// and none is being made, the texture is marked and a job is handed out.
pub open spec fn preview_requested(before: App, after: App, job: Option<PreviewJob>) -> bool {
    match before.current_slot() {
        Some((a, e, t)) => {
            let asset = before.assets@[a];
            let texture = texture_in(asset, e, t);
            if texture.preview_texture is Some || texture.preview_loading {
                after == before && job is None
            } else {
                &&& job matches Some(j)
                &&& j.asset_id == asset.id
                &&& j.entry_path == if e is Some {
                    asset.archive_selected_file
                } else {
                    None
                }
                &&& j.texture_index == t
                &&& j.dds_path == texture.dds_path
                &&& j.preview_png_path == texture.preview_png_path
                &&& after == (App {
                    assets: after.assets,
                    pending_jobs: (before.pending_jobs + 1) as usize,
                    ..before
                })
                &&& after.assets@ == before.assets@.update(a, after.assets@[a])
                &&& asset_changed(asset, after.assets@[a], e, t, TextureChange::Loading)
            }
        },
        None => after == before && job is None,
    }
}

/// Whether an asset was shown from its beginning: nothing is selected in an archive, and its
/// current folder stays or becomes the root.
pub open spec fn asset_opened(before: ImportedAsset, after: ImportedAsset) -> bool {
    if before.archive() {
        &&& after == (ImportedAsset {
            archive_current_path: after.archive_current_path,
            archive_selected_file: None,
            archive_file_notice: None,
            archive_file_loading_path: None,
            ..before
        })
        &&& opt_text(after.archive_current_path) == if before.archive_current_path is Some {
            opt_text(before.archive_current_path)
        } else {
            before.root()
        }
    } else {
        after == before
    }
}

/// Whether an asset was selected as it should be.
pub open spec fn asset_selected(before: App, i: int, after: App) -> bool {
    let asset = before.assets@[i];
    &&& after == (App {
        selected_asset: Some(i as usize),
        selected_mod_path: Some(asset.source_path),
        current_mod_browser_path: after.current_mod_browser_path,
        assets: after.assets,
        selected_texture: if asset.archive() || asset.textures@.len() == 0 {
            None
        } else {
            Some(0usize)
        },
        ..before
    })
    &&& opt_bytes(after.current_mod_browser_path) == parent_bytes(asset.source_path.bytes())
    &&& after.assets@ == before.assets@.update(i, after.assets@[i])
    &&& asset_opened(asset, after.assets@[i])
}

impl App {
    /// Asks for a preview of the selected texture.
    pub fn request_preview_for_selected_texture(&mut self) -> (r: Option<PreviewJob>)
        requires
            old(self).pending_jobs < usize::MAX,
        ensures
            preview_requested(*old(self), *final(self), r),
            old(self).well_formed() ==> final(self).well_formed(),
    {
        match self.texture_slot() {
            Some((a, e, t)) => {
                let entry_path = match e {
                    Some(_) => match &self.assets[a].archive_selected_file {
                        Some(path) => Some(path.clone()),
                        None => None,
                    },
                    None => None,
                };
                let asset_id = self.assets[a].id.clone();
                let (dds_path, preview_png_path) = match self.assets[a].texture(e, t) {
                    Some(texture) => {
                        if texture.preview_texture.is_some() || texture.preview_loading {
                            return None;
                        }
                        (texture.dds_path.clone(), texture.preview_png_path.clone())
                    },
                    None => {
                        return None;
                    },
                };
                let ghost before = self.assets@;
                self.assets[a].change_texture(e, t, TextureChange::Loading);
                assert(self.assets@ =~= before.update(a as int, self.assets@[a as int]));
                self.pending_jobs = self.pending_jobs + 1;
                Some(
                    PreviewJob {
                        asset_id,
                        entry_path,
                        texture_index: t,
                        dds_path,
                        preview_png_path,
                    },
                )
            },
            None => None,
        }
    }

    fn show_asset(&mut self, asset_index: usize)
        requires
            asset_index < old(self).assets@.len(),
        ensures
            asset_selected(*old(self), asset_index as int, *final(self)),
            old(self).well_formed() ==> final(self).well_formed(),
    {
        let i: usize = asset_index;
        self.selected_asset = Some(i);
        let source = self.assets[i].source_path.clone();
        self.current_mod_browser_path = paths::parent(source.as_path());
        self.selected_mod_path = Some(source);
        let ghost before = self.assets@;
        if self.assets[i].is_archive() {
            if self.assets[i].archive_current_path.is_none() {
                let root = match self.assets[i].archive_root_path() {
                    Some(path) => Some(path.clone()),
                    None => None,
                };
                self.assets[i].archive_current_path = root;
            }
            self.assets[i].archive_selected_file = None;
            self.assets[i].archive_file_notice = None;
            self.assets[i].archive_file_loading_path = None;
            self.selected_texture = None;
        } else {
            self.selected_texture = if self.assets[i].textures.len() == 0 {
                None
            } else {
                Some(0)
            };
        }
        assert(self.assets@ =~= before.update(i as int, self.assets@[i as int]));
    }

    /// Selects an asset, and its first texture where it is no archive.
    pub fn select_asset(&mut self, asset_index: usize) -> (r: Option<PreviewJob>)
        requires
            asset_index < old(self).assets@.len(),
            old(self).pending_jobs < usize::MAX,
        ensures
            exists|mid: App| #[trigger]
                asset_selected(*old(self), asset_index as int, mid) && preview_requested(
                    mid,
                    *final(self),
                    r,
                ),
            old(self).well_formed() ==> final(self).well_formed(),
            final(self).assets@.len() == old(self).assets@.len(),
            final(self).assets@[asset_index as int].source_path
                == old(self).assets@[asset_index as int].source_path,
    {
        self.show_asset(asset_index);
        let ghost mid = *self;
        let job = self.request_preview_for_selected_texture();
        assert(asset_selected(*old(self), asset_index as int, mid) && preview_requested(
            mid,
            *self,
            job,
        ));
        job
    }

    /// Selects a texture.
    pub fn select_texture(&mut self, texture_index: usize) -> (r: Option<PreviewJob>)
        requires
            old(self).pending_jobs < usize::MAX,
        ensures
            preview_requested(
                App { selected_texture: Some(texture_index), ..*old(self) },
                *final(self),
                r,
            ),
            old(self).well_formed() ==> final(self).well_formed(),
    {
        self.selected_texture = Some(texture_index);
        self.request_preview_for_selected_texture()
    }
}

/// What opening a file of the mods folder comes to.
pub enum AssetOpening {
    Selected(Option<PreviewJob>),
    Waiting,
    Import(PathBuf),
}

/// The state in which a file of the mods folder is selected.
pub open spec fn file_chosen(before: App, path: PathBuf, after: App) -> bool {
    &&& after == (App {
        selected_mod_path: Some(path),
        current_mod_browser_path: after.current_mod_browser_path,
        ..before
    })
    &&& opt_bytes(after.current_mod_browser_path) == parent_bytes(path.bytes())
}

/// Whether the import of a file that is not open was begun, or is waited for.
pub open spec fn import_begun(before: App, path: PathBuf, after: App, r: AssetOpening) -> bool {
    &&& after.status@ == "Opening "@ + shown_path(path.bytes()) + "..."@
    &&& if before.pending_import_paths@.contains(path_class(path.bytes())) {
        &&& r is Waiting
        &&& after == (App { status: after.status, ..before })
    } else {
        &&& r == AssetOpening::Import(path)
        &&& after == (App {
            pending_import_paths: after.pending_import_paths,
            pending_jobs: (before.pending_jobs + 1) as usize,
            status: after.status,
            ..before
        })
        &&& after.pending_import_paths@ == before.pending_import_paths@.insert(
            path_class(path.bytes()),
        )
    }
}

/// Whether opening a file went on as it should once the file was selected.
pub open spec fn file_opened(chosen: App, path: PathBuf, after: App, r: AssetOpening) -> bool {
    match asset_at(chosen.assets@, path_class(path.bytes())) {
        Some(i) => exists|mid: App| #[trigger]
            asset_selected(chosen, i, mid) && (r matches AssetOpening::Selected(job)
                && preview_requested(mid, after, job)),
        None => import_begun(chosen, path, after, r),
    }
}

proof fn lemma_file_opened(
    chosen: App,
    path: PathBuf,
    i: int,
    mid: App,
    after: App,
    job: Option<PreviewJob>,
)
    requires
        asset_at(chosen.assets@, path_class(path.bytes())) == Some(i),
        asset_selected(chosen, i, mid),
        preview_requested(mid, after, job),
    ensures
        file_opened(chosen, path, after, AssetOpening::Selected(job)),
{
}

/// Whether the user was led one step up as it should be; `r` says whether the pane shows a folder of the
/// mods folder then.
pub open spec fn went_up(before: App, root_is_dir: bool, after: App, r: bool) -> bool {
    match before.selected_asset {
        None => {
            &&& r == (before.browser_parent(root_is_dir) is Some)
            &&& !r ==> after == before
            &&& r ==> opt_bytes(after.selected_mod_path)
                == before.browser_parent(root_is_dir) && after == (App {
                selected_mod_path: after.selected_mod_path,
                current_mod_browser_path: after.selected_mod_path,
                selected_asset: None,
                selected_texture: None,
                editor: None,
                text_editor: None,
                ..before
            })
        },
        Some(i) => {
            let asset = before.assets@[i as int];
            let above = match asset.archive_current_path {
                Some(path) => asset.above(path@),
                None => None,
            };
            if asset.archive_selected_file is Some {
                &&& !r
                &&& after == (App {
                    assets: after.assets,
                    selected_texture: None,
                    ..before
                })
                &&& after.assets@ == before.assets@.update(
                    i as int,
                    ImportedAsset {
                        archive_selected_file: None,
                        archive_file_notice: None,
                        archive_file_loading_path: None,
                        ..asset
                    },
                )
            } else if above is Some {
                let now = after.assets@[i as int];
                &&& !r
                &&& after == (App {
                    assets: after.assets,
                    selected_texture: None,
                    ..before
                })
                &&& after.assets@ == before.assets@.update(i as int, now)
                &&& now == (ImportedAsset {
                    archive_current_path: now.archive_current_path,
                    archive_selected_file: None,
                    archive_file_notice: None,
                    archive_file_loading_path: None,
                    ..asset
                })
                &&& opt_text(now.archive_current_path) == above
            } else {
                &&& r == (before.current_mod_browser_path is Some)
                &&& !r ==> after == before
                &&& r ==> after == (App {
                    selected_mod_path: before.current_mod_browser_path,
                    selected_asset: None,
                    selected_texture: None,
                    editor: None,
                    text_editor: None,
                    ..before
                })
            }
        },
    }
}

impl App {
    fn choose_file(&mut self, path: &PathBuf)
        ensures
            file_chosen(*old(self), *path, *final(self)),
            old(self).well_formed() ==> final(self).well_formed(),
    {
        self.current_mod_browser_path = paths::parent(path.as_path());
        self.selected_mod_path = Some(path.clone());
    }

    fn begin_import(&mut self, path: PathBuf) -> (r: AssetOpening)
        requires
            old(self).pending_jobs < usize::MAX,
        ensures
            import_begun(*old(self), path, *final(self), r),
            old(self).well_formed() ==> final(self).well_formed(),
    {
        let mut message = "Opening ".to_owned();
        message.append(paths::shown(path.as_path()).as_str());
        message.append("...");
        self.set_status(message);
        if self.pending_import_paths.contains(path.as_path()) {
            return AssetOpening::Waiting;
        }
        self.pending_import_paths.insert(path.clone());
        self.pending_jobs = self.pending_jobs + 1;
        AssetOpening::Import(path)
    }

    /// Opens a file of the mods folder: one that is open is selected, one that is being opened is
    /// waited for, any other is imported.
    pub fn open_mod_asset_path(&mut self, path: PathBuf) -> (r: AssetOpening)
        requires
            old(self).well_formed(),
            old(self).pending_jobs < usize::MAX,
        ensures
            final(self).well_formed(),
            exists|chosen: App| #[trigger]
                file_chosen(*old(self), path, chosen) && file_opened(
                    chosen,
                    path,
                    *final(self),
                    r,
                ),
    {
        self.choose_file(&path);
        let ghost chosen = *self;
        match self.asset_index_for_source_path(path.as_path()) {
            Some(i) => {
                self.show_asset(i);
                let ghost mid = *self;
                let job = self.request_preview_for_selected_texture();
                proof {
                    lemma_file_opened(chosen, path, i as int, mid, *self, job);
                }
                AssetOpening::Selected(job)
            },
            None => self.begin_import(path),
        }
    }

    /// Shows a folder of an archive.
    pub fn browse_archive_path(&mut self, asset_index: usize, path: String)
        ensures
            asset_index >= old(self).assets@.len() ==> *final(self) == *old(self),
            asset_index < old(self).assets@.len() ==> {
                &&& *final(self) == (App {
                    assets: final(self).assets,
                    selected_texture: None,
                    ..*old(self)
                })
                &&& final(self).assets@ == old(self).assets@.update(
                    asset_index as int,
                    ImportedAsset {
                        archive_current_path: Some(path),
                        archive_selected_file: None,
                        archive_file_notice: None,
                        archive_file_loading_path: None,
                        ..old(self).assets@[asset_index as int]
                    },
                )
            },
            old(self).well_formed() ==> final(self).well_formed(),
    {
        if asset_index >= self.assets.len() {
            return ;
        }
        self.assets[asset_index].archive_current_path = Some(path);
        self.assets[asset_index].archive_selected_file = None;
        self.assets[asset_index].archive_file_notice = None;
        self.assets[asset_index].archive_file_loading_path = None;
        self.selected_texture = None;
    }

    /// Shows or hides what lies in a folder of an archive.
    pub fn toggle_archive_path_expanded(&mut self, asset_index: usize, path: &str)
        ensures
            asset_index >= old(self).assets@.len() ==> *final(self) == *old(self),
            asset_index < old(self).assets@.len() ==> {
                let before = old(self).assets@[asset_index as int];
                let after = final(self).assets@[asset_index as int];
                &&& *final(self) == (App { assets: final(self).assets, ..*old(self) })
                &&& final(self).assets@ == old(self).assets@.update(asset_index as int, after)
                &&& after == (ImportedAsset {
                    archive_expanded_paths: after.archive_expanded_paths,
                    ..before
                })
                &&& after.archive_expanded_paths@ == if before.archive_expanded_paths@.contains(
                    path@,
                ) {
                    before.archive_expanded_paths@.remove(path@)
                } else {
                    before.archive_expanded_paths@.insert(path@)
                }
            },
            old(self).well_formed() ==> final(self).well_formed(),
    {
        if asset_index >= self.assets.len() {
            return ;
        }
        let ghost before = self.assets@;
        if self.assets[asset_index].archive_expanded_paths.contains(path) {
            self.assets[asset_index].archive_expanded_paths.remove(path);
        } else {
            self.assets[asset_index].archive_expanded_paths.insert(path.to_owned());
        }
        assert(self.assets@ =~= before.update(asset_index as int, self.assets@[asset_index as int]));
    }

    /// Searches the selected archive for names; tells whether the search changed.
    pub fn set_archive_search_query(&mut self, query: String) -> (r: bool)
        ensures
            r == (old(self).selected_asset matches Some(i) && i < old(self).assets@.len()
                && old(self).assets@[i as int].archive()
                && old(self).assets@[i as int].archive_search_query@ != query@),
            !r ==> *final(self) == *old(self),
            r ==> *final(self) == (App { assets: final(self).assets, ..*old(self) })
                && final(self).assets@ == old(self).assets@.update(
                old(self).selected_asset->0 as int,
                ImportedAsset {
                    archive_search_query: query,
                    ..old(self).assets@[old(self).selected_asset->0 as int]
                },
            ),
            old(self).well_formed() ==> final(self).well_formed(),
    {
        match self.selected_asset {
            Some(i) => {
                if i >= self.assets.len() || !self.assets[i].is_archive() || text::same_text(
                    self.assets[i].archive_search_query.as_str(),
                    query.as_str(),
                ) {
                    return false;
                }
                self.assets[i].archive_search_query = query;
                true
            },
            None => false,
        }
    }

    /// Goes one step up: from a file to its folder, from a folder to the one above, from the root
    /// of an archive back to the mods folder. Tells whether the mods folder is shown then.
    pub fn select_archive_parent(&mut self, root_is_dir: bool) -> (r: bool)
        requires
            old(self).well_formed(),
        ensures
            final(self).well_formed(),
            went_up(*old(self), root_is_dir, *final(self), r),
    {
        let i: usize = match self.selected_asset {
            None => {
                return self.open_mod_browser_parent(root_is_dir);
            },
            Some(i) => i,
        };
        if self.assets[i].archive_selected_file.is_some() {
            let ghost before = self.assets@;
            self.assets[i].archive_selected_file = None;
            self.assets[i].archive_file_notice = None;
            self.assets[i].archive_file_loading_path = None;
            self.selected_texture = None;
            assert(self.assets@ =~= before.update(
                i as int,
                ImportedAsset {
                    archive_selected_file: None,
                    archive_file_notice: None,
                    archive_file_loading_path: None,
                    ..before[i as int]
                },
            ));
            return false;
        }
        let above = match &self.assets[i].archive_current_path {
            Some(path) => self.assets[i].parent_path_for(path.as_str()),
            None => None,
        };
        match above {
            Some(path) => {
                let ghost before = self.assets@;
                self.browse_archive_path(i, path);
                assert(self.assets@ =~= before.update(i as int, self.assets@[i as int]));
                false
            },
            None => {
                let folder = match &self.current_mod_browser_path {
                    Some(path) => path.clone(),
                    None => {
                        return false;
                    },
                };
                self.browse_mod_directory(folder);
                true
            },
        }
    }
}

/// What opening an entry of an archive comes to.
pub enum ArchiveOpening {
    NotFound,
    /// The entry was open; a text that was converted is to be read again from the given file.
    Cached { reread: Option<PathBuf>, preview: Option<PreviewJob> },
    Unsupported,
    Export(OpenEntryJob),
}

/// Whether an entry of an archive was selected, with the given notice, and with its export under
/// way or not; its folder becomes the current one.
pub open spec fn entry_focused(
    before: ImportedAsset,
    after: ImportedAsset,
    path: Seq<char>,
    notice: Option<Seq<char>>,
    loading: Option<Seq<char>>,
) -> bool {
    &&& after == (ImportedAsset {
        archive_selected_file: after.archive_selected_file,
        archive_current_path: after.archive_current_path,
        archive_file_notice: after.archive_file_notice,
        archive_file_loading_path: after.archive_file_loading_path,
        ..before
    })
    &&& opt_text(after.archive_selected_file) == Some(path)
    &&& opt_text(after.archive_current_path) == match before.above(path) {
        Some(parent) => Some(parent),
        None => opt_text(before.archive_current_path),
    }
    &&& opt_text(after.archive_file_notice) == notice
    &&& opt_text(after.archive_file_loading_path) == loading
}

/// The notice on an entry that was opened before.
pub open spec fn cached_notice(entry: ImportedArchiveEntry) -> Option<Seq<char>> {
    match entry.content_kind {
        ArchiveContentKind::TextureAsset => match entry.texture_list() {
            Some(list) if list.len() > 0 => None,
            _ => Some("Not supported."@),
        },
        ArchiveContentKind::XmlText => None,
        ArchiveContentKind::ConvertedXml => None,
        ArchiveContentKind::File => Some(
            "This staged file will be added when you rebuild the package."@,
        ),
        ArchiveContentKind::Folder => Some("Not supported."@),
        ArchiveContentKind::Package => Some("Not supported."@),
    }
}

/// Whether the content of a kind can be exported from an archive.
pub open spec fn exportable(kind: ArchiveContentKind) -> bool {
    kind is TextureAsset || kind is XmlText || kind is ConvertedXml
}

/// Whether an entry of an archive was opened as it should be.
pub open spec fn entry_opened(
    before: App,
    a: int,
    path: Seq<char>,
    after: App,
    r: ArchiveOpening,
) -> bool {
    let asset = before.assets@[a];
    match if 0 <= a < before.assets@.len() {
        asset.node(path)
    } else {
        None
    } {
        None => {
            &&& r is NotFound
            &&& after == (App { status: after.status, ..before })
            &&& after.status@ == "Archive entry could not be found."@
        },
        Some(node) => match asset.entry(path) {
            Some(e) if asset.archive_entries@[e].fits(node.content_kind) => {
                let entry = asset.archive_entries@[e];
                &&& r matches ArchiveOpening::Cached { reread, preview }
                &&& reread == if entry.content_kind is ConvertedXml {
                    entry.staged_file()
                } else {
                    None
                }
                &&& exists|mid: App| #[trigger]
                    entry_shown(before, a, path, mid) && if node.content_kind is TextureAsset {
                        preview_requested(mid, after, preview)
                    } else {
                        after == mid && preview is None
                    }
            },
            _ => if exportable(node.content_kind) {
                &&& r matches ArchiveOpening::Export(job)
                &&& job.asset_id == asset.id
                &&& job.archive_path == asset.source_path
                &&& job.entry_path@ == path
                &&& job.content_kind == node.content_kind
                &&& after == (App {
                    assets: after.assets,
                    selected_texture: None,
                    pending_jobs: (before.pending_jobs + 1) as usize,
                    status: after.status,
                    ..before
                })
                &&& after.status@ == "Opening "@ + node.name + "..."@
                &&& after.assets@ == before.assets@.update(a, after.assets@[a])
                &&& entry_focused(asset, after.assets@[a], path, None, Some(path))
            } else {
                &&& r is Unsupported
                &&& after == (App { assets: after.assets, selected_texture: None, ..before })
                &&& after.assets@ == before.assets@.update(a, after.assets@[a])
                &&& entry_focused(asset, after.assets@[a], path, Some("Not supported."@), None)
            },
        },
    }
}

/// Whether an entry that was open is shown: its first texture is selected where it has any.
pub open spec fn entry_shown(before: App, a: int, path: Seq<char>, after: App) -> bool {
    let asset = before.assets@[a];
    let entry = asset.archive_entries@[asset.entry(path)->0];
    &&& after == (App {
        assets: after.assets,
        selected_texture: if entry.content_kind is TextureAsset && cached_notice(entry) is None {
            Some(0usize)
        } else {
            None
        },
        ..before
    })
    &&& after.assets@ == before.assets@.update(a, after.assets@[a])
    &&& entry_focused(asset, after.assets@[a], path, cached_notice(entry), None)
}

fn notice_on(entry: &ImportedArchiveEntry) -> (r: Option<String>)
    ensures
        opt_text(r) == cached_notice(*entry),
{
    match entry.content_kind {
        ArchiveContentKind::TextureAsset => match entry.textures() {
            Some(list) => if list.len() > 0 {
                None
            } else {
                Some("Not supported.".to_owned())
            },
            None => Some("Not supported.".to_owned()),
        },
        ArchiveContentKind::XmlText => None,
        ArchiveContentKind::ConvertedXml => None,
        ArchiveContentKind::File => Some(
            "This staged file will be added when you rebuild the package.".to_owned(),
        ),
        ArchiveContentKind::Folder => Some("Not supported.".to_owned()),
        ArchiveContentKind::Package => Some("Not supported.".to_owned()),
    }
}

impl ImportedAsset {
    fn focus_entry(&mut self, path: String, notice: Option<String>, loading: Option<String>)
        ensures
            entry_focused(*old(self), *final(self), path@, opt_text(notice), opt_text(loading)),
    {
        if let Some(parent) = self.parent_path_for(path.as_str()) {
            self.archive_current_path = Some(parent);
        }
        self.archive_selected_file = Some(path);
        self.archive_file_notice = notice;
        self.archive_file_loading_path = loading;
    }
}

impl App {
    fn node_at(&self, a: usize, path: &str) -> (r: Option<(String, ArchiveContentKind)>)
        ensures
            match r {
                Some((name, kind)) => a < self.assets@.len() && (self.assets@[a as int].node(
                    path@,
                ) matches Some(node) && node.name == name@ && node.content_kind == kind),
                None => a >= self.assets@.len() || self.assets@[a as int].node(path@) is None,
            },
    {
        if a >= self.assets.len() {
            return None;
        }
        match self.assets[a].find_archive_node(path) {
            Some(node) => {
                proof {
                    reveal_with_fuel(<crate::archive::RpfTreeNode as View>::view, 2);
                }
                Some((node.name.clone(), node.content_kind))
            },
            None => None,
        }
    }

    fn show_entry(&mut self, a: usize, e: usize, path: String)
        requires
            a < old(self).assets@.len(),
            e < old(self).assets@[a as int].archive_entries@.len(),
            old(self).assets@[a as int].entry(path@) == Some(e as int),
        ensures
            entry_shown(*old(self), a as int, path@, *final(self)),
            old(self).well_formed() ==> final(self).well_formed(),
    {
        let entry = &self.assets[a].archive_entries[e];
        let notice = notice_on(entry);
        let is_texture = match entry.content_kind {
            ArchiveContentKind::TextureAsset => true,
            _ => false,
        };
        let ghost before = self.assets@;
        self.selected_texture = if is_texture && notice.is_none() {
            Some(0)
        } else {
            None
        };
        self.assets[a].focus_entry(path, notice, None);
        assert(self.assets@ =~= before.update(a as int, self.assets@[a as int]));
    }

    fn focus(&mut self, a: usize, path: String, notice: Option<String>, loading: Option<String>)
        requires
            a < old(self).assets@.len(),
        ensures
            *final(self) == (App {
                assets: final(self).assets,
                selected_texture: None,
                ..*old(self)
            }),
            final(self).assets@ == old(self).assets@.update(
                a as int,
                final(self).assets@[a as int],
            ),
            entry_focused(
                old(self).assets@[a as int],
                final(self).assets@[a as int],
                path@,
                opt_text(notice),
                opt_text(loading),
            ),
            old(self).well_formed() ==> final(self).well_formed(),
    {
        let ghost before = self.assets@;
        self.selected_texture = None;
        self.assets[a].focus_entry(path, notice, loading);
        assert(self.assets@ =~= before.update(a as int, self.assets@[a as int]));
    }

    fn open_cached_entry(&mut self, a: usize, e: usize, path: String) -> (r: ArchiveOpening)
        requires
            old(self).pending_jobs < usize::MAX,
            a < old(self).assets@.len(),
            e < old(self).assets@[a as int].archive_entries@.len(),
            old(self).assets@[a as int].entry(path@) == Some(e as int),
            old(self).assets@[a as int].node(path@) matches Some(node) && old(
                self,
            ).assets@[a as int].archive_entries@[e as int].fits(node.content_kind),
        ensures
            entry_opened(*old(self), a as int, path@, *final(self), r),
            old(self).well_formed() ==> final(self).well_formed(),
    {
        let entry = &self.assets[a].archive_entries[e];
        let content_kind = entry.content_kind;
        let reread = match content_kind {
            ArchiveContentKind::ConvertedXml => match entry.text_source_path() {
                Some(file) => Some(file.clone()),
                None => None,
            },
            _ => None,
        };
        let ghost name = path@;
        self.show_entry(a, e, path);
        let ghost mid = *self;
        assert(entry_shown(*old(self), a as int, name, mid));
        let preview = match content_kind {
            ArchiveContentKind::TextureAsset => self.request_preview_for_selected_texture(),
            _ => None,
        };
        ArchiveOpening::Cached { reread, preview }
    }

    fn export_entry(&mut self, a: usize, path: String, name: String, kind: ArchiveContentKind) -> (r:
        OpenEntryJob)
        requires
            old(self).pending_jobs < usize::MAX,
            a < old(self).assets@.len(),
        ensures
            r.asset_id == old(self).assets@[a as int].id,
            r.archive_path == old(self).assets@[a as int].source_path,
            r.entry_path == path,
            r.content_kind == kind,
            *final(self) == (App {
                assets: final(self).assets,
                selected_texture: None,
                pending_jobs: (old(self).pending_jobs + 1) as usize,
                status: final(self).status,
                ..*old(self)
            }),
            final(self).status@ == "Opening "@ + name@ + "..."@,
            final(self).assets@ == old(self).assets@.update(
                a as int,
                final(self).assets@[a as int],
            ),
            entry_focused(
                old(self).assets@[a as int],
                final(self).assets@[a as int],
                path@,
                None,
                Some(path@),
            ),
            old(self).well_formed() ==> final(self).well_formed(),
    {
        let job = OpenEntryJob {
            asset_id: self.assets[a].id.clone(),
            archive_path: self.assets[a].source_path.clone(),
            entry_path: path.clone(),
            content_kind: kind,
        };
        let loading = path.clone();
        self.focus(a, path, None, Some(loading));
        self.pending_jobs = self.pending_jobs + 1;
        let mut message = "Opening ".to_owned();
        message.append(name.as_str());
        message.append("...");
        self.set_status(message);
        job
    }

    /// Opens an entry of an archive: one that is open is shown, another is exported where its
    /// content can be.
    pub fn open_archive_file(&mut self, asset_index: usize, entry_path: String) -> (r:
        ArchiveOpening)
        requires
            old(self).pending_jobs < usize::MAX,
        ensures
            entry_opened(*old(self), asset_index as int, entry_path@, *final(self), r),
            old(self).well_formed() ==> final(self).well_formed(),
    {
        let a: usize = asset_index;
        let (name, content_kind) = match self.node_at(a, entry_path.as_str()) {
            Some((name, kind)) => (name, kind),
            None => {
                self.set_status("Archive entry could not be found.".to_owned());
                return ArchiveOpening::NotFound;
            },
        };
        if let Some(e) = self.assets[a].entry_position(entry_path.as_str()) {
            if self.assets[a].archive_entries[e].matches_node_content(content_kind) {
                return self.open_cached_entry(a, e, entry_path);
            }
        }
        match content_kind {
            ArchiveContentKind::TextureAsset => ArchiveOpening::Export(
                self.export_entry(a, entry_path, name, content_kind),
            ),
            ArchiveContentKind::XmlText => ArchiveOpening::Export(
                self.export_entry(a, entry_path, name, content_kind),
            ),
            ArchiveContentKind::ConvertedXml => ArchiveOpening::Export(
                self.export_entry(a, entry_path, name, content_kind),
            ),
            _ => {
                self.focus(a, entry_path, Some("Not supported.".to_owned()), None);
                ArchiveOpening::Unsupported
            },
        }
    }

    /// Takes in the text of a converted entry that was read again.
    pub fn refresh_converted_text(&mut self, asset_index: usize, entry_path: &str, resolved: String)
        ensures
            ({
                let a = asset_index as int;
                let e = if a < old(self).assets@.len() {
                    old(self).assets@[a].entry(entry_path@)
                } else {
                    None
                };
                match e {
                    Some(i) if old(self).assets@[a].archive_entries@[i].data is XmlText => {
                        let asset = old(self).assets@[a];
                        let entry = asset.archive_entries@[i];
                        let after = final(self).assets@[a];
                        let new_entry = after.archive_entries@[i];
                        &&& *final(self) == (App { assets: final(self).assets, ..*old(self) })
                        &&& final(self).assets@ == old(self).assets@.update(a, after)
                        &&& after == (ImportedAsset {
                            archive_entries: after.archive_entries,
                            ..asset
                        })
                        &&& after.archive_entries@ == asset.archive_entries@.update(i, new_entry)
                        &&& new_entry == (ImportedArchiveEntry { data: new_entry.data, ..entry })
                        &&& entry.data matches ImportedArchiveEntryData::XmlText {
                            source_path,
                            source_kind,
                            ..
                        }
                        &&& new_entry.data == (ImportedArchiveEntryData::XmlText {
                            source_path,
                            original_text: resolved,
                            source_kind,
                        })
                    },
                    _ => *final(self) == *old(self),
                }
            }),
            old(self).well_formed() ==> final(self).well_formed(),
    {
        let a: usize = asset_index;
        if a >= self.assets.len() {
            return ;
        }
        let e: usize = match self.assets[a].entry_position(entry_path) {
            Some(e) => e,
            None => {
                return ;
            },
        };
        let is_text = match &self.assets[a].archive_entries[e].data {
            ImportedArchiveEntryData::XmlText { .. } => true,
            _ => false,
        };
        if !is_text {
            return ;
        }
        let ghost assets = self.assets@;
        let ghost entries = self.assets@[a as int].archive_entries@;
        self.assets[a].archive_entries[e].set_original_text(resolved);
        assert(self.assets@[a as int].archive_entries@ =~= entries.update(
            e as int,
            self.assets@[a as int].archive_entries@[e as int],
        ));
        assert(self.assets@ =~= assets.update(a as int, self.assets@[a as int]));
    }
}

/// Whatever happens to a texture, it stays the same texture: its name, files, size, mip levels, format
/// and usage never change. Only writing it marks it as changed, and only saving it takes that mark away;
/// a texture that was written has no picture until it is loaded again.
pub proof fn a_texture_stays_itself(texture: TextureEntry, change: TextureChange)
    ensures
        ({
            let after = changed(texture, change);
            &&& after.name == texture.name && after.file_name == texture.file_name
            &&& after.width == texture.width && after.height == texture.height
            &&& after.mips == texture.mips && after.format == texture.format
            &&& after.usage == texture.usage && after.dds_path == texture.dds_path
            &&& after.preview_png_path == texture.preview_png_path
            &&& change is Applied ==> after.modified && after.preview_texture is None
                && !after.preview_loading
            &&& change is Saved ==> !after.modified && after.preview_texture
                == texture.preview_texture && after.preview_loading == texture.preview_loading
            &&& !(change is Applied) && !(change is Saved) ==> after.modified == texture.modified
            &&& change matches TextureChange::PreviewLoaded(picture) ==> after.preview_texture
                == Some(picture) && !after.preview_loading
            &&& change is Loading ==> after.preview_loading && after.preview_texture
                == texture.preview_texture
            &&& change is PreviewFailed ==> !after.preview_loading && after.preview_texture
                == texture.preview_texture
        }),
{
}

pub proof fn lemma_asset_bounds(assets: Seq<ImportedAsset>, class: Seq<Seq<u8>>, id: Seq<char>)
    ensures
        asset_at(assets, class) matches Some(i) ==> 0 <= i < assets.len() && path_class(
            assets[i].source_path.bytes(),
        ) == class,
        asset_named(assets, id) matches Some(i) ==> 0 <= i < assets.len() && assets[i].id@ == id,
    decreases assets.len(),
{
    if assets.len() > 0 {
        lemma_asset_bounds(assets.drop_last(), class, id);
    }
}

/// An asset is found by its file and by its identifier: the first that has it, and none only where there
/// is none.
pub proof fn assets_are_found(assets: Seq<ImportedAsset>, i: int)
    requires
        0 <= i < assets.len(),
    ensures
        asset_at(assets, path_class(assets[i].source_path.bytes())) matches Some(at) && 0 <= at <= i
            && path_class(assets[at].source_path.bytes()) == path_class(
            assets[i].source_path.bytes(),
        ),
        asset_named(assets, assets[i].id@) matches Some(at) && 0 <= at <= i && assets[at].id@
            == assets[i].id@,
    decreases assets.len(),
{
    let front = assets.drop_last();
    let class = path_class(assets[i].source_path.bytes());
    lemma_asset_bounds(front, class, assets[i].id@);
    if i < front.len() {
        assert(front[i] == assets[i]);
        assets_are_found(front, i);
    }
}

/// The texture that is worked on is the selected one of the selected asset, in the selected entry of an
/// archive where it is one, and it is there. What can be edited is a text, or a texture in a format that
/// can be written.
pub proof fn the_selected_texture_is_there(app: App)
    ensures
        app.current_slot() matches Some((a, e, t)) ==> {
            &&& app.selected_asset == Some(a as usize) && app.selected_texture == Some(t as usize)
            &&& 0 <= a < app.assets@.len()
            &&& e is Some ==> app.assets@[a].kind is Rpf && (
            app.assets@[a].archive_selected_file matches Some(path) && e == app.assets@[a].entry(
                path@,
            ))
            &&& e is None ==> t < app.assets@[a].textures@.len()
            &&& e matches Some(n) ==> (app.assets@[a].archive_entries@[n].data matches
                ImportedArchiveEntryData::TextureAsset { textures, .. } && t < textures@.len())
        },
        app.selected_asset is None || app.selected_texture is None ==> app.current_slot() is None,
        app.selected_asset is None ==> !app.editable(),
        app.current_slot() matches Some((a, e, t)) ==> (texture_in(
            app.assets@[a],
            e,
            t,
        ).format@.writable() ==> app.editable()),
        app.current_text() is Some ==> app.editable(),
{
}

proof fn lemma_entry_same(
    before: Seq<ImportedArchiveEntry>,
    after: Seq<ImportedArchiveEntry>,
    path: Seq<char>,
)
    requires
        before.len() == after.len(),
        forall|i: int|
            0 <= i < before.len() ==> (#[trigger] before[i]).entry_path == after[i].entry_path,
    ensures
        entry_at(before, path) == entry_at(after, path),
    decreases before.len(),
{
    if before.len() > 0 {
        let a = before.drop_last();
        let b = after.drop_last();
        assert forall|i: int| 0 <= i < a.len() implies (#[trigger] a[i]).entry_path
            == b[i].entry_path by {
            assert(a[i] == before[i] && b[i] == after[i]);
        }
        lemma_entry_same(a, b, path);
        assert(before.last() == before[before.len() - 1] && after.last() == after[after.len() - 1]);
        assert(before[before.len() - 1].entry_path == after[before.len() - 1].entry_path);
    }
}

/// A preview is made for the selected texture where it has none and none is on the way, and then for
/// the files of that texture; it is asked for only once.
pub proof fn a_preview_is_asked_for_once(
    before: App,
    mid: App,
    after: App,
    first: Option<PreviewJob>,
    second: Option<PreviewJob>,
)
    requires
        preview_requested(before, mid, first),
        preview_requested(mid, after, second),
    ensures
        second is None,
        after == mid,
        first is Some <==> (before.current_slot() matches Some((a, e, t)) && !texture_in(
            before.assets@[a],
            e,
            t,
        ).preview_loading && texture_in(before.assets@[a], e, t).preview_texture is None),
        first matches Some(job) ==> (before.current_slot() matches Some((a, e, t)) && job.dds_path
            == texture_in(before.assets@[a], e, t).dds_path && job.preview_png_path == texture_in(
            before.assets@[a],
            e,
            t,
        ).preview_png_path && job.asset_id == before.assets@[a].id && job.texture_index == t),
{
    if first is Some {
        let (a, e, t) = before.current_slot()->0;
        let old_asset = before.assets@[a];
        let new_asset = mid.assets@[a];
        assert(mid.assets@ == before.assets@.update(a, new_asset));
        assert(mid.assets@.len() == before.assets@.len());
        if let Some(n) = e {
            assert forall|i: int| 0 <= i < old_asset.archive_entries@.len() implies (
            #[trigger] old_asset.archive_entries@[i]).entry_path
                == new_asset.archive_entries@[i].entry_path by {}
            let path = old_asset.archive_selected_file->0;
            lemma_entry_same(old_asset.archive_entries@, new_asset.archive_entries@, path@);
        } else {
            if old_asset.archive_selected_file is Some {
                assert(new_asset.archive_entries == old_asset.archive_entries);
            }
        }
        assert(mid.active_entry(a) == before.active_entry(a));
        assert(mid.current_slot() == Some((a, e, t)));
        assert(texture_in(new_asset, e, t).preview_loading);
    }
}

/// An asset that is selected is the one that was asked for, with its first texture where it has one of
/// its own; the other assets stay as they are.
pub proof fn a_selected_asset_shows_its_first_texture(before: App, i: int, after: App, k: int)
    requires
        0 <= i < before.assets@.len(),
        i <= usize::MAX,
        asset_selected(before, i, after),
    ensures
        after.selected_asset == Some(i as usize),
        after.selected_mod_path == Some(before.assets@[i].source_path),
        after.selected_texture is Some <==> !(before.assets@[i].kind is Rpf)
            && before.assets@[i].textures@.len() > 0,
        after.selected_texture matches Some(t) ==> t == 0,
        0 <= k < before.assets@.len() && k != i ==> after.assets@[k] == before.assets@[k],
        after.assets@[i].textures == before.assets@[i].textures,
        after.assets@[i].archive_entries == before.assets@[i].archive_entries,
        after.assets@[i].dirty == before.assets@[i].dirty,
        before.assets@[i].kind is Rpf ==> after.assets@[i].archive_selected_file is None,
        after.config == before.config && after.pending_jobs == before.pending_jobs,
{
}

/// What can be exported from an archive is what opens: textures and texts. Anything else is told as not
/// supported.
pub proof fn what_can_be_exported_opens(
    r: crate::drafts::OpenPlan,
    imports: Seq<u8>,
    archive: Seq<u8>,
    entry: Seq<char>,
    kind: ArchiveContentKind,
    millis: u64,
)
    requires
        crate::drafts::open_planned(r, imports, archive, entry, kind, millis),
    ensures
        exportable(kind) <==> !(r is Unsupported),
        kind is TextureAsset <==> r is Textures,
        r matches crate::drafts::OpenPlan::Text { kind: source, .. } ==> (source is RawText
            <==> kind is XmlText) && (source is YmtXml <==> kind is ConvertedXml),
{
}

/// A file that is not open is imported once: while it is waited for, asking again starts no second job.
/// A file that is open is selected at once.
pub proof fn a_file_is_imported_once(
    before: App,
    path: PathBuf,
    mid: App,
    first: AssetOpening,
    after: App,
    second: AssetOpening,
)
    requires
        import_begun(before, path, mid, first),
        import_begun(mid, path, after, second),
    ensures
        second is Waiting,
        after.pending_jobs == mid.pending_jobs,
        mid.pending_import_paths@.contains(path_class(path.bytes())),
        first is Waiting <==> before.pending_import_paths@.contains(path_class(path.bytes())),
        first is Import ==> mid.pending_jobs == (before.pending_jobs + 1) as usize,
        first matches AssetOpening::Import(file) ==> file == path,
        mid.assets == before.assets && mid.selected_asset == before.selected_asset,
{
}

/// A file is imported exactly when no open asset comes from it; else its asset is selected.
pub proof fn an_open_file_is_not_imported(chosen: App, path: PathBuf, after: App, r: AssetOpening)
    requires
        file_opened(chosen, path, after, r),
    ensures
        r is Selected <==> exists|i: int|
            0 <= i < chosen.assets@.len() && path_class(
                (#[trigger] chosen.assets@[i]).source_path.bytes(),
            ) == path_class(path.bytes()),
        r is Selected ==> after.pending_import_paths == chosen.pending_import_paths,
        !(r is Selected) ==> after.assets == chosen.assets,
{
    let class = path_class(path.bytes());
    lemma_asset_bounds(chosen.assets@, class, Seq::empty());
    if exists|i: int|
        0 <= i < chosen.assets@.len() && path_class(
            (#[trigger] chosen.assets@[i]).source_path.bytes(),
        ) == class {
        let i = choose|i: int|
            0 <= i < chosen.assets@.len() && path_class(
                (#[trigger] chosen.assets@[i]).source_path.bytes(),
            ) == class;
        assets_are_found(chosen.assets@, i);
    }
    if r is Selected {
        let i = asset_at(chosen.assets@, class)->0;
        assert(path_class(chosen.assets@[i].source_path.bytes()) == class);
    }
}

/// An entry of an archive that is opened becomes the selected file of that archive, with its folder as the
/// current one; other assets stay as they are. What is exported is that entry of that archive, and only
/// what can be exported and was not opened before.
pub proof fn an_opened_entry_is_selected(
    before: App,
    a: int,
    path: Seq<char>,
    after: App,
    r: ArchiveOpening,
    k: int,
)
    requires
        0 <= a < before.assets@.len(),
        entry_opened(before, a, path, after, r),
    ensures
        r is NotFound <==> before.assets@[a].node(path) is None,
        r is NotFound ==> after.assets == before.assets,
        !(r is NotFound) ==> opt_text(after.assets@[a].archive_selected_file) == Some(path),
        !(r is NotFound) && before.assets@[a].above(path) is Some ==> opt_text(
            after.assets@[a].archive_current_path,
        ) == before.assets@[a].above(path),
        0 <= k < before.assets@.len() && k != a && before.selected_asset == Some(a as usize)
            ==> after.assets@[k] == before.assets@[k],
        r matches ArchiveOpening::Export(job) ==> {
            let node = before.assets@[a].node(path)->0;
            &&& exportable(node.content_kind)
            &&& job.content_kind == node.content_kind && job.entry_path@ == path
            &&& job.archive_path == before.assets@[a].source_path
            &&& job.asset_id == before.assets@[a].id
            &&& opt_text(after.assets@[a].archive_file_loading_path) == Some(path)
            &&& after.assets@[a].archive_file_notice is None
            &&& after.selected_texture is None
        },
        r is Unsupported ==> opt_text(after.assets@[a].archive_file_notice) == Some(
            "Not supported."@,
        ) && after.assets@[a].archive_file_loading_path is None && after.pending_jobs
            == before.pending_jobs,
        r matches ArchiveOpening::Cached { reread, .. } ==> before.assets@[a].entry(path) is Some
            && after.assets@[a].archive_file_loading_path is None && (reread matches Some(file)
            ==> before.assets@[a].archive_entries@[before.assets@[a].entry(path)->0].staged_file()
            == Some(file)),
        after.assets@[a].dirty == before.assets@[a].dirty,
        after.assets@[a].textures@.len() == before.assets@[a].textures@.len(),
        after.assets@[a].archive_entries@.len() == before.assets@[a].archive_entries@.len(),
{
    assert(before.assets.len() == before.assets@.len());
    if r is Cached {
        let node = before.assets@[a].node(path)->0;
        let preview = r->preview;
        let mid = choose|mid: App| #[trigger]
            entry_shown(before, a, path, mid) && if node.content_kind is TextureAsset {
                preview_requested(mid, after, preview)
            } else {
                after == mid && preview is None
            };
        assert(mid.assets@[a].archive_entries == before.assets@[a].archive_entries);
        if node.content_kind is TextureAsset && mid.current_slot() is Some {
            let (x, e, t) = mid.current_slot()->0;
            assert(0 <= x < mid.assets@.len());
            assert(mid.selected_asset == Some(x as usize));
            assert(mid.assets@.len() == before.assets@.len());
        }
    }
}

/// An entry that holds textures or a text is shown without a notice; one that is only staged is told as
/// such, and anything else, textures that are missing included, is told as not supported.
pub proof fn only_what_cannot_be_shown_has_a_notice(entry: ImportedArchiveEntry)
    ensures
        entry.shown_as_text() ==> cached_notice(entry) is None,
        cached_notice(entry) is None && entry.content_kind is TextureAsset <==> (
        entry.content_kind is TextureAsset && entry.texture_list() is Some
            && entry.texture_list()->0.len() > 0),
        cached_notice(entry) is None ==> exportable(entry.content_kind),
        cached_notice(entry) == Some("Not supported."@) <==> (entry.content_kind is TextureAsset && (
        entry.texture_list() is None || entry.texture_list()->0.len() == 0))
            || entry.content_kind is Folder || entry.content_kind is Package,
{
    reveal_strlit("Not supported.");
    reveal_strlit("This staged file will be added when you rebuild the package.");
    assert("Not supported."@[0] != "This staged file will be added when you rebuild the package."@[0]);
}

/// Going up leaves one thing at a time: the selected file of an archive, else its current folder, else the
/// archive itself. What was edited, the settings and the jobs under way stay as they are.
pub proof fn going_up_leaves_one_thing(before: App, root_is_dir: bool, after: App, r: bool, k: int)
    requires
        before.selected_asset matches Some(i) ==> i < before.assets@.len(),
        went_up(before, root_is_dir, after, r),
    ensures
        before.selected_asset matches Some(i) ==> {
            let asset = before.assets@[i as int];
            &&& asset.archive_selected_file is Some ==> !r && after.selected_asset
                == before.selected_asset && after.assets@[i as int].archive_selected_file is None
                && after.assets@[i as int].archive_current_path == asset.archive_current_path
            &&& asset.archive_selected_file is None && asset.archive_current_path is Some
                && asset.above(asset.archive_current_path->0@) is Some ==> !r
                && after.selected_asset == before.selected_asset && opt_text(
                after.assets@[i as int].archive_current_path,
            ) == asset.above(asset.archive_current_path->0@)
            &&& r ==> after.selected_asset is None && after.selected_mod_path
                == before.current_mod_browser_path && after.current_mod_browser_path
                == before.current_mod_browser_path && after.assets == before.assets
        },
        before.selected_asset is None ==> {
            &&& r <==> before.browser_parent(root_is_dir) is Some
            &&& r ==> opt_bytes(after.current_mod_browser_path) == before.browser_parent(root_is_dir)
            &&& after.assets == before.assets
        },
        after == before || after.selected_texture is None,
        after.config == before.config && after.pending_jobs == before.pending_jobs,
        0 <= k < before.assets@.len() ==> after.assets@[k].textures == before.assets@[k].textures
            && after.assets@[k].archive_entries == before.assets@[k].archive_entries
            && after.assets@[k].dirty == before.assets@[k].dirty,
{
}

/// Going up from an entry that was opened leads back to the folder that holds it.
pub proof fn going_up_undoes_opening(
    before: App,
    a: int,
    path: Seq<char>,
    mid: App,
    opening: ArchiveOpening,
    root_is_dir: bool,
    after: App,
    r: bool,
)
    requires
        0 <= a < before.assets@.len(),
        before.selected_asset == Some(a as usize),
        entry_opened(before, a, path, mid, opening),
        !(opening is NotFound),
        before.assets@[a].above(path) is Some,
        went_up(mid, root_is_dir, after, r),
    ensures
        !r,
        after.selected_asset == before.selected_asset && after.selected_texture is None,
        after.assets@[a].archive_selected_file is None,
        opt_text(after.assets@[a].archive_current_path) == before.assets@[a].above(path),
{
    assert(before.assets.len() == before.assets@.len());
    an_opened_entry_is_selected(before, a, path, mid, opening, a);
    if opening is Cached {
        let node = before.assets@[a].node(path)->0;
        let preview = opening->preview;
        let shown = choose|shown: App| #[trigger]
            entry_shown(before, a, path, shown) && if node.content_kind is TextureAsset {
                preview_requested(shown, mid, preview)
            } else {
                mid == shown && preview is None
            };
        assert(mid.selected_asset == before.selected_asset);
        assert(mid.assets@.len() == before.assets@.len());
    }
    assert(mid.assets@[a].archive_selected_file is Some);
}

/// Whatever is selected and was opened is what the user works on: the selected file of the selected
/// archive, and of it, or of an asset that is no archive, the selected texture.
pub proof fn what_is_selected_is_worked_on(app: App, a: usize, t: usize)
    requires
        app.selected_asset == Some(a),
        a < app.assets@.len(),
    ensures
        ({
            let asset = app.assets@[a as int];
            &&& asset.kind is Rpf ==> (asset.archive_selected_file matches Some(path) ==> (
            asset.entry(path@) matches Some(e) ==> {
                let entry = asset.archive_entries@[e];
                &&& app.current_entry() == Some((a as int, e))
                &&& entry.shown_as_text() ==> app.current_text() == Some((a as int, e))
                    && app.editable()
                &&& !entry.shown_as_text() ==> app.current_text() is None
                &&& app.selected_texture == Some(t) && entry.texture_list() is Some && t
                    < entry.texture_list()->0.len() ==> app.current_slot() == Some(
                    (a as int, Some(e), t as int),
                )
            }))
            &&& !(asset.kind is Rpf) ==> app.current_entry() is None && app.current_text() is None
            &&& !(asset.kind is Rpf) && app.selected_texture == Some(t) && t < asset.textures@.len()
                ==> app.current_slot() == Some((a as int, None::<int>, t as int)) && (
            app.editable() <==> asset.textures@[t as int].format@.writable())
        }),
{
    let asset = app.assets@[a as int];
    if asset.kind is Rpf && asset.archive_selected_file is Some {
        let path = asset.archive_selected_file->0;
        if asset.entry(path@) is Some {
            lemma_entry_bounds(asset.archive_entries@, path@);
        }
    }
}

/// An archive that is selected shows the folder in which it was left, and its root at first; the browser
/// goes to the folder that holds the file.
pub proof fn an_archive_is_shown_where_it_was_left(before: App, i: int, after: App)
    requires
        0 <= i < before.assets@.len(),
        asset_selected(before, i, after),
    ensures
        opt_bytes(after.current_mod_browser_path) == parent_bytes(
            before.assets@[i].source_path.bytes(),
        ),
        before.assets@[i].kind is Rpf ==> {
            let was = before.assets@[i];
            let asset = after.assets@[i];
            &&& was.archive_current_path is Some ==> opt_text(asset.archive_current_path)
                == opt_text(was.archive_current_path)
            &&& was.archive_current_path is None ==> opt_text(asset.archive_current_path)
                == was.root()
            &&& asset.archive_file_notice is None && asset.archive_file_loading_path is None
        },
        !(before.assets@[i].kind is Rpf) ==> after.assets@[i] == before.assets@[i],
{
}

/// A converted text that was opened before is read again from the file in which it is staged; nothing else
/// is.
pub proof fn only_converted_texts_are_read_again(
    before: App,
    a: int,
    path: Seq<char>,
    after: App,
    reread: Option<PathBuf>,
    preview: Option<PreviewJob>,
)
    requires
        0 <= a < before.assets@.len(),
        entry_opened(before, a, path, after, ArchiveOpening::Cached { reread, preview }),
    ensures
        ({
            let entry = before.assets@[a].archive_entries@[before.assets@[a].entry(path)->0];
            &&& entry.content_kind is ConvertedXml ==> reread is Some && reread
                == entry.staged_file()
            &&& !(entry.content_kind is ConvertedXml) ==> reread is None
            &&& !(entry.content_kind is TextureAsset) ==> preview is None
        }),
{
}

}
