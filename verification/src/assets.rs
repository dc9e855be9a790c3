//! Opened assets: their textures, and the entries of an archive with their staged changes.

use crate::archive::{
    an_entry_lies_in_its_folder, archive_parent_path_from_entry_path, every_node_has_a_parent,
    folder_of, has_child, the_parent_has_the_child, ArchiveContentKind, ArchiveTextSourceKind,
    RpfTreeNode, Tree,
};
use crate::order::{
    is_stable_order, keys_of, numbers, sorted_order, stable_order, the_order_is_stable, Key,
    SortKey,
};
use crate::paths::{self, extension_text, title_of, PathBytes};
use crate::text::{self, count_of, lower, opt_text};
use crate::textures::{AssetKind, TextureEntry, TextureEntryDraft};
use std::path::PathBuf;
use vstd::hash_set::StringHashSet;
use vstd::prelude::*;

verus! {

/// What was imported of an entry of an archive.
pub enum ImportedArchiveEntryData {
    TextureAsset { xml_path: PathBuf, textures: Vec<TextureEntry> },
    XmlText { source_path: PathBuf, original_text: String, source_kind: ArchiveTextSourceKind },
    StagedRaw { source_path: PathBuf },
}

/// An entry of an archive that was opened or is to be added.
pub struct ImportedArchiveEntry {
    pub entry_path: String,
    pub title: String,
    pub content_kind: ArchiveContentKind,
    pub data: ImportedArchiveEntryData,
    pub dirty: bool,
    pub added: bool,
}

impl ImportedArchiveEntry {
    /// The textures of the entry.
    pub open spec fn texture_list(self) -> Option<Seq<TextureEntry>> {
        match self.data {
            ImportedArchiveEntryData::TextureAsset { textures, .. } => Some(textures@),
            _ => None,
        }
    }

    /// The file in which the content of the entry is staged.
    pub open spec fn staged_file(self) -> Option<PathBuf> {
        match self.data {
            ImportedArchiveEntryData::XmlText { source_path, .. } => Some(source_path),
            ImportedArchiveEntryData::StagedRaw { source_path } => Some(source_path),
            ImportedArchiveEntryData::TextureAsset { .. } => None,
        }
    }

    /// The text of the entry as it is in the archive.
    pub open spec fn text_before(self) -> Option<String> {
        match self.data {
            ImportedArchiveEntryData::XmlText { original_text, .. } => Some(original_text),
            _ => None,
        }
    }

    /// Whether the entry is shown as text.
    pub open spec fn shown_as_text(self) -> bool {
        self.content_kind is XmlText || self.content_kind is ConvertedXml
    }

    /// Whether the entry still is what a node of the archive holds.
    pub open spec fn fits(self, content_kind: ArchiveContentKind) -> bool {
        self.content_kind == content_kind && (content_kind is ConvertedXml ==> (
        self.staged_file() matches Some(path) && extension_text(path.bytes()) matches Some(
            extension,
        ) && lower(extension) == lower("xml"@)))
    }

    pub fn textures(&self) -> (r: Option<&Vec<TextureEntry>>)
        ensures
            match r {
                Some(textures) => self.texture_list() == Some(textures@),
                None => self.texture_list() is None,
            },
    {
        match &self.data {
            ImportedArchiveEntryData::TextureAsset { textures, .. } => Some(textures),
            ImportedArchiveEntryData::XmlText { .. } => None,
            ImportedArchiveEntryData::StagedRaw { .. } => None,
        }
    }

    pub fn text_source_path(&self) -> (r: Option<&PathBuf>)
        ensures
            match r {
                Some(path) => self.staged_file() == Some(*path),
                None => self.staged_file() is None,
            },
    {
        match &self.data {
            ImportedArchiveEntryData::XmlText { source_path, .. } => Some(source_path),
            ImportedArchiveEntryData::StagedRaw { source_path } => Some(source_path),
            ImportedArchiveEntryData::TextureAsset { .. } => None,
        }
    }

    pub fn original_text(&self) -> (r: Option<&String>)
        ensures
            match r {
                Some(original) => self.text_before() == Some(*original),
                None => self.text_before() is None,
            },
    {
        match &self.data {
            ImportedArchiveEntryData::XmlText { original_text, .. } => Some(original_text),
            ImportedArchiveEntryData::TextureAsset { .. } => None,
            ImportedArchiveEntryData::StagedRaw { .. } => None,
        }
    }

    pub fn is_xml_text(&self) -> (r: bool)
        ensures
            r == self.shown_as_text(),
    {
        match self.content_kind {
            ArchiveContentKind::XmlText => true,
            ArchiveContentKind::ConvertedXml => true,
            _ => false,
        }
    }

    pub fn matches_node_content(&self, content_kind: ArchiveContentKind) -> (r: bool)
        ensures
            r == self.fits(content_kind),
    {
        if self.content_kind != content_kind {
            return false;
        }
        match content_kind {
            ArchiveContentKind::ConvertedXml => match self.text_source_path() {
                Some(path) => match paths::extension(path.as_path()) {
                    Some(extension) => text::same_ignoring_case(extension.as_str(), "xml"),
                    None => false,
                },
                None => false,
            },
            _ => true,
        }
    }
}

/// A folder that is to be added to an archive.
pub struct PendingArchiveFolder {
    pub path: String,
    pub name: String,
}

/// A texture asset that was exported from an archive.
pub struct ImportedArchiveEntryDraft {
    pub entry_path: String,
    pub title: String,
    pub xml_path: PathBuf,
    pub textures: Vec<TextureEntryDraft>,
}

/// A text that was exported from an archive.
pub struct ImportedArchiveTextDraft {
    pub entry_path: String,
    pub title: String,
    pub source_path: PathBuf,
    pub original_text: String,
    pub source_kind: ArchiveTextSourceKind,
}

/// What opening an entry of an archive gave.
pub enum ArchiveEntryOpenOutcome {
    TextureAsset(ImportedArchiveEntryDraft),
    XmlText(ImportedArchiveTextDraft),
    Unsupported(String),
}

/// An asset that was imported.
pub struct ImportedAssetDraft {
    pub id: String,
    pub source_path: PathBuf,
    pub kind: AssetKind,
    pub folder_id: u64,
    pub xml_path: Option<PathBuf>,
    pub textures: Vec<TextureEntryDraft>,
    pub archive_tree: Option<RpfTreeNode>,
}

/// One change of an archive.
pub enum RpfBuildAction {
    ReplaceAssetXml { entry_path: String, source_path: PathBuf },
    ReplaceRawFile { entry_path: String, source_path: PathBuf },
    ReplaceYmtXml { entry_path: String, source_path: PathBuf },
    AddFolder { parent_path: String, name: String },
    AddRawFile { parent_path: String, name: String, source_path: PathBuf },
}

/// What a change of an archive holds.
pub enum BuildStep {
    ReplaceAssetXml { entry_path: Seq<char>, source: Seq<u8> },
    ReplaceRawFile { entry_path: Seq<char>, source: Seq<u8> },
    ReplaceYmtXml { entry_path: Seq<char>, source: Seq<u8> },
    AddFolder { parent_path: Seq<char>, name: Seq<char> },
    AddRawFile { parent_path: Seq<char>, name: Seq<char>, source: Seq<u8> },
}

impl View for RpfBuildAction {
    type V = BuildStep;

    open spec fn view(&self) -> BuildStep {
        match *self {
            RpfBuildAction::ReplaceAssetXml { entry_path, source_path } => {
                BuildStep::ReplaceAssetXml { entry_path: entry_path@, source: source_path.bytes() }
            },
            RpfBuildAction::ReplaceRawFile { entry_path, source_path } => {
                BuildStep::ReplaceRawFile { entry_path: entry_path@, source: source_path.bytes() }
            },
            RpfBuildAction::ReplaceYmtXml { entry_path, source_path } => {
                BuildStep::ReplaceYmtXml { entry_path: entry_path@, source: source_path.bytes() }
            },
            RpfBuildAction::AddFolder { parent_path, name } => {
                BuildStep::AddFolder { parent_path: parent_path@, name: name@ }
            },
            RpfBuildAction::AddRawFile { parent_path, name, source_path } => {
                BuildStep::AddRawFile {
                    parent_path: parent_path@,
                    name: name@,
                    source: source_path.bytes(),
                }
            },
        }
    }
}

/// What the changes of a list hold.
pub open spec fn build_steps(list: Seq<RpfBuildAction>) -> Seq<BuildStep> {
    Seq::new(list.len(), |i: int| list[i]@)
}

/// The keys by which folders are added: how deep they lie.
pub open spec fn folder_keys(folders: Seq<PendingArchiveFolder>) -> Seq<Key> {
    Seq::new(
        folders.len(),
        |i: int| Key { rank: count_of(folders[i].path@, '\\') as int, text: Seq::empty() },
    )
}

/// The changes for the first `k` folders of an order.
pub open spec fn folder_steps(
    folders: Seq<PendingArchiveFolder>,
    order: Seq<int>,
    k: int,
) -> Seq<BuildStep>
    decreases k,
{
    if k <= 0 {
        Seq::empty()
    } else {
        let before = folder_steps(folders, order, k - 1);
        let folder = folders[order[k - 1]];
        match folder_of(folder.path@) {
            Some(parent) => before.push(
                BuildStep::AddFolder { parent_path: parent, name: folder.name@ },
            ),
            None => before,
        }
    }
}

/// The change for an entry: none where it is not dirty.
pub open spec fn entry_step(entry: ImportedArchiveEntry) -> Option<BuildStep> {
    if !entry.dirty {
        None
    } else if entry.added {
        match (entry.staged_file(), folder_of(entry.entry_path@)) {
            (Some(source), Some(parent)) => Some(
                BuildStep::AddRawFile {
                    parent_path: parent,
                    name: entry.title@,
                    source: source.bytes(),
                },
            ),
            _ => None,
        }
    } else {
        match entry.data {
            ImportedArchiveEntryData::TextureAsset { xml_path, .. } => Some(
                BuildStep::ReplaceAssetXml {
                    entry_path: entry.entry_path@,
                    source: xml_path.bytes(),
                },
            ),
            ImportedArchiveEntryData::XmlText { source_path, source_kind, .. } => Some(
                match source_kind {
                    ArchiveTextSourceKind::RawText => BuildStep::ReplaceRawFile {
                        entry_path: entry.entry_path@,
                        source: source_path.bytes(),
                    },
                    ArchiveTextSourceKind::YmtXml => BuildStep::ReplaceYmtXml {
                        entry_path: entry.entry_path@,
                        source: source_path.bytes(),
                    },
                },
            ),
            ImportedArchiveEntryData::StagedRaw { source_path } => Some(
                BuildStep::ReplaceRawFile {
                    entry_path: entry.entry_path@,
                    source: source_path.bytes(),
                },
            ),
        }
    }
}

/// The changes for the entries, in their order.
pub open spec fn entry_steps(entries: Seq<ImportedArchiveEntry>) -> Seq<BuildStep>
    decreases entries.len(),
{
    if entries.len() == 0 {
        Seq::empty()
    } else {
        let before = entry_steps(entries.drop_last());
        match entry_step(entries.last()) {
            Some(step) => before.push(step),
            None => before,
        }
    }
}

/// The position of the first entry with the given path.
pub open spec fn entry_at(entries: Seq<ImportedArchiveEntry>, path: Seq<char>) -> Option<int>
    decreases entries.len(),
{
    if entries.len() == 0 {
        None
    } else {
        match entry_at(entries.drop_last(), path) {
            Some(i) => Some(i),
            None => if entries.last().entry_path@ == path {
                Some(entries.len() - 1)
            } else {
                None
            },
        }
    }
}

/// Whether an entry has staged changes.
pub open spec fn any_dirty(entries: Seq<ImportedArchiveEntry>) -> bool {
    exists|i: int| 0 <= i < entries.len() && (#[trigger] entries[i]).dirty
}

/// An opened asset.
pub struct ImportedAsset {
    pub id: String,
    pub source_path: PathBuf,
    pub kind: AssetKind,
    pub folder_id: u64,
    pub xml_path: Option<PathBuf>,
    pub textures: Vec<TextureEntry>,
    pub archive_tree: Option<RpfTreeNode>,
    pub archive_entries: Vec<ImportedArchiveEntry>,
    pub pending_archive_folders: Vec<PendingArchiveFolder>,
    pub archive_current_path: Option<String>,
    pub archive_expanded_paths: StringHashSet,
    pub archive_selected_file: Option<String>,
    pub archive_file_notice: Option<String>,
    pub archive_file_loading_path: Option<String>,
    pub archive_search_query: String,
    pub dirty: bool,
    pub last_saved_path: Option<PathBuf>,
}

impl ImportedAsset {
    /// Whether the asset is an archive.
    pub open spec fn archive(self) -> bool {
        self.kind is Rpf
    }

    /// The tree of the archive.
    pub open spec fn tree(self) -> Option<Tree> {
        match self.archive_tree {
            Some(tree) => Some(tree@),
            None => None,
        }
    }

    /// The path of the root of the archive.
    pub open spec fn root(self) -> Option<Seq<char>> {
        match self.tree() {
            Some(tree) => Some(tree.path),
            None => None,
        }
    }

    /// The node of the archive with the given path.
    pub open spec fn node(self, path: Seq<char>) -> Option<Tree> {
        match self.tree() {
            Some(tree) => tree.located(path),
            None => None,
        }
    }

    /// The path above the given one; the root and what is not in the archive have none.
    pub open spec fn above(self, path: Seq<char>) -> Option<Seq<char>> {
        match self.tree() {
            Some(tree) => if tree.path == path {
                None
            } else {
                tree.parent_of(path)
            },
            None => None,
        }
    }

    /// The position of the entry with the given path.
    pub open spec fn entry(self, path: Seq<char>) -> Option<int> {
        entry_at(self.archive_entries@, path)
    }

    /// The display path of the selected file, or of the current folder.
    pub open spec fn display(self) -> Option<Seq<char>> {
        let path = if self.archive_selected_file is Some {
            opt_text(self.archive_selected_file)
        } else {
            opt_text(self.archive_current_path)
        };
        match path {
            Some(p) => match self.node(p) {
                Some(node) => Some(node.display_path),
                None => None,
            },
            None => None,
        }
    }

    /// Whether an archive has staged changes.
    pub open spec fn staged(self) -> bool {
        self.pending_archive_folders@.len() > 0 || any_dirty(self.archive_entries@)
    }

    /// The asset with its dirty flag in line with the staged changes, where it is an archive.
    pub open spec fn synced(self) -> ImportedAsset {
        if self.archive() {
            ImportedAsset { dirty: self.staged(), ..self }
        } else {
            self
        }
    }

    pub fn title(&self) -> (r: String)
        ensures
            r@ == title_of(self.source_path.bytes()),
    {
        paths::title(self.source_path.as_path())
    }

    pub fn is_archive(&self) -> (r: bool)
        ensures
            r == self.archive(),
    {
        match self.kind {
            AssetKind::Rpf => true,
            _ => false,
        }
    }

    pub fn archive_root_path(&self) -> (r: Option<&String>)
        ensures
            match r {
                Some(path) => self.root() == Some(path@),
                None => self.root() is None,
            },
    {
        match &self.archive_tree {
            Some(tree) => {
                proof {
                    lemma_root(*tree);
                }
                Some(&tree.path)
            },
            None => None,
        }
    }

    pub fn archive_current_display_path(&self) -> (r: Option<String>)
        ensures
            opt_text(r) == self.display(),
    {
        let path = match &self.archive_selected_file {
            Some(path) => path,
            None => match &self.archive_current_path {
                Some(path) => path,
                None => {
                    return None;
                },
            },
        };
        match self.find_archive_node(path.as_str()) {
            Some(node) => {
                proof {
                    lemma_root(*node);
                }
                Some(node.display_path.clone())
            },
            None => None,
        }
    }

    pub fn find_archive_node(&self, path: &str) -> (r: Option<&RpfTreeNode>)
        ensures
            match r {
                Some(node) => self.node(path@) == Some(node@),
                None => self.node(path@) is None,
            },
    {
        match &self.archive_tree {
            Some(tree) => tree.find(path),
            None => None,
        }
    }

    /// The path of the folder above the given path.
    pub fn parent_path_for(&self, path: &str) -> (r: Option<String>)
        ensures
            opt_text(r) == self.above(path@),
    {
        match &self.archive_tree {
            Some(tree) => {
                proof {
                    lemma_root(*tree);
                }
                if text::same_text(path, tree.path.as_str()) {
                    None
                } else {
                    tree.parent_path(path)
                }
            },
            None => None,
        }
    }

    /// The position of the entry with the given path.
    pub fn entry_position(&self, path: &str) -> (r: Option<usize>)
        ensures
            match r {
                Some(i) => self.entry(path@) == Some(i as int) && i < self.archive_entries@.len(),
                None => self.entry(path@) is None,
            },
    {
        let mut i: usize = 0;
        let ghost all = self.archive_entries@;
        while i < self.archive_entries.len()
            invariant
                all == self.archive_entries@,
                0 <= i <= all.len(),
                entry_at(all.take(i as int), path@) is None,
            decreases all.len() - i,
        {
            proof {
                assert(all.take(i + 1).drop_last() =~= all.take(i as int));
                assert(all.take(i + 1).last() == all[i as int]);
            }
            if text::same_text(self.archive_entries[i].entry_path.as_str(), path) {
                proof {
                    lemma_entry_at(all, path@, i as int);
                }
                return Some(i);
            }
            i += 1;
        }
        assert(all.take(all.len() as int) =~= all);
        None
    }

    pub fn find_archive_entry(&self, entry_path: &str) -> (r: Option<&ImportedArchiveEntry>)
        ensures
            match r {
                Some(entry) => self.entry(entry_path@) matches Some(i) && 0 <= i
                    < self.archive_entries@.len() && *entry == self.archive_entries@[i],
                None => self.entry(entry_path@) is None,
            },
    {
        match self.entry_position(entry_path) {
            Some(i) => Some(&self.archive_entries[i]),
            None => None,
        }
    }

    pub fn sync_archive_dirty(&mut self)
        ensures
            *final(self) == old(self).synced(),
    {
        if self.is_archive() {
            let mut dirty = self.pending_archive_folders.len() > 0;
            let mut i: usize = 0;
            while i < self.archive_entries.len() && !dirty
                invariant
                    *self == *old(self),
                    0 <= i <= self.archive_entries@.len(),
                    dirty ==> self.staged(),
                    !dirty ==> self.pending_archive_folders@.len() == 0,
                    !dirty ==> forall|j: int|
                        0 <= j < i ==> !(#[trigger] self.archive_entries@[j]).dirty,
                decreases self.archive_entries@.len() - i,
            {
                if self.archive_entries[i].dirty {
                    assert(self.archive_entries@[i as int].dirty);
                    dirty = true;
                }
                i += 1;
            }
            self.dirty = dirty;
        }
    }

    /// The changes that rebuild the archive: the new folders, those that lie higher first, then
    /// the entries with staged changes.
    pub fn build_archive_actions(&self) -> (r: Vec<RpfBuildAction>)
        ensures
            build_steps(r@) == folder_steps(
                self.pending_archive_folders@,
                stable_order(folder_keys(self.pending_archive_folders@)),
                self.pending_archive_folders@.len() as int,
            ) + entry_steps(self.archive_entries@),
    {
        let mut actions: Vec<RpfBuildAction> = Vec::new();
        let folders = &self.pending_archive_folders;
        let order = folder_order(folders);
        let ghost sorted = stable_order(folder_keys(folders@));
        let mut k: usize = 0;
        assert(build_steps(actions@) =~= folder_steps(folders@, sorted, 0));
        while k < order.len()
            invariant
                order@.len() == folders@.len(),
                numbers(order@) == sorted,
                forall|j: int| 0 <= j < order@.len() ==> #[trigger] order@[j] < folders@.len(),
                0 <= k <= order@.len(),
                build_steps(actions@) == folder_steps(folders@, sorted, k as int),
            decreases order@.len() - k,
        {
            let ghost before = build_steps(actions@);
            let folder = &folders[order[k]];
            proof {
                assert(numbers(order@)[k as int] == order@[k as int] as int);
            }
            if let Some(parent_path) = archive_parent_path_from_entry_path(folder.path.as_str()) {
                let action = RpfBuildAction::AddFolder { parent_path, name: folder.name.clone() };
                actions.push(action);
                assert(build_steps(actions@) =~= before.push(action@));
            }
            k += 1;
        }
        let ghost of_folders = build_steps(actions@);
        let ghost all = self.archive_entries@;
        let mut i: usize = 0;
        assert(of_folders + entry_steps(all.take(0)) =~= of_folders);
        while i < self.archive_entries.len()
            invariant
                all == self.archive_entries@,
                0 <= i <= all.len(),
                build_steps(actions@) == of_folders + entry_steps(all.take(i as int)),
            decreases all.len() - i,
        {
            let ghost before = build_steps(actions@);
            proof {
                assert(all.take(i + 1).drop_last() =~= all.take(i as int));
                assert(all.take(i + 1).last() == all[i as int]);
            }
            if let Some(action) = entry_action(&self.archive_entries[i]) {
                actions.push(action);
                proof {
                    assert(build_steps(actions@) =~= before.push(action@));
                    assert(before.push(action@) =~= of_folders + entry_steps(
                        all.take(i as int),
                    ).push(action@));
                }
            }
            i += 1;
        }
        assert(all.take(all.len() as int) =~= all);
        actions
    }
}

proof fn lemma_root(node: RpfTreeNode)
    ensures
        node@.path == node.path@,
        node@.display_path == node.display_path@,
{
    reveal_with_fuel(<RpfTreeNode as View>::view, 2);
}

proof fn lemma_entry_at(entries: Seq<ImportedArchiveEntry>, path: Seq<char>, i: int)
    requires
        0 <= i < entries.len(),
        entries[i].entry_path@ == path,
        entry_at(entries.take(i), path) is None,
    ensures
        entry_at(entries, path) == Some(i),
    decreases entries.len() - i,
{
    lemma_entry_prefix(entries, path, i, entries.len() as int);
    assert(entries.take(entries.len() as int) =~= entries);
}

proof fn lemma_entry_prefix(
    entries: Seq<ImportedArchiveEntry>,
    path: Seq<char>,
    i: int,
    n: int,
)
    requires
        0 <= i < n <= entries.len(),
        entries[i].entry_path@ == path,
        entry_at(entries.take(i), path) is None,
    ensures
        entry_at(entries.take(n), path) == Some(i),
    decreases n,
{
    assert(entries.take(n).drop_last() =~= entries.take(n - 1));
    assert(entries.take(n).last() == entries[n - 1]);
    if i < n - 1 {
        lemma_entry_prefix(entries, path, i, n - 1);
    }
}

fn folder_order(folders: &Vec<PendingArchiveFolder>) -> (r: Vec<usize>)
    ensures
        numbers(r@) == stable_order(folder_keys(folders@)),
        r@.len() == folders@.len(),
        forall|k: int| 0 <= k < r@.len() ==> #[trigger] r@[k] < folders@.len(),
{
    let mut keys: Vec<SortKey> = Vec::new();
    let mut i: usize = 0;
    while i < folders.len()
        invariant
            0 <= i <= folders@.len(),
            keys@.len() == i,
            forall|j: int| 0 <= j < i ==> (#[trigger] keys@[j])@ == folder_keys(folders@)[j],
        decreases folders@.len() - i,
    {
        let depth: usize = text::count_char(folders[i].path.as_str(), '\\');
        let key = SortKey { rank: depth as u64, text: Vec::new() };
        assert(key@.text =~= Seq::<char>::empty());
        keys.push(key);
        i += 1;
    }
    assert(keys_of(keys@) =~= folder_keys(folders@));
    sorted_order(&keys)
}

fn entry_action(entry: &ImportedArchiveEntry) -> (r: Option<RpfBuildAction>)
    ensures
        match r {
            Some(action) => entry_step(*entry) == Some(action@),
            None => entry_step(*entry) is None,
        },
{
    if !entry.dirty {
        return None;
    }
    if entry.added {
        return match entry.text_source_path() {
            Some(source) => match archive_parent_path_from_entry_path(entry.entry_path.as_str()) {
                Some(parent_path) => Some(
                    RpfBuildAction::AddRawFile {
                        parent_path,
                        name: entry.title.clone(),
                        source_path: source.clone(),
                    },
                ),
                None => None,
            },
            None => None,
        };
    }
    let entry_path = entry.entry_path.clone();
    Some(
        match &entry.data {
            ImportedArchiveEntryData::TextureAsset { xml_path, .. } => {
                RpfBuildAction::ReplaceAssetXml { entry_path, source_path: xml_path.clone() }
            },
            ImportedArchiveEntryData::XmlText { source_path, source_kind, .. } => match source_kind {
                ArchiveTextSourceKind::RawText => RpfBuildAction::ReplaceRawFile {
                    entry_path,
                    source_path: source_path.clone(),
                },
                ArchiveTextSourceKind::YmtXml => RpfBuildAction::ReplaceYmtXml {
                    entry_path,
                    source_path: source_path.clone(),
                },
            },
            ImportedArchiveEntryData::StagedRaw { source_path } => RpfBuildAction::ReplaceRawFile {
                entry_path,
                source_path: source_path.clone(),
            },
        },
    )
}

/// The asset that a draft becomes, but for the set of its expanded folders.
pub open spec fn asset_from(draft: ImportedAssetDraft, asset: ImportedAsset) -> bool {
    &&& asset.id == draft.id
    &&& asset.source_path == draft.source_path
    &&& asset.kind == draft.kind
    &&& asset.folder_id == draft.folder_id
    &&& asset.xml_path == draft.xml_path
    &&& asset.textures@ == crate::textures::entries_of(draft.textures@)
    &&& asset.archive_tree == draft.archive_tree
    &&& asset.archive_entries@.len() == 0
    &&& asset.pending_archive_folders@.len() == 0
    &&& asset.archive_current_path is None
    &&& asset.archive_expanded_paths@ == Set::<Seq<char>>::empty()
    &&& asset.archive_selected_file is None
    &&& asset.archive_file_notice is None
    &&& asset.archive_file_loading_path is None
    &&& asset.archive_search_query@ == Seq::<char>::empty()
    &&& !asset.dirty
    &&& asset.last_saved_path is None
}

impl ImportedAsset {
    /// The asset that a draft becomes: nothing is selected, staged or saved yet.
    pub fn from_draft(draft: ImportedAssetDraft) -> (r: ImportedAsset)
        ensures
            asset_from(draft, r),
    {
        ImportedAsset {
            id: draft.id,
            source_path: draft.source_path,
            kind: draft.kind,
            folder_id: draft.folder_id,
            xml_path: draft.xml_path,
            textures: crate::textures::texture_entries(draft.textures),
            archive_tree: draft.archive_tree,
            archive_entries: Vec::new(),
            pending_archive_folders: Vec::new(),
            archive_current_path: None,
            archive_expanded_paths: StringHashSet::new(),
            archive_selected_file: None,
            archive_file_notice: None,
            archive_file_loading_path: None,
            archive_search_query: String::new(),
            dirty: false,
            last_saved_path: None,
        }
    }
}

/// Folders are added from the top down: in the order of the changes no folder comes before one
/// that lies higher, so a folder comes before those that lie in it.
pub proof fn folders_are_added_from_the_top_down(
    folders: Seq<PendingArchiveFolder>,
    a: int,
    b: int,
)
    requires
        0 <= a < folders.len(),
        0 <= b < folders.len(),
        count_of(folders[a].path@, '\\') < count_of(folders[b].path@, '\\'),
    ensures
        exists|i: int, j: int|
            0 <= i < j < folders.len() && #[trigger] stable_order(folder_keys(folders))[i] == a
                && #[trigger] stable_order(folder_keys(folders))[j] == b,
{
    let keys = folder_keys(folders);
    let n = folders.len() as int;
    the_order_is_stable(keys, n);
    let order = stable_order(keys);
    assert(is_stable_order(order, keys, n));
    assert(order.contains(a) && order.contains(b));
    let i = choose|i: int| 0 <= i < order.len() && order[i] == a;
    let j = choose|j: int| 0 <= j < order.len() && order[j] == b;
    if j < i {
        assert(!crate::order::key_before(keys[order[i]], keys[order[j]]));
    }
    assert(i < j);
    assert(order[i] == a && order[j] == b);
}

/// Whether an archive is dirty follows from its staged changes alone, and bringing the flag in
/// line twice changes nothing more.
pub proof fn syncing_is_idempotent(asset: ImportedAsset)
    requires
        asset.archive(),
    ensures
        asset.synced().dirty <==> asset.staged(),
        asset.synced().synced() == asset.synced(),
{
}

/// An entry gives rise to a change only where it has staged changes, and one that was not added
/// always does then.
pub proof fn only_staged_entries_change_an_archive(entry: ImportedArchiveEntry)
    ensures
        entry_step(entry) is Some ==> entry.dirty,
        entry.dirty && !entry.added ==> entry_step(entry) is Some,
{
}

/// What becomes of a changed entry follows from what it holds: textures are built from their
/// description, a text that was converted is converted back, and every other text or file is taken as
/// it is. The change names the entry and the file in which its content is staged.
pub proof fn the_change_follows_from_the_data(entry: ImportedArchiveEntry)
    requires
        entry.dirty,
        !entry.added,
    ensures
        entry_step(entry) is Some,
        ({
            let step = entry_step(entry)->0;
            &&& step is ReplaceAssetXml <==> entry.data is TextureAsset
            &&& step is ReplaceYmtXml <==> (entry.data matches ImportedArchiveEntryData::XmlText {
                source_kind,
                ..
            } && source_kind is YmtXml)
            &&& step is ReplaceRawFile <==> entry.data is StagedRaw || (entry.data matches
                ImportedArchiveEntryData::XmlText { source_kind, .. } && source_kind is RawText)
            &&& step matches BuildStep::ReplaceAssetXml { entry_path, source } ==> entry_path
                == entry.entry_path@ && (entry.data matches ImportedArchiveEntryData::TextureAsset {
                xml_path,
                ..
            } && source == xml_path.bytes())
            &&& step matches BuildStep::ReplaceYmtXml { entry_path, source } ==> entry_path
                == entry.entry_path@ && (entry.data matches ImportedArchiveEntryData::XmlText {
                source_path,
                ..
            } && source == source_path.bytes())
            &&& step matches BuildStep::ReplaceRawFile { entry_path, source } ==> entry_path
                == entry.entry_path@ && match entry.data {
                ImportedArchiveEntryData::XmlText { source_path, .. } => source
                    == source_path.bytes(),
                ImportedArchiveEntryData::StagedRaw { source_path } => source
                    == source_path.bytes(),
                ImportedArchiveEntryData::TextureAsset { .. } => false,
            }
        }),
{
}

/// An entry that was added becomes a new file in its folder, under its title and with the content
/// that is staged for it; one that has no such content, or lies in no folder, becomes nothing.
pub proof fn an_added_entry_becomes_a_file(
    entry: ImportedArchiveEntry,
    folder: Seq<char>,
    name: Seq<char>,
)
    requires
        entry.dirty,
        entry.added,
    ensures
        entry_step(entry) matches Some(step) ==> step is AddRawFile,
        entry.data is TextureAsset ==> entry_step(entry) is None,
        !entry.entry_path@.contains('\\') ==> entry_step(entry) is None,
        entry.entry_path@ == folder.push('\\') + name && !name.contains('\\') ==> match entry.data {
            ImportedArchiveEntryData::XmlText { source_path, .. } => entry_step(entry) == Some(
                BuildStep::AddRawFile {
                    parent_path: folder,
                    name: entry.title@,
                    source: source_path.bytes(),
                },
            ),
            ImportedArchiveEntryData::StagedRaw { source_path } => entry_step(entry) == Some(
                BuildStep::AddRawFile {
                    parent_path: folder,
                    name: entry.title@,
                    source: source_path.bytes(),
                },
            ),
            ImportedArchiveEntryData::TextureAsset { .. } => true,
        },
{
    an_entry_lies_in_its_folder(entry.entry_path@, folder, name);
}

/// The changes of the entries are those of each entry that has one, in the order of the entries.
pub proof fn each_changed_entry_is_rebuilt(entries: Seq<ImportedArchiveEntry>)
    ensures
        entry_steps(entries) == entries.filter_map(|entry: ImportedArchiveEntry| entry_step(entry)),
        (forall|i: int|
            0 <= i < entries.len() ==> (#[trigger] entries[i]).dirty && !entries[i].added)
            ==> entry_steps(entries).len() == entries.len() && forall|i: int|
            0 <= i < entries.len() ==> entry_step(entries[i]) == Some(
                #[trigger] entry_steps(entries)[i],
            ),
        (forall|i: int| 0 <= i < entries.len() ==> !(#[trigger] entries[i]).dirty) ==> entry_steps(
            entries,
        ).len() == 0,
    decreases entries.len(),
{
    reveal(Seq::filter_map);
    if entries.len() > 0 {
        let front = entries.drop_last();
        each_changed_entry_is_rebuilt(front);
        if forall|i: int| 0 <= i < entries.len() ==> !(#[trigger] entries[i]).dirty {
            assert forall|i: int| 0 <= i < front.len() implies !(#[trigger] front[i]).dirty by {
                assert(front[i] == entries[i]);
            }
            assert(!entries.last().dirty);
        }
        if forall|i: int|
            0 <= i < entries.len() ==> (#[trigger] entries[i]).dirty && !entries[i].added {
            assert forall|i: int| 0 <= i < front.len() implies (#[trigger] front[i]).dirty
                && !front[i].added by {
                assert(front[i] == entries[i]);
            }
            assert(entries.last().dirty && !entries.last().added);
            assert forall|i: int| 0 <= i < entries.len() implies entry_step(entries[i]) == Some(
                #[trigger] entry_steps(entries)[i],
            ) by {
                if i < front.len() {
                    assert(entry_steps(front)[i] == entry_steps(entries)[i]);
                }
            }
        }
    }
}

/// Each staged folder that lies in another becomes one new folder there, under its own name.
pub proof fn each_staged_folder_is_added(
    folders: Seq<PendingArchiveFolder>,
    order: Seq<int>,
    k: int,
    i: int,
    parent: Seq<char>,
    name: Seq<char>,
)
    requires
        0 <= i < k <= order.len(),
        folders[order[i]].path@ == parent.push('\\') + name,
        !name.contains('\\'),
    ensures
        folder_steps(folders, order, k).contains(
            BuildStep::AddFolder { parent_path: parent, name: folders[order[i]].name@ },
        ),
        folder_steps(folders, order, k).len() <= k,
    decreases k,
{
    lemma_folder_steps_len(folders, order, k);
    an_entry_lies_in_its_folder(folders[order[i]].path@, parent, name);
    let before = folder_steps(folders, order, k - 1);
    let after = folder_steps(folders, order, k);
    let step = BuildStep::AddFolder { parent_path: parent, name: folders[order[i]].name@ };
    if i == k - 1 {
        assert(after.last() == step);
    } else {
        each_staged_folder_is_added(folders, order, k - 1, i, parent, name);
        let j = choose|j: int| 0 <= j < before.len() && before[j] == step;
        assert(after[j] == step);
    }
}

proof fn lemma_folder_steps_len(folders: Seq<PendingArchiveFolder>, order: Seq<int>, k: int)
    ensures
        folder_steps(folders, order, k).len() <= if k < 0 {
            0
        } else {
            k
        },
    decreases k,
{
    if k > 0 {
        lemma_folder_steps_len(folders, order, k - 1);
    }
}

/// An entry is found by its path: the first that has it, and none only where there is none.
pub proof fn entries_are_found_by_their_path(
    entries: Seq<ImportedArchiveEntry>,
    path: Seq<char>,
    i: int,
)
    requires
        0 <= i < entries.len(),
        entries[i].entry_path@ == path,
    ensures
        entry_at(entries, path) matches Some(at) && 0 <= at <= i && entries[at].entry_path@ == path,
        (forall|j: int| 0 <= j < i ==> (#[trigger] entries[j]).entry_path@ != path) ==> entry_at(
            entries,
            path,
        ) == Some(i),
    decreases entries.len(),
{
    let front = entries.drop_last();
    if i < front.len() {
        assert(front[i] == entries[i]);
        if forall|j: int| 0 <= j < i ==> (#[trigger] entries[j]).entry_path@ != path {
            assert forall|j: int| 0 <= j < i implies (#[trigger] front[j]).entry_path@ != path by {
                assert(front[j] == entries[j]);
            }
        }
        entries_are_found_by_their_path(front, path, i);
    } else {
        lemma_entry_bounds(front, path);
    }
}

pub proof fn lemma_entry_bounds(entries: Seq<ImportedArchiveEntry>, path: Seq<char>)
    ensures
        entry_at(entries, path) matches Some(at) ==> 0 <= at < entries.len()
            && entries[at].entry_path@ == path,
    decreases entries.len(),
{
    if entries.len() > 0 {
        lemma_entry_bounds(entries.drop_last(), path);
    }
}

/// What an entry holds decides what can be asked of it: only textures are listed, only a text is
/// known as it was, and only a text or a staged file has a file in which it is edited.
pub proof fn an_entry_gives_what_it_holds(entry: ImportedArchiveEntry)
    ensures
        entry.texture_list() is Some <==> entry.data is TextureAsset,
        entry.text_before() is Some <==> entry.data is XmlText,
        entry.staged_file() is None <==> entry.data is TextureAsset,
        entry.data matches ImportedArchiveEntryData::XmlText { source_path, original_text, .. }
            ==> entry.staged_file() == Some(source_path) && entry.text_before() == Some(
            original_text,
        ),
        entry.data matches ImportedArchiveEntryData::StagedRaw { source_path }
            ==> entry.staged_file() == Some(source_path),
        entry.data matches ImportedArchiveEntryData::TextureAsset { textures, .. }
            ==> entry.texture_list() == Some(textures@),
        entry.shown_as_text() <==> entry.content_kind is XmlText || entry.content_kind is ConvertedXml,
        entry.fits(entry.content_kind) || entry.content_kind is ConvertedXml,
{
}

/// The step above a node leads to the folder that holds it: from every node of the archive but its root.
pub proof fn going_up_leads_to_the_parent(asset: ImportedAsset, path: Seq<char>)
    requires
        asset.tree() matches Some(tree) ==> tree.distinct(),
    ensures
        asset.tree() is None ==> asset.above(path) is None,
        asset.root() == Some(path) ==> asset.above(path) is None,
        asset.node(path) is Some && asset.root() != Some(path) ==> asset.above(path) is Some,
        asset.above(path) matches Some(parent) ==> (asset.node(parent) matches Some(folder)
            && has_child(folder, path)),
{
    if let Some(tree) = asset.tree() {
        if path != tree.path {
            every_node_has_a_parent(tree, path);
        }
        the_parent_has_the_child(tree, path);
    }
}

/// The place that is shown of an archive is that of its selected file, else that of its current folder.
pub proof fn the_shown_place_is_that_of_the_selection(asset: ImportedAsset)
    ensures
        asset.archive_selected_file matches Some(path) ==> (asset.node(path@) matches Some(node)
            ==> asset.display() == Some(node.display_path)),
        asset.archive_selected_file is None ==> (asset.archive_current_path matches Some(path) ==> (
        asset.node(path@) matches Some(node) ==> asset.display() == Some(node.display_path))),
        asset.archive_selected_file is None && asset.archive_current_path is None
            ==> asset.display() is None,
{
}

/// Where every staged folder lies in another, each has its own step, in the order in which they are made:
/// in the folder that it lies in, under its own name.
pub proof fn every_staged_folder_has_its_step(
    folders: Seq<PendingArchiveFolder>,
    order: Seq<int>,
    k: int,
    i: int,
)
    requires
        0 <= i < k <= order.len(),
        forall|j: int| 0 <= j < k ==> folder_of(folders[#[trigger] order[j]].path@) is Some,
    ensures
        folder_steps(folders, order, k).len() == k,
        folder_steps(folders, order, k)[i] == (BuildStep::AddFolder {
            parent_path: folder_of(folders[order[i]].path@)->0,
            name: folders[order[i]].name@,
        }),
    decreases k,
{
    assert(folder_of(folders[order[k - 1]].path@) is Some);
    if k == 1 {
        assert(folder_steps(folders, order, 0).len() == 0);
    } else if i < k - 1 {
        every_staged_folder_has_its_step(folders, order, k - 1, i);
    } else {
        every_staged_folder_has_its_step(folders, order, k - 1, 0);
    }
}

/// An entry that was opened before stands for a node of its own kind only; a converted text must still be
/// staged in an XML file for that.
pub proof fn only_its_own_kind_fits(entry: ImportedArchiveEntry, kind: ArchiveContentKind)
    ensures
        entry.fits(kind) ==> entry.content_kind == kind,
        !(kind is ConvertedXml) ==> (entry.fits(kind) <==> entry.content_kind == kind),
        entry.fits(ArchiveContentKind::ConvertedXml) ==> (entry.staged_file() matches Some(path)
            && extension_text(path.bytes()) is Some),
        entry.content_kind is ConvertedXml ==> (entry.staged_file() matches Some(path) ==> (
        extension_text(path.bytes()) == Some("xml"@) ==> entry.fits(kind) || !(
        kind is ConvertedXml))),
{
}

}
