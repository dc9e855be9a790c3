//! Staging changes: new folders and files of an archive, edited texts, and imported files.

use crate::app::{App, TextEditorState};
use crate::archive::{
    content_of_extension, ArchiveContentKind, ArchiveTextSourceKind, RpfTreeNode, RpfTreeNodeKind,
    Tree,
};
use crate::assets::{
    any_dirty, entry_step, entry_steps, BuildStep, ImportedArchiveEntry, ImportedArchiveEntryData,
    ImportedAsset, PendingArchiveFolder,
};
use crate::config::AppConfig;
use crate::jobs::said;
use crate::nesting::{open_at_most, DEEPEST_NESTING};
use crate::paths::{
    self, file_name_bytes, joined_bytes, opt_bytes, parent_bytes, shown_path, PathBytes,
};
use crate::sections::EditorState;
use crate::text::{self, decimal, lower, opt_text, trimmed};
use crate::textures::{parse_xml, parsed_xml, NodeParts};
use std::path::{Path, PathBuf};
use vstd::prelude::*;

verus! {

/// The path of a new item of an archive.
pub open spec fn item_path(parent: Seq<char>, name: Seq<char>) -> Seq<char> {
    parent + "\\"@ + lower(name)
}

fn new_item_path(parent: &str, name: &str) -> (r: String)
    ensures
        r@ == item_path(parent@, name@),
{
    let mut out = parent.to_owned();
    out.append("\\");
    out.append(text::to_lower(name).as_str());
    out
}

/// The node of a new item below a folder.
pub open spec fn item_node(
    folder: Tree,
    name: Seq<char>,
    kind: RpfTreeNodeKind,
    content_kind: ArchiveContentKind,
) -> Tree {
    Tree {
        name,
        path: item_path(folder.path, name),
        display_path: folder.display_path + " / "@ + name,
        kind,
        content_kind,
        children: Seq::empty(),
    }
}

/// Whether a node was added to an archive, below the folder with the given path, which is then
/// shown with what lies in it.
pub open spec fn node_added(
    before: ImportedAsset,
    after: ImportedAsset,
    parent: Seq<char>,
    name: Seq<char>,
    kind: RpfTreeNodeKind,
    content_kind: ArchiveContentKind,
) -> bool {
    &&& before.node(parent) matches Some(folder)
    &&& before.tree() matches Some(tree)
    &&& after.tree() == tree.grown(parent, item_node(folder, name, kind, content_kind))
    &&& after.archive_expanded_paths@ == before.archive_expanded_paths@.insert(parent)
}

impl App {
    /// Where new items of an archive go: the selected archive and its current folder.
    pub open spec fn archive_target(self) -> Option<(int, Seq<char>)> {
        match self.selected_asset {
            Some(a) => if a < self.assets@.len() && self.assets@[a as int].archive() {
                let asset = self.assets@[a as int];
                match asset.archive_current_path {
                    Some(path) => Some((a as int, path@)),
                    None => match asset.root() {
                        Some(root) => Some((a as int, root)),
                        None => None,
                    },
                }
            } else {
                None
            },
            None => None,
        }
    }

    pub fn current_archive_target_directory(&self) -> (r: Option<(usize, String)>)
        ensures
            match r {
                Some((a, path)) => a < self.assets@.len() && self.archive_target() == Some(
                    (a as int, path@),
                ),
                None => self.archive_target() is None,
            },
    {
        let a: usize = match self.selected_asset {
            Some(a) => a,
            None => {
                return None;
            },
        };
        if a >= self.assets.len() || !self.assets[a].is_archive() {
            return None;
        }
        match &self.assets[a].archive_current_path {
            Some(path) => Some((a, path.clone())),
            None => match self.assets[a].archive_root_path() {
                Some(root) => Some((a, root.clone())),
                None => None,
            },
        }
    }

    /// Why an item with the given name cannot be added to the archive.
    pub open spec fn item_refused(self, name: Seq<char>) -> Option<Seq<char>> {
        match self.archive_target() {
            None => Some("Open a package folder first."@),
            Some((a, parent)) => if self.assets@[a].node(item_path(parent, name)) is Some {
                Some("An item with that name already exists in this folder."@)
            } else if self.assets@[a].node(parent) is None {
                Some("The selected archive folder could not be found."@)
            } else {
                None
            },
        }
    }

    /// Why a folder with the given name cannot be added to the archive.
    pub open spec fn folder_refused(self, name: Seq<char>) -> Option<Seq<char>> {
        if name.len() == 0 {
            Some("Enter a folder name first."@)
        } else if name.contains('\\') || name.contains('/') {
            Some("Folder names cannot contain path separators."@)
        } else {
            self.item_refused(name)
        }
    }
}

/// Whether a folder was staged in an archive.
pub open spec fn folder_staged(
    before: ImportedAsset,
    after: ImportedAsset,
    parent: Seq<char>,
    name: Seq<char>,
) -> bool {
    &&& after == (ImportedAsset {
        archive_tree: after.archive_tree,
        pending_archive_folders: after.pending_archive_folders,
        archive_expanded_paths: after.archive_expanded_paths,
        dirty: true,
        ..before
    })
    &&& node_added(
        before,
        after,
        parent,
        name,
        RpfTreeNodeKind::Folder,
        ArchiveContentKind::Folder,
    )
    &&& after.pending_archive_folders@.len() == before.pending_archive_folders@.len() + 1
    &&& after.pending_archive_folders@.drop_last() == before.pending_archive_folders@
    &&& after.pending_archive_folders@.last().path@ == item_path(parent, name)
    &&& after.pending_archive_folders@.last().name@ == name
}

/// Whether one asset changed, as the second is told, and the status says so.
pub open spec fn asset_exchanged(before: App, a: int, after: App, message: Seq<char>) -> bool {
    &&& after == (App { assets: after.assets, status: after.status, ..before })
    &&& after.assets@ == before.assets@.update(a, after.assets@[a])
    &&& after.status@ == message
}

impl ImportedAsset {
    fn add_node(
        &mut self,
        parent: &str,
        name: &str,
        kind: RpfTreeNodeKind,
        content_kind: ArchiveContentKind,
    )
        requires
            old(self).node(parent@) is Some,
        ensures
            *final(self) == (ImportedAsset {
                archive_tree: final(self).archive_tree,
                archive_expanded_paths: final(self).archive_expanded_paths,
                ..*old(self)
            }),
            node_added(*old(self), *final(self), parent@, name@, kind, content_kind),
    {
        let mut display_path = String::new();
        if let Some(folder) = self.find_archive_node(parent) {
            proof {
                reveal_with_fuel(<RpfTreeNode as View>::view, 2);
            }
            display_path = folder.display_path.clone();
        }
        proof {
            crate::archive::lookup_finds_every_path(self.tree()->0, parent@);
            crate::archive::added_nodes_are_found(
                self.tree()->0,
                parent@,
                item_node(self.node(parent@)->0, name@, kind, content_kind),
            );
        }
        display_path.append(" / ");
        display_path.append(name);
        let node = RpfTreeNode {
            name: name.to_owned(),
            path: new_item_path(parent, name),
            display_path,
            kind,
            content_kind,
            children: Vec::new(),
        };
        proof {
            reveal_with_fuel(<RpfTreeNode as View>::view, 2);
            assert(node@.children =~= Seq::<Tree>::empty());
            assert(node@ == item_node(old(self).node(parent@)->0, name@, kind, content_kind));
        }
        if let Some(tree) = &mut self.archive_tree {
            let _ = tree.add_child(parent, node);
        }
        self.archive_expanded_paths.insert(parent.to_owned());
    }

    fn stage_folder(&mut self, parent: &str, name: String)
        requires
            old(self).archive(),
            old(self).node(parent@) is Some,
        ensures
            folder_staged(*old(self), *final(self), parent@, name@),
    {
        self.add_node(
            parent,
            name.as_str(),
            RpfTreeNodeKind::Folder,
            ArchiveContentKind::Folder,
        );
        let ghost before = self.pending_archive_folders@;
        let path = new_item_path(parent, name.as_str());
        self.pending_archive_folders.push(PendingArchiveFolder { path, name });
        assert(self.pending_archive_folders@.drop_last() =~= before);
        self.sync_archive_dirty();
    }
}

impl App {
    /// Stages a new folder in the archive.
    pub fn add_archive_folder(&mut self, name: &str)
        ensures
            match old(self).folder_refused(trimmed(name@)) {
                Some(message) => said(*old(self), *final(self), message),
                None => {
                    &&& old(self).archive_target() matches Some((a, parent))
                    &&& asset_exchanged(
                        *old(self),
                        a,
                        *final(self),
                        "Added folder "@ + trimmed(name@) + " to the package staging area."@,
                    )
                    &&& folder_staged(
                        old(self).assets@[a],
                        final(self).assets@[a],
                        parent,
                        trimmed(name@),
                    )
                },
            },
            old(self).well_formed() ==> final(self).well_formed(),
    {
        let name = text::trim(name);
        proof {
            reveal_strlit("");
            if name@.len() == 0 {
                assert(name@ =~= ""@);
            }
        }
        if text::same_text(name.as_str(), "") {
            self.set_status("Enter a folder name first.".to_owned());
            return ;
        }
        if text::contains_char(name.as_str(), '\\') || text::contains_char(name.as_str(), '/') {
            self.set_status("Folder names cannot contain path separators.".to_owned());
            return ;
        }
        let (a, parent) = match self.current_archive_target_directory() {
            Some((a, parent)) => (a, parent),
            None => {
                self.set_status("Open a package folder first.".to_owned());
                return ;
            },
        };
        let path = new_item_path(parent.as_str(), name.as_str());
        if self.assets[a].find_archive_node(path.as_str()).is_some() {
            self.set_status("An item with that name already exists in this folder.".to_owned());
            return ;
        }
        if self.assets[a].find_archive_node(parent.as_str()).is_none() {
            self.set_status("The selected archive folder could not be found.".to_owned());
            return ;
        }
        let mut message = "Added folder ".to_owned();
        message.append(name.as_str());
        message.append(" to the package staging area.");
        let ghost before = self.assets@;
        self.assets[a].stage_folder(parent.as_str(), name);
        assert(self.assets@ =~= before.update(a as int, self.assets@[a as int]));
        self.set_status(message);
    }
}

/// Whether an entry is that of a file which was staged: a text with its content, or any file.
pub open spec fn staged_entry(
    entry: ImportedArchiveEntry,
    path: Seq<char>,
    name: Seq<char>,
    content_kind: ArchiveContentKind,
    source: PathBuf,
    text: Result<String, String>,
) -> bool {
    &&& entry.entry_path@ == path
    &&& entry.title@ == name
    &&& entry.dirty
    &&& entry.added
    &&& if content_kind is XmlText {
        &&& entry.content_kind is XmlText
        &&& text matches Ok(original_text)
        &&& entry.data == (ImportedArchiveEntryData::XmlText {
            source_path: source,
            original_text,
            source_kind: ArchiveTextSourceKind::RawText,
        })
    } else {
        &&& entry.content_kind is File
        &&& entry.data == (ImportedArchiveEntryData::StagedRaw { source_path: source })
    }
}

/// Whether a file was staged in an archive, and is selected.
pub open spec fn file_staged(
    before: ImportedAsset,
    after: ImportedAsset,
    parent: Seq<char>,
    name: Seq<char>,
    content_kind: ArchiveContentKind,
    source: PathBuf,
    text: Result<String, String>,
) -> bool {
    &&& after == (ImportedAsset {
        archive_tree: after.archive_tree,
        archive_entries: after.archive_entries,
        archive_expanded_paths: after.archive_expanded_paths,
        archive_selected_file: after.archive_selected_file,
        archive_file_notice: None,
        dirty: true,
        ..before
    })
    &&& node_added(before, after, parent, name, RpfTreeNodeKind::File, content_kind)
    &&& after.archive_entries@.len() == before.archive_entries@.len() + 1
    &&& after.archive_entries@.drop_last() == before.archive_entries@
    &&& staged_entry(
        after.archive_entries@.last(),
        item_path(parent, name),
        name,
        content_kind,
        source,
        text,
    )
    &&& opt_text(after.archive_selected_file) == Some(item_path(parent, name))
}

impl App {
    /// Why a file cannot be added to the archive.
    pub open spec fn file_refused(
        self,
        name: Seq<char>,
        content_kind: ArchiveContentKind,
        source: PathBuf,
        text: Result<String, String>,
    ) -> Option<Seq<char>> {
        match self.archive_target() {
            None => Some("Open a package folder first."@),
            Some((a, parent)) => if self.assets@[a].node(item_path(parent, name)) is Some {
                Some("An item with that name already exists in this folder."@)
            } else if content_kind is XmlText && text is Err {
                Some(
                    "Failed to read "@ + shown_path(source.bytes()) + " as UTF-8 XML text: "@ + (
                    text->Err_0)@,
                )
            } else if self.assets@[a].node(parent) is None {
                Some("The selected archive folder could not be found."@)
            } else {
                None
            },
        }
    }
}

impl ImportedAsset {
    fn stage_file(
        &mut self,
        parent: &str,
        name: String,
        content_kind: ArchiveContentKind,
        source: PathBuf,
        text: Result<String, String>,
    )
        requires
            old(self).archive(),
            old(self).node(parent@) is Some,
            content_kind is XmlText ==> text is Ok,
        ensures
            file_staged(*old(self), *final(self), parent@, name@, content_kind, source, text),
    {
        self.add_node(parent, name.as_str(), RpfTreeNodeKind::File, content_kind);
        let path = new_item_path(parent, name.as_str());
        let entry_path = path.clone();
        let entry = match (content_kind, text) {
            (ArchiveContentKind::XmlText, Ok(original_text)) => ImportedArchiveEntry {
                entry_path,
                title: name,
                content_kind: ArchiveContentKind::XmlText,
                data: ImportedArchiveEntryData::XmlText {
                    source_path: source,
                    original_text,
                    source_kind: ArchiveTextSourceKind::RawText,
                },
                dirty: true,
                added: true,
            },
            _ => ImportedArchiveEntry {
                entry_path,
                title: name,
                content_kind: ArchiveContentKind::File,
                data: ImportedArchiveEntryData::StagedRaw { source_path: source },
                dirty: true,
                added: true,
            },
        };
        let ghost before = self.archive_entries@;
        self.archive_entries.push(entry);
        assert(self.archive_entries@.drop_last() =~= before);
        self.archive_selected_file = Some(path);
        self.archive_file_notice = None;
        proof {
            assert(self.archive_entries@[before.len() as int].dirty);
            assert(any_dirty(self.archive_entries@));
        }
        self.sync_archive_dirty();
    }
}

impl App {
    /// Where a file goes in the archive, or why it cannot be added.
    fn place_for_file(
        &self,
        file_name: &str,
        content_kind: ArchiveContentKind,
        source: &PathBuf,
        text: &Result<String, String>,
    ) -> (r: Result<(usize, String), String>)
        ensures
            match self.file_refused(file_name@, content_kind, *source, *text) {
                Some(message) => r matches Err(why) && why@ == message,
                None => r matches Ok((a, parent)) && a < self.assets@.len()
                    && self.archive_target() == Some((a as int, parent@)),
            },
    {
        let (a, parent) = match self.current_archive_target_directory() {
            Some((a, parent)) => (a, parent),
            None => {
                return Err("Open a package folder first.".to_owned());
            },
        };
        let path = new_item_path(parent.as_str(), file_name);
        if self.assets[a].find_archive_node(path.as_str()).is_some() {
            return Err("An item with that name already exists in this folder.".to_owned());
        }
        if content_kind == ArchiveContentKind::XmlText {
            if let Err(error) = text {
                let mut message = "Failed to read ".to_owned();
                message.append(paths::shown(source.as_path()).as_str());
                message.append(" as UTF-8 XML text: ");
                message.append(error.as_str());
                return Err(message);
            }
        }
        if self.assets[a].find_archive_node(parent.as_str()).is_none() {
            return Err("The selected archive folder could not be found.".to_owned());
        }
        Ok((a, parent))
    }

    /// Stages a new file in the archive; `text` is what the staged file holds, as far as it could
    /// be read as text.
    pub fn add_archive_file(
        &mut self,
        file_name: String,
        node_content_kind: ArchiveContentKind,
        staged_source_path: PathBuf,
        text: Result<String, String>,
    )
        ensures
            match old(self).file_refused(
                file_name@,
                node_content_kind,
                staged_source_path,
                text,
            ) {
                Some(message) => said(*old(self), *final(self), message),
                None => {
                    &&& old(self).archive_target() matches Some((a, parent))
                    &&& asset_exchanged(
                        App { selected_texture: None, ..*old(self) },
                        a,
                        *final(self),
                        "Added "@ + file_name@ + " to the package staging area."@,
                    )
                    &&& file_staged(
                        old(self).assets@[a],
                        final(self).assets@[a],
                        parent,
                        file_name@,
                        node_content_kind,
                        staged_source_path,
                        text,
                    )
                },
            },
            old(self).well_formed() ==> final(self).well_formed(),
    {
        let (a, parent) = match self.place_for_file(
            file_name.as_str(),
            node_content_kind,
            &staged_source_path,
            &text,
        ) {
            Ok((a, parent)) => (a, parent),
            Err(message) => {
                self.set_status(message);
                return ;
            },
        };
        let mut message = "Added ".to_owned();
        message.append(file_name.as_str());
        message.append(" to the package staging area.");
        let ghost before = self.assets@;
        self.assets[a].stage_file(
            parent.as_str(),
            file_name,
            node_content_kind,
            staged_source_path,
            text,
        );
        assert(self.assets@ =~= before.update(a as int, self.assets@[a as int]));
        self.selected_texture = None;
        self.set_status(message);
    }
}

/// A file that was staged is found in the archive under its path, and no path occurs twice there
/// where none did.
pub proof fn staged_items_are_found(
    before: ImportedAsset,
    after: ImportedAsset,
    parent: Seq<char>,
    name: Seq<char>,
    kind: RpfTreeNodeKind,
    content_kind: ArchiveContentKind,
)
    requires
        node_added(before, after, parent, name, kind, content_kind),
        before.node(item_path(parent, name)) is None,
    ensures
        after.node(item_path(parent, name)) == Some(
            item_node(before.node(parent)->0, name, kind, content_kind),
        ),
        before.tree()->0.distinct() ==> after.tree()->0.distinct(),
{
    let tree = before.tree()->0;
    let node = item_node(before.node(parent)->0, name, kind, content_kind);
    crate::archive::lookup_finds_every_path(tree, parent);
    crate::archive::added_nodes_are_found(tree, parent, node);
}

/// What the user wants to add to an archive.
pub enum ArchiveAddition {
    Refused(&'static str),
    Folder(String),
    File { file_name: String, extension: &'static str, source: Option<PathBuf> },
}

/// The extension of a file type of the dialog.
pub open spec fn extension_of(file_type: u32) -> Seq<char> {
    if file_type == 1 {
        "meta"@
    } else if file_type == 2 {
        "ydr"@
    } else if file_type == 3 {
        "yft"@
    } else if file_type == 4 {
        "ytd"@
    } else if file_type == 5 {
        "rpf"@
    } else {
        "xml"@
    }
}

fn extension_for(file_type: u32) -> (r: &'static str)
    ensures
        r@ == extension_of(file_type),
{
    if file_type == 1 {
        "meta"
    } else if file_type == 2 {
        "ydr"
    } else if file_type == 3 {
        "yft"
    } else if file_type == 4 {
        "ytd"
    } else if file_type == 5 {
        "rpf"
    } else {
        "xml"
    }
}

/// Why an addition is refused.
pub open spec fn addition_refused(
    name: Seq<char>,
    is_folder: bool,
    extension: Seq<char>,
    empty: bool,
    source: Option<PathBuf>,
) -> Option<Seq<char>> {
    if name.len() == 0 {
        Some("Enter a name first."@)
    } else if name.contains('.') {
        Some("Set the file name without an extension."@)
    } else if is_folder {
        None
    } else if empty && extension != "xml"@ && extension != "meta"@ {
        Some("Empty files are only supported for XML and META."@)
    } else if !empty && source is None {
        Some("Choose a file to import first."@)
    } else {
        None
    }
}

/// What the user wants to add: a folder, an empty text, or a file from disk.
pub fn archive_addition(
    name: &str,
    is_folder: bool,
    file_type: u32,
    empty: bool,
    source: Option<PathBuf>,
) -> (r: ArchiveAddition)
    ensures
        match addition_refused(trimmed(name@), is_folder, extension_of(file_type), empty, source) {
            Some(message) => r matches ArchiveAddition::Refused(why) && why@ == message,
            None => if is_folder {
                r matches ArchiveAddition::Folder(given) && given@ == trimmed(name@)
            } else {
                &&& r matches ArchiveAddition::File { file_name, extension, source: from }
                &&& extension@ == extension_of(file_type)
                &&& file_name@ == trimmed(name@) + "."@ + extension_of(file_type)
                &&& from == if empty {
                    None
                } else {
                    source
                }
            },
        },
{
    let name = text::trim(name);
    proof {
        reveal_strlit("");
        if name@.len() == 0 {
            assert(name@ =~= ""@);
        }
    }
    if text::same_text(name.as_str(), "") {
        return ArchiveAddition::Refused("Enter a name first.");
    }
    if text::contains_char(name.as_str(), '.') {
        return ArchiveAddition::Refused("Set the file name without an extension.");
    }
    if is_folder {
        return ArchiveAddition::Folder(name);
    }
    let extension = extension_for(file_type);
    let mut file_name = name;
    file_name.append(".");
    file_name.append(extension);
    if empty {
        if !text::same_text(extension, "xml") && !text::same_text(extension, "meta") {
            return ArchiveAddition::Refused("Empty files are only supported for XML and META.");
        }
        return ArchiveAddition::File { file_name, extension, source: None };
    }
    match source {
        Some(path) => ArchiveAddition::File { file_name, extension, source: Some(path) },
        None => ArchiveAddition::Refused("Choose a file to import first."),
    }
}

impl App {
    /// Remembers the folder of an asset that was chosen.
    pub fn remember_asset_dir(&mut self, path: &Path)
        ensures
            *final(self) == (App {
                last_asset_dir: final(self).last_asset_dir,
                config: AppConfig {
                    last_asset_dir: final(self).last_asset_dir,
                    ..old(self).config
                },
                ..*old(self)
            }),
            opt_bytes(final(self).last_asset_dir) == parent_bytes(path.bytes()),
            old(self).well_formed() ==> final(self).well_formed(),
    {
        let folder = paths::parent(path);
        self.config.last_asset_dir = folder.clone();
        self.last_asset_dir = folder;
    }

    /// Remembers the folder of an image that was chosen.
    pub fn remember_image_dir(&mut self, path: &Path)
        ensures
            *final(self) == (App {
                last_image_dir: final(self).last_image_dir,
                config: AppConfig {
                    last_image_dir: final(self).last_image_dir,
                    ..old(self).config
                },
                ..*old(self)
            }),
            opt_bytes(final(self).last_image_dir) == parent_bytes(path.bytes()),
            old(self).well_formed() ==> final(self).well_formed(),
    {
        let folder = paths::parent(path);
        self.config.last_image_dir = folder.clone();
        self.last_image_dir = folder;
    }

    /// Remembers the folder that was chosen for copies, which becomes their destination.
    pub fn remember_copy_dir(&mut self, folder: PathBuf)
        ensures
            *final(self) == (App {
                last_copy_dir: Some(folder),
                config: AppConfig {
                    last_copy_dir: Some(folder),
                    copy_destination: final(self).config.copy_destination,
                    ..old(self).config
                },
                ..*old(self)
            }),
            final(self).config.copy_destination@ == shown_path(folder.bytes()),
            old(self).well_formed() ==> final(self).well_formed(),
    {
        self.config.copy_destination = paths::shown(folder.as_path());
        self.config.last_copy_dir = Some(folder.clone());
        self.last_copy_dir = Some(folder);
    }
}

/// Whether an editor for what is selected was opened as it should be; `text` is what the file of
/// a selected text holds.
pub open spec fn editor_opened(before: App, text: String, after: App, opened: bool) -> bool {
    match before.current_text() {
        Some((a, e)) => {
            &&& opened
            &&& after == (App { editor: None, text_editor: after.text_editor, ..before })
            &&& after.text_editor matches Some(editing)
            &&& editing.asset_index == a
            &&& editing.entry_path == before.assets@[a].archive_entries@[e].entry_path
            &&& editing.draft_text == text
            &&& editing.validation_message is None
        },
        None => if before.selected_asset is None {
            !opened && said(before, after, "Select a package first."@)
        } else if before.selected_texture is None {
            !opened && said(before, after, "Select a texture first."@)
        } else {
            match before.current_slot() {
                None => !opened && after == before,
                Some((a, e, t)) => {
                    let format = crate::browse::texture_in(before.assets@[a], e, t).format@;
                    if !format.writable() {
                        !opened && said(
                            before,
                            after,
                            format.label() + " is not yet writable by the app."@,
                        )
                    } else {
                        &&& opened
                        &&& after == (App { editor: after.editor, text_editor: None, ..before })
                        &&& after.editor matches Some(editing)
                        &&& editing.asset_index == a
                        &&& editing.texture_index == t
                        &&& editing.entry_path == if e is Some {
                            before.assets@[a].archive_selected_file
                        } else {
                            None
                        }
                        &&& editing.root@ == crate::sections::blank(1)
                        &&& editing.next_section_id == 2
                    }
                },
            }
        },
    }
}

impl App {
    fn open_text_editor(&mut self, asset_index: usize, entry_path: String, text: String)
        ensures
            *final(self) == (App {
                editor: None,
                text_editor: final(self).text_editor,
                ..*old(self)
            }),
            final(self).text_editor == Some(
                TextEditorState {
                    asset_index,
                    entry_path,
                    draft_text: text,
                    validation_message: None,
                },
            ),
            old(self).well_formed() ==> final(self).well_formed(),
    {
        self.editor = None;
        self.text_editor = Some(
            TextEditorState {
                asset_index,
                entry_path,
                draft_text: text,
                validation_message: None,
            },
        );
    }

    /// Opens an editor for what is selected; tells whether the editor is shown then.
    pub fn open_editor_page(&mut self, text: String) -> (r: bool)
        ensures
            editor_opened(*old(self), text, *final(self), r),
            old(self).well_formed() ==> final(self).well_formed(),
    {
        let entry_path = match self.current_archive_text_entry() {
            Some(entry) => Some(entry.entry_path.clone()),
            None => None,
        };
        if let Some(path) = entry_path {
            if let Some(a) = self.selected_asset {
                self.open_text_editor(a, path, text);
                return true;
            }
            return false;
        }
        let a: usize = match self.selected_asset {
            Some(a) => a,
            None => {
                self.set_status("Select a package first.".to_owned());
                return false;
            },
        };
        let t: usize = match self.selected_texture {
            Some(t) => t,
            None => {
                self.set_status("Select a texture first.".to_owned());
                return false;
            },
        };
        let mut refusal: Option<String> = None;
        match self.current_texture_entry() {
            Some(texture) => {
                if !texture.format.supported_for_write() {
                    let mut message = texture.format.label().to_owned();
                    message.append(" is not yet writable by the app.");
                    refusal = Some(message);
                }
            },
            None => {
                return false;
            },
        }
        if let Some(message) = refusal {
            self.set_status(message);
            return false;
        }
        let entry_path = self.active_archive_entry_path(a);
        self.editor = Some(EditorState::new(a, entry_path, t));
        self.text_editor = None;
        true
    }

    /// Leaves the editors.
    pub fn close_editor_page(&mut self)
        ensures
            *final(self) == (App { editor: None, text_editor: None, ..*old(self) }),
            old(self).well_formed() ==> final(self).well_formed(),
    {
        self.editor = None;
        self.text_editor = None;
    }

    /// Takes in the text as the user left it.
    pub fn sync_text_editor_from_buffer(&mut self, draft: String)
        ensures
            *final(self) == (App {
                text_editor: match old(self).text_editor {
                    Some(editing) => Some(
                        TextEditorState { draft_text: draft, validation_message: None, ..editing },
                    ),
                    None => None,
                },
                ..*old(self)
            }),
            old(self).well_formed() ==> final(self).well_formed(),
    {
        if let Some(editing) = &mut self.text_editor {
            editing.draft_text = draft;
            editing.validation_message = None;
        }
    }
}

/// Whether it was noted whether a text is valid XML, given the error of parsing it.
pub open spec fn validation_noted(
    before: App,
    draft: String,
    error: Option<Seq<char>>,
    after: App,
) -> bool {
    match before.text_editor {
        None => after == before,
        Some(editing) => {
            &&& after == (App { text_editor: after.text_editor, status: after.status, ..before })
            &&& after.text_editor matches Some(now)
            &&& now == (TextEditorState {
                draft_text: draft,
                validation_message: now.validation_message,
                ..editing
            })
            &&& match error {
                None => opt_text(now.validation_message) == Some("XML is valid."@)
                    && after.status@ == "XML is valid."@,
                Some(why) => opt_text(now.validation_message) == Some(
                    "XML is not valid: "@ + why,
                ) && after.status@ == "XML validation failed: "@ + why,
            }
        },
    }
}

/// The error of a document that could not be parsed.
pub open spec fn parse_error(parsed: Result<Seq<NodeParts>, Seq<char>>) -> Option<Seq<char>> {
    match parsed {
        Ok(_) => None,
        Err(message) => Some(message),
    }
}

impl App {
    fn note(&mut self, note: String, status: String)
        requires
            old(self).text_editor is Some,
        ensures
            *final(self) == (App {
                text_editor: Some(
                    TextEditorState {
                        validation_message: Some(note),
                        ..old(self).text_editor->0
                    },
                ),
                status,
                ..*old(self)
            }),
            old(self).well_formed() ==> final(self).well_formed(),
    {
        if let Some(editing) = &mut self.text_editor {
            editing.validation_message = Some(note);
        }
        self.status = status;
    }

    /// Takes in the text as the user left it, and notes whether it is valid XML, given the error
    /// of parsing it.
    pub fn note_validation(&mut self, draft: String, error: Option<String>)
        ensures
            validation_noted(*old(self), draft, opt_text(error), *final(self)),
            old(self).well_formed() ==> final(self).well_formed(),
    {
        if self.text_editor.is_none() {
            return ;
        }
        self.sync_text_editor_from_buffer(draft);
        match error {
            None => {
                self.note("XML is valid.".to_owned(), "XML is valid.".to_owned());
            },
            Some(why) => {
                let mut note = "XML is not valid: ".to_owned();
                note.append(why.as_str());
                let mut status = "XML validation failed: ".to_owned();
                status.append(why.as_str());
                self.note(note, status);
            },
        }
    }

    /// Takes in the text as the user left it, and notes whether it is valid XML.
    pub fn validate_text_editor(&mut self, draft: String)
        requires
            open_at_most(draft@, DEEPEST_NESTING as nat),
        ensures
            validation_noted(*old(self), draft, parse_error(parsed_xml(draft@)), *final(self)),
            old(self).well_formed() ==> final(self).well_formed(),
    {
        let error = match parse_xml(draft.as_str()) {
            Ok(_) => None,
            Err(message) => Some(message),
        };
        self.note_validation(draft, error);
    }
}

/// What keeps the edited text from being saved, as far as the user is told.
pub open spec fn text_target(app: App) -> Result<PathBuf, Option<Seq<char>>> {
    match app.text_editor {
        None => Err(None),
        Some(editing) => if editing.asset_index >= app.assets@.len() {
            Err(None)
        } else {
            let asset = app.assets@[editing.asset_index as int];
            match asset.entry(editing.entry_path@) {
                None => Err(Some("The selected XML entry is no longer available."@)),
                Some(e) => match asset.archive_entries@[e].staged_file() {
                    None => Err(Some("This entry cannot be edited as XML."@)),
                    Some(path) => Ok(path),
                },
            }
        },
    }
}

/// Whether an entry has staged changes once the given text was saved: where it is new, or where
/// its text differs from the one in the archive.
pub open spec fn differs(entry: ImportedArchiveEntry, draft: Seq<char>) -> bool {
    entry.added || draft != match entry.text_before() {
        Some(text) => text@,
        None => Seq::empty(),
    }
}

/// Whether the text of an entry was saved.
pub open spec fn text_staged(
    before: ImportedAsset,
    after: ImportedAsset,
    e: int,
    draft: Seq<char>,
) -> bool {
    let dirty = differs(before.archive_entries@[e], draft);
    exists|mid: ImportedAsset| #[trigger]
        entry_dirtied(before, mid, e, dirty) && after == mid.synced()
}

/// Whether the flag of one entry was set.
pub open spec fn entry_dirtied(
    before: ImportedAsset,
    after: ImportedAsset,
    e: int,
    dirty: bool,
) -> bool {
    &&& after == (ImportedAsset { archive_entries: after.archive_entries, ..before })
    &&& after.archive_entries@ == before.archive_entries@.update(
        e,
        ImportedArchiveEntry { dirty, ..before.archive_entries@[e] },
    )
}

impl ImportedAsset {
    fn stage_text(&mut self, e: usize, draft: &str)
        requires
            e < old(self).archive_entries@.len(),
        ensures
            text_staged(*old(self), *final(self), e as int, draft@),
    {
        let entry = &self.archive_entries[e];
        let same = match entry.original_text() {
            Some(original) => text::same_text(draft, original.as_str()),
            None => {
                proof {
                    reveal_strlit("");
                    if draft@.len() == 0 {
                        assert(draft@ =~= ""@);
                    }
                    assert(""@ =~= Seq::<char>::empty());
                }
                text::same_text(draft, "")
            },
        };
        let dirty = entry.added || !same;
        self.archive_entries[e].dirty = dirty;
        let ghost mid = *self;
        assert(dirty == differs(old(self).archive_entries@[e as int], draft@));
        assert(entry_dirtied(*old(self), mid, e as int, dirty));
        self.sync_archive_dirty();
    }
}

impl App {
    /// Takes in the text as the user left it; gives the file that it is to be written to.
    pub fn begin_save_text(&mut self, draft: String) -> (r: Option<PathBuf>)
        ensures
            ({
                let synced = App {
                    text_editor: match old(self).text_editor {
                        Some(editing) => Some(
                            TextEditorState {
                                draft_text: draft,
                                validation_message: None,
                                ..editing
                            },
                        ),
                        None => None,
                    },
                    ..*old(self)
                };
                match text_target(synced) {
                    Ok(path) => r == Some(path) && *final(self) == synced,
                    Err(None) => r is None && *final(self) == synced,
                    Err(Some(message)) => r is None && said(synced, *final(self), message),
                }
            }),
            old(self).well_formed() ==> final(self).well_formed(),
    {
        self.sync_text_editor_from_buffer(draft);
        let refusal = match &self.text_editor {
            None => {
                return None;
            },
            Some(editing) => {
                if editing.asset_index >= self.assets.len() {
                    return None;
                }
                match self.assets[editing.asset_index].find_archive_entry(
                    editing.entry_path.as_str(),
                ) {
                    None => "The selected XML entry is no longer available.",
                    Some(entry) => match entry.text_source_path() {
                        None => "This entry cannot be edited as XML.",
                        Some(path) => {
                            return Some(path.clone());
                        },
                    },
                }
            },
        };
        self.set_status(refusal.to_owned());
        None
    }

    /// Notes how writing the edited text went; gives what the user is told.
    pub fn save_text_editor(&mut self, written: Result<(), String>) -> (r: Option<String>)
        requires
            text_target(*old(self)) is Ok,
        ensures
            match written {
                Err(error) => r is None && said(
                    *old(self),
                    *final(self),
                    "Failed to save staged XML: "@ + error@,
                ),
                Ok(_) => {
                    let editing = old(self).text_editor->0;
                    let a = editing.asset_index as int;
                    let e = old(self).assets@[a].entry(editing.entry_path@)->0;
                    let title = old(self).assets@[a].archive_entries@[e].title@;
                    let now = final(self).text_editor->0;
                    &&& opt_text(r) == Some("Staged XML saved for "@ + title + "."@)
                    &&& *final(self) == (App {
                        assets: final(self).assets,
                        text_editor: Some(now),
                        status: final(self).status,
                        ..*old(self)
                    })
                    &&& now == (TextEditorState {
                        validation_message: now.validation_message,
                        ..editing
                    })
                    &&& opt_text(now.validation_message) == Some("Staged XML saved for rebuild."@)
                    &&& final(self).status@ == "Saved staged XML for "@ + title
                    &&& final(self).assets@ == old(self).assets@.update(a, final(self).assets@[a])
                    &&& text_staged(
                        old(self).assets@[a],
                        final(self).assets@[a],
                        e,
                        editing.draft_text@,
                    )
                },
            },
            old(self).well_formed() ==> final(self).well_formed(),
    {
        if let Err(error) = written {
            let mut message = "Failed to save staged XML: ".to_owned();
            message.append(error.as_str());
            self.set_status(message);
            return None;
        }
        let (a, path, draft) = match &self.text_editor {
            Some(editing) => (
                editing.asset_index,
                editing.entry_path.clone(),
                editing.draft_text.clone(),
            ),
            None => {
                return None;
            },
        };
        let e: usize = match self.assets[a].entry_position(path.as_str()) {
            Some(e) => e,
            None => {
                return None;
            },
        };
        let title = self.assets[a].archive_entries[e].title.clone();
        let ghost before = self.assets@;
        self.assets[a].stage_text(e, draft.as_str());
        assert(self.assets@ =~= before.update(a as int, self.assets@[a as int]));
        let mut status = "Saved staged XML for ".to_owned();
        status.append(title.as_str());
        self.note("Staged XML saved for rebuild.".to_owned(), status);
        let mut toast = "Staged XML saved for ".to_owned();
        toast.append(title.as_str());
        toast.append(".");
        Some(toast)
    }
}

/// Saving a text that equals the one in the archive leaves an old entry without staged changes.
pub proof fn an_unchanged_text_stages_nothing(
    before: ImportedAsset,
    after: ImportedAsset,
    e: int,
    draft: Seq<char>,
)
    requires
        0 <= e < before.archive_entries@.len(),
        text_staged(before, after, e, draft),
        !before.archive_entries@[e].added,
        before.archive_entries@[e].text_before() matches Some(text) && text@ == draft,
    ensures
        !after.archive_entries@[e].dirty,
{
}

/// One copy of a file into a folder.
pub struct CopyStep {
    pub target: PathBuf,
    pub failure: String,
}

/// How a file is copied into a folder.
pub fn copy_into_directory(source: &Path, target_dir: &Path) -> (r: Result<CopyStep, String>)
    ensures
        match (r, file_name_bytes(source.bytes())) {
            (Ok(step), Some(name)) => step.target.bytes() == joined_bytes(target_dir.bytes(), name)
                && step.failure@ == "Failed to copy "@ + shown_path(source.bytes()) + " into "@
                + shown_path(target_dir.bytes()),
            (Err(message), None) => message@ == "Source file does not contain a file name"@,
            _ => false,
        },
{
    match paths::file_name_path(source) {
        Some(name) => {
            let mut failure = "Failed to copy ".to_owned();
            failure.append(paths::shown(source).as_str());
            failure.append(" into ");
            failure.append(paths::shown(target_dir).as_str());
            Ok(CopyStep { target: paths::join_path(target_dir, name.as_path()), failure })
        },
        None => Err("Source file does not contain a file name".to_owned()),
    }
}

impl App {
    /// The folder that files are imported into, given whether it exists.
    pub fn import_files_into_selected_mod_directory(
        &mut self,
        is_dir: bool,
        files: &Vec<PathBuf>,
    ) -> (r: Option<PathBuf>)
        ensures
            if !is_dir || old(self).browsed() is None {
                r is None && said(
                    *old(self),
                    *final(self),
                    "Select a folder in the left pane first."@,
                )
            } else {
                *final(self) == *old(self) && r == if files@.len() == 0 {
                    None
                } else {
                    old(self).browsed()
                }
            },
            old(self).well_formed() ==> final(self).well_formed(),
    {
        let target = match self.selected_mod_directory(is_dir) {
            Some(path) => path.clone(),
            None => {
                self.set_status("Select a folder in the left pane first.".to_owned());
                return None;
            },
        };
        if files.len() == 0 {
            return None;
        }
        Some(target)
    }

    /// Notes how importing files went; gives what the user is told.
    pub fn files_imported(&mut self, target_dir: &Path, result: Result<usize, String>) -> (r: Option<
        String,
    >)
        ensures
            match result {
                Ok(count) => opt_text(r) == Some(
                    "Imported "@ + decimal(count as nat) + " file(s)."@,
                ) && said(
                    *old(self),
                    *final(self),
                    "Imported "@ + decimal(count as nat) + " file(s) into "@ + shown_path(
                        target_dir.bytes(),
                    ),
                ),
                Err(error) => r is None && said(
                    *old(self),
                    *final(self),
                    "Folder import failed: "@ + error@,
                ),
            },
            old(self).well_formed() ==> final(self).well_formed(),
    {
        match result {
            Ok(count) => {
                let number = text::show(count as u64);
                let mut status = "Imported ".to_owned();
                status.append(number.as_str());
                status.append(" file(s) into ");
                status.append(paths::shown(target_dir).as_str());
                self.set_status(status);
                let mut toast = "Imported ".to_owned();
                toast.append(number.as_str());
                toast.append(" file(s).");
                Some(toast)
            },
            Err(error) => {
                let mut status = "Folder import failed: ".to_owned();
                status.append(error.as_str());
                self.set_status(status);
                None
            },
        }
    }
}

/// A new item lies in the folder that it was added to, under its name in lower case: the folder of its
/// path is that folder.
pub proof fn a_new_item_lies_in_its_folder(parent: Seq<char>, name: Seq<char>, folder: Tree)
    requires
        !name.contains('\\'),
    ensures
        crate::archive::folder_of(item_path(parent, name)) == Some(parent),
        item_path(parent, name).skip(parent.len() as int + 1) == lower(name),
        item_node(folder, name, RpfTreeNodeKind::File, ArchiveContentKind::File).path == item_path(
            folder.path,
            name,
        ),
        item_node(folder, name, RpfTreeNodeKind::File, ArchiveContentKind::File).name == name,
        item_node(
            folder,
            name,
            RpfTreeNodeKind::File,
            ArchiveContentKind::File,
        ).display_path.take(folder.display_path.len() as int) == folder.display_path,
        crate::text::ends(
            item_node(
                folder,
                name,
                RpfTreeNodeKind::File,
                ArchiveContentKind::File,
            ).display_path,
            name,
        ),
        item_node(
            folder,
            name,
            RpfTreeNodeKind::File,
            ArchiveContentKind::File,
        ).children.len() == 0,
{
    reveal_strlit("\\");
    let low = lower(name);
    assert("\\"@ =~= seq!['\\']);
    let place = item_node(
        folder,
        name,
        RpfTreeNodeKind::File,
        ArchiveContentKind::File,
    ).display_path;
    assert(place.take(folder.display_path.len() as int) =~= folder.display_path);
    assert(place.subrange(place.len() - name.len(), place.len() as int) =~= name);
    assert(item_path(parent, name) =~= parent.push('\\') + low);
    assert(!low.contains('\\')) by {
        if low.contains('\\') {
            let k = choose|k: int| 0 <= k < low.len() && low[k] == '\\';
            crate::text::only_capitals_are_lowered(name, k);
            if 'A' <= name[k] <= 'Z' {
                assert(low[k] as u32 >= 97);
            }
            assert(name[k] == '\\');
        }
    }
    crate::archive::an_entry_lies_in_its_folder(item_path(parent, name), parent, low);
    assert(item_path(parent, name).skip(parent.len() as int + 1) =~= low);
}

/// A file that was staged is added when the archive is rebuilt: in the folder that it was staged in,
/// under the name that was given and with the content that was staged.
pub proof fn a_staged_file_is_added(
    before: ImportedAsset,
    after: ImportedAsset,
    parent: Seq<char>,
    name: Seq<char>,
    content_kind: ArchiveContentKind,
    source: PathBuf,
    text: Result<String, String>,
)
    requires
        file_staged(before, after, parent, name, content_kind, source, text),
        !name.contains('\\'),
    ensures
        entry_step(after.archive_entries@.last()) == Some(
            BuildStep::AddRawFile { parent_path: parent, name, source: source.bytes() },
        ),
        after.staged() && after.dirty,
        entry_steps(after.archive_entries@) == entry_steps(before.archive_entries@).push(
            BuildStep::AddRawFile { parent_path: parent, name, source: source.bytes() },
        ),
        after.pending_archive_folders == before.pending_archive_folders,
        after.textures == before.textures,
        content_kind is XmlText ==> (after.archive_entries@.last().text_before() matches Some(own)
            && text == Ok::<String, String>(own)),
        after.archive_selected_file matches Some(file) && file@
            == after.archive_entries@.last().entry_path@ && after.archive_file_notice is None,
        after.archive_entries@.last().shown_as_text() <==> content_kind is XmlText,
{
    let entry = after.archive_entries@.last();
    a_new_item_lies_in_its_folder(parent, name, before.node(parent)->0);
    assert(after.archive_entries@[after.archive_entries@.len() - 1].dirty);
}

/// A folder that was staged is added when the archive is rebuilt, in the folder that it was staged in
/// and under the name that was given.
pub proof fn a_staged_folder_is_added(
    before: ImportedAsset,
    after: ImportedAsset,
    parent: Seq<char>,
    name: Seq<char>,
)
    requires
        folder_staged(before, after, parent, name),
        !name.contains('\\'),
    ensures
        ({
            let folder = after.pending_archive_folders@.last();
            crate::archive::folder_of(folder.path@) == Some(parent) && folder.name@ == name
        }),
        after.staged() && after.dirty,
        after.archive_entries == before.archive_entries,
        after.pending_archive_folders@.drop_last() == before.pending_archive_folders@,
{
    a_new_item_lies_in_its_folder(parent, name, before.node(parent)->0);
}

/// A folder is refused where it has no name, where the name holds a separator, where nothing is open or
/// where the name is taken; any other is accepted.
pub proof fn only_a_free_plain_name_is_accepted(app: App, name: Seq<char>)
    ensures
        name.len() == 0 ==> app.folder_refused(name) is Some,
        name.contains('\\') || name.contains('/') ==> app.folder_refused(name) is Some,
        app.archive_target() is None ==> app.folder_refused(name) is Some && app.item_refused(
            name,
        ) is Some,
        app.archive_target() matches Some((a, parent)) ==> (app.assets@[a].node(
            item_path(parent, name),
        ) is Some ==> app.folder_refused(name) is Some && app.item_refused(name) is Some),
        app.archive_target() matches Some((a, parent)) ==> (app.assets@[a].node(
            item_path(parent, name),
        ) is None && app.assets@[a].node(parent) is Some ==> app.item_refused(name) is None),
        app.item_refused(name) is None && name.len() > 0 && !name.contains('\\') && !name.contains(
            '/',
        ) ==> app.folder_refused(name) is None,
{
}

/// New items go to the current folder of the selected archive, or to its root where none is current.
pub proof fn new_items_go_to_the_current_folder(app: App)
    ensures
        app.archive_target() matches Some((a, parent)) ==> {
            &&& app.selected_asset == Some(a as usize) && 0 <= a < app.assets@.len()
            &&& app.assets@[a].kind is Rpf
            &&& app.assets@[a].archive_current_path matches Some(path) ==> parent == path@
            &&& app.assets@[a].archive_current_path is None ==> app.assets@[a].root() == Some(parent)
        },
        app.selected_asset matches Some(a) ==> (a < app.assets@.len() && app.assets@[
            a as int
        ].kind is Rpf && app.assets@[a as int].archive_current_path is Some
            ==> app.archive_target() is Some),
{
}

/// The types of the dialog differ, and each stands for the content that its extension has: texts first
/// and by default, then the files with textures, then packages.
pub proof fn each_file_type_has_its_extension(a: u32, b: u32)
    ensures
        a != b && a < 6 && b < 6 ==> extension_of(a) != extension_of(b),
        a >= 6 ==> extension_of(a) == extension_of(0),
        content_of_extension(extension_of(a)) is XmlText <==> a < 2 || a >= 6,
        content_of_extension(extension_of(a)) is TextureAsset <==> 2 <= a < 5,
        content_of_extension(extension_of(a)) is Package <==> a == 5,
{
    reveal_strlit("meta");
    reveal_strlit("ydr");
    reveal_strlit("yft");
    reveal_strlit("ytd");
    reveal_strlit("rpf");
    reveal_strlit("xml");
    assert("ydr"@[1] == 'd' && "yft"@[1] == 'f' && "ytd"@[1] == 't' && "rpf"@[1] == 'p');
    assert("xml"@[1] == 'm' && "xml"@.len() == 3 && "meta"@.len() == 4);
    assert("ydr"@.len() == 3 && "yft"@.len() == 3 && "ytd"@.len() == 3 && "rpf"@.len() == 3);
    assert(lower("meta"@) =~= "meta"@);
    assert(lower("ydr"@) =~= "ydr"@);
    assert(lower("yft"@) =~= "yft"@);
    assert(lower("ytd"@) =~= "ytd"@);
    assert(lower("rpf"@) =~= "rpf"@);
    assert(lower("xml"@) =~= "xml"@);
}

/// An addition is accepted exactly when it has a name without an extension and, where it is a file,
/// something to add: a file that was chosen, or nothing at all for a text.
pub proof fn an_addition_needs_a_name_and_a_content(
    name: Seq<char>,
    is_folder: bool,
    extension: Seq<char>,
    empty: bool,
    source: Option<PathBuf>,
)
    ensures
        addition_refused(name, is_folder, extension, empty, source) is None <==> name.len() > 0
            && !name.contains('.') && (is_folder || (empty && (extension == "xml"@ || extension
            == "meta"@)) || (!empty && source is Some)),
{
}

/// An editor opens exactly when what is selected can be edited, and then only the one for it: that of the
/// selected text with what its file holds, or that of the selected texture with one section and no image.
pub proof fn an_editor_opens_for_what_can_be_edited(
    before: App,
    text: String,
    after: App,
    opened: bool,
)
    requires
        before.well_formed(),
        editor_opened(before, text, after, opened),
    ensures
        opened <==> before.editable(),
        opened && before.current_text() is Some ==> after.editor is None && (
        after.text_editor matches Some(editing) && editing.draft_text == text),
        opened && before.current_text() is None ==> after.text_editor is None && (
        after.editor matches Some(editing) && editing.root@.missing() == 1),
        !opened ==> after.editor == before.editor && after.text_editor == before.text_editor,
        after.assets == before.assets,
{
}

/// A text is told as valid exactly when parsing it gave no error; the text as the user left it is kept
/// either way.
pub proof fn a_text_is_valid_when_it_parses(
    before: App,
    draft: String,
    parsed: Result<Seq<NodeParts>, Seq<char>>,
    after: App,
)
    requires
        before.text_editor is Some,
        validation_noted(before, draft, parse_error(parsed), after),
    ensures
        after.text_editor matches Some(now) && now.draft_text == draft && now.entry_path
            == before.text_editor->0.entry_path,
        after.status@ == "XML is valid."@ <==> parsed is Ok,
        parsed matches Err(why) ==> crate::text::ends(after.status@, why),
        after.assets == before.assets,
{
    reveal_strlit("XML is valid.");
    reveal_strlit("XML validation failed: ");
    if let Err(why) = parsed {
        let status = after.status@;
        assert(status.subrange(status.len() - why.len(), status.len() as int) =~= why);
        assert("XML is valid."@[4] == 'i' && status[4] == 'v');
    }
}

/// The edited text is saved to the file in which its own entry is staged.
pub proof fn a_text_is_saved_to_its_own_file(app: App)
    ensures
        text_target(app) matches Ok(path) ==> {
            &&& app.text_editor matches Some(editing)
            &&& editing.asset_index < app.assets@.len()
            &&& app.assets@[editing.asset_index as int].entry(editing.entry_path@) matches Some(e)
            &&& app.assets@[editing.asset_index as int].archive_entries@[e].staged_file() == Some(
                path,
            )
        },
        app.text_editor is None ==> text_target(app) is Err,
{
}

/// Saving a text marks its own entry as changed exactly when it differs from the text in the archive or
/// is new; no other entry changes.
pub proof fn a_saved_text_marks_its_entry(
    before: ImportedAsset,
    after: ImportedAsset,
    e: int,
    draft: Seq<char>,
    k: int,
)
    requires
        0 <= e < before.archive_entries@.len(),
        text_staged(before, after, e, draft),
    ensures
        before.archive_entries@[e].text_before() matches Some(own) ==> (
        after.archive_entries@[e].dirty <==> before.archive_entries@[e].added || draft != own@),
        0 <= k < before.archive_entries@.len() && k != e ==> after.archive_entries@[k]
            == before.archive_entries@[k],
        after.archive_entries@[e].data == before.archive_entries@[e].data,
        after.archive_entries@.len() == before.archive_entries@.len(),
        before.kind is Rpf && after.archive_entries@[e].dirty ==> after.dirty,
{
    let dirty = differs(before.archive_entries@[e], draft);
    let mid = choose|mid: ImportedAsset| #[trigger]
        entry_dirtied(before, mid, e, dirty) && after == mid.synced();
    assert(after.archive_entries == mid.archive_entries);
    if before.kind is Rpf && after.archive_entries@[e].dirty {
        assert(any_dirty(mid.archive_entries@));
    }
}

/// A file is refused for the reasons for which any item is, and where it should be a text that cannot be
/// read; that is then told with its path and the reason.
pub proof fn only_a_readable_text_is_accepted(
    app: App,
    name: Seq<char>,
    content_kind: ArchiveContentKind,
    source: PathBuf,
    text: Result<String, String>,
)
    ensures
        app.file_refused(name, content_kind, source, text) is None <==> app.item_refused(
            name,
        ) is None && !(content_kind is XmlText && text is Err),
        !(content_kind is XmlText) || text is Ok ==> app.file_refused(
            name,
            content_kind,
            source,
            text,
        ) == app.item_refused(name),
        app.item_refused(name) is None && content_kind is XmlText ==> (text matches Err(why) ==> (
        app.file_refused(name, content_kind, source, text) matches Some(told) && crate::text::ends(
            told,
            why@,
        ))),
{
    if app.item_refused(name) is None && content_kind is XmlText && text is Err {
        let told = app.file_refused(name, content_kind, source, text)->0;
        let why = (text->Err_0)@;
        assert(told.subrange(told.len() - why.len(), told.len() as int) =~= why);
    }
}

}
