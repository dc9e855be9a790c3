//! What the lists of the browser show: folders and files of the mods folder, and textures.

use crate::app::App;
use crate::browse::asset_at;
use crate::jobs::said;
use crate::order::{key_before, keys_of, numbers, sorted_order, stable_order, Key, SortKey};
use crate::paths::{self, file_name_text, path_class, title_of, PathBytes};
use crate::queue::{save_started, SaveJob};
use crate::text::{self, begins, decimal, ends, lower, occurs, occurs_at, text_before};
use crate::textures::{
    is_supported_mod_asset_path, kind_of, shown_as_asset, size_text, AssetKind, TextureEntry,
};
use std::path::{Path, PathBuf};
use vstd::prelude::*;

verus! {

/// A folder or file that lies in a folder.
pub struct ModEntry {
    pub path: PathBuf,
    pub is_dir: bool,
}

/// Whether an entry of a folder is shown: every folder is, and the files that can be opened.
pub open spec fn listed(entry: ModEntry) -> bool {
    entry.is_dir || shown_as_asset(entry.path.bytes())
}

/// The shown ones of some entries.
pub open spec fn listed_of(entries: Seq<ModEntry>) -> Seq<ModEntry>
    decreases entries.len(),
{
    if entries.len() == 0 {
        Seq::empty()
    } else if listed(entries.last()) {
        listed_of(entries.drop_last()).push(entries.last())
    } else {
        listed_of(entries.drop_last())
    }
}

/// What an entry is ordered by: folders come first, and then the name counts, regardless of case.
pub open spec fn entry_key(entry: ModEntry) -> Key {
    Key {
        rank: if entry.is_dir {
            0
        } else {
            1
        },
        text: match file_name_text(entry.path.bytes()) {
            Some(name) => lower(name),
            None => Seq::empty(),
        },
    }
}

pub open spec fn entry_keys(entries: Seq<ModEntry>) -> Seq<Key> {
    Seq::new(entries.len(), |i: int| entry_key(entries[i]))
}

/// The shown entries of a folder in their order.
pub open spec fn in_order(entries: Seq<ModEntry>) -> Seq<ModEntry> {
    let shown = listed_of(entries);
    let order = stable_order(entry_keys(shown));
    Seq::new(shown.len(), |k: int| shown[order[k]])
}

fn key_for(entry: &ModEntry) -> (r: SortKey)
    ensures
        r@ == entry_key(*entry),
{
    let rank: u64 = if entry.is_dir {
        0
    } else {
        1
    };
    let text = match paths::file_name(entry.path.as_path()) {
        Some(name) => text::chars_of(text::to_lower(name.as_str()).as_str()),
        None => Vec::new(),
    };
    SortKey { rank, text }
}

fn shown_among(found: &Vec<ModEntry>) -> (r: Vec<ModEntry>)
    ensures
        r@ == listed_of(found@),
{
    let mut shown: Vec<ModEntry> = Vec::new();
    let mut i: usize = 0;
    while i < found.len()
        invariant
            0 <= i <= found@.len(),
            shown@ == listed_of(found@.take(i as int)),
        decreases found@.len() - i,
    {
        proof {
            assert(found@.take(i + 1).drop_last() =~= found@.take(i as int));
            assert(found@.take(i + 1).last() == found@[i as int]);
        }
        let entry = &found[i];
        if entry.is_dir || is_supported_mod_asset_path(entry.path.as_path()) {
            shown.push(ModEntry { path: entry.path.clone(), is_dir: entry.is_dir });
        }
        i += 1;
    }
    assert(found@.take(found@.len() as int) =~= found@);
    shown
}

/// The shown entries of a folder in their order, given all that was found in the folder.
pub fn read_mod_tree_entries(found: &Vec<ModEntry>) -> (r: Vec<ModEntry>)
    ensures
        r@ == in_order(found@),
{
    let shown = shown_among(found);
    let mut keys: Vec<SortKey> = Vec::new();
    let mut i: usize = 0;
    while i < shown.len()
        invariant
            0 <= i <= shown@.len(),
            keys@.len() == i,
            forall|j: int| 0 <= j < i ==> (#[trigger] keys@[j])@ == entry_key(shown@[j]),
        decreases shown@.len() - i,
    {
        keys.push(key_for(&shown[i]));
        i += 1;
    }
    assert(keys_of(keys@) =~= entry_keys(shown@));
    let order = sorted_order(&keys);
    let mut out: Vec<ModEntry> = Vec::new();
    let mut k: usize = 0;
    while k < order.len()
        invariant
            0 <= k <= order@.len(),
            order@.len() == shown@.len(),
            shown@ == listed_of(found@),
            numbers(order@) == stable_order(entry_keys(shown@)),
            forall|j: int| 0 <= j < order@.len() ==> #[trigger] order@[j] < shown@.len(),
            out@.len() == k,
            forall|j: int| 0 <= j < k ==> #[trigger] out@[j] == in_order(found@)[j],
        decreases order@.len() - k,
    {
        let at: usize = order[k];
        assert(numbers(order@)[k as int] == at as int);
        out.push(ModEntry { path: shown[at].path.clone(), is_dir: shown[at].is_dir });
        k += 1;
    }
    assert(out@ =~= in_order(found@));
    out
}

/// In a list, every folder stands before every file, and folders and files each go by their names.
pub proof fn folders_are_listed_first(entries: Seq<ModEntry>, a: int, b: int)
    requires
        0 <= a < b < in_order(entries).len(),
    ensures
        in_order(entries)[b].is_dir ==> in_order(entries)[a].is_dir,
        in_order(entries)[a].is_dir == in_order(entries)[b].is_dir ==> !crate::text::text_before(
            entry_key(in_order(entries)[b]).text,
            entry_key(in_order(entries)[a]).text,
        ),
{
    let shown = listed_of(entries);
    let keys = entry_keys(shown);
    crate::order::the_order_is_stable(keys, keys.len() as int);
    let order = stable_order(keys);
    assert(0 <= order[a] < shown.len());
    assert(0 <= order[b] < shown.len());
    assert(keys[order[a]] == entry_key(shown[order[a]]));
    assert(keys[order[b]] == entry_key(shown[order[b]]));
}

/// A folder is listed exactly when it was found, and a file when it was found and can be opened.
pub proof fn listed_entries_were_found(entries: Seq<ModEntry>, entry: ModEntry)
    ensures
        in_order(entries).contains(entry) <==> entries.contains(entry) && listed(entry),
{
    let shown = listed_of(entries);
    let keys = entry_keys(shown);
    lemma_listed(entries, entry);
    crate::order::the_order_is_stable(keys, keys.len() as int);
    let order = stable_order(keys);
    if in_order(entries).contains(entry) {
        let k = choose|k: int| 0 <= k < in_order(entries).len() && in_order(entries)[k] == entry;
        assert(0 <= order[k] < shown.len());
        assert(shown[order[k]] == entry);
    }
    if shown.contains(entry) {
        let i = choose|i: int| 0 <= i < shown.len() && shown[i] == entry;
        assert(order.contains(i));
        let k = choose|k: int| 0 <= k < order.len() && order[k] == i;
        assert(in_order(entries)[k] == entry);
    }
}

proof fn lemma_listed(entries: Seq<ModEntry>, entry: ModEntry)
    ensures
        listed_of(entries).contains(entry) <==> entries.contains(entry) && listed(entry),
    decreases entries.len(),
{
    if entries.len() > 0 {
        let rest = entries.drop_last();
        let last = entries.last();
        lemma_listed(rest, entry);
        assert(entries =~= rest.push(last));
        if entries.contains(entry) {
            let i = choose|i: int| 0 <= i < entries.len() && entries[i] == entry;
            if i < rest.len() {
                assert(rest[i] == entry);
            }
        }
        if rest.contains(entry) {
            let i = choose|i: int| 0 <= i < rest.len() && rest[i] == entry;
            assert(entries[i] == entry);
        }
        assert(entries[entries.len() - 1] == last);
        if listed(last) {
            let before = listed_of(rest);
            assert(listed_of(entries) == before.push(last));
            assert(before.push(last)[before.len() as int] == last);
            if before.contains(entry) {
                let i = choose|i: int| 0 <= i < before.len() && before[i] == entry;
                assert(before.push(last)[i] == entry);
            }
            if before.push(last).contains(entry) {
                let i = choose|i: int|
                    0 <= i < before.push(last).len() && before.push(last)[i] == entry;
                if i < before.len() {
                    assert(before[i] == entry);
                }
            }
        }
    }
}

/// A row for a folder or file of the mods folder.
pub struct ModRow {
    pub path: PathBuf,
    pub label: String,
    pub selected: bool,
    pub kind: ModRowKind,
}

/// What a row stands for.
#[derive(Clone, Copy, PartialEq, Eq, Structural)]
pub enum ModRowKind {
    Folder { expanded: bool },
    File { can_save: bool },
}

/// What a row shows.
pub struct ModRowParts {
    pub path: PathBuf,
    pub label: Seq<char>,
    pub selected: bool,
    pub kind: ModRowKind,
}

impl View for ModRow {
    type V = ModRowParts;

    open spec fn view(&self) -> ModRowParts {
        ModRowParts {
            path: self.path,
            label: self.label@,
            selected: self.selected,
            kind: self.kind,
        }
    }
}

/// What rows show.
pub open spec fn mod_row_parts(rows: Seq<ModRow>) -> Seq<ModRowParts> {
    Seq::new(rows.len(), |i: int| rows[i]@)
}

/// Whether a path is the chosen one.
pub open spec fn chosen(choice: Option<PathBuf>, path: Seq<u8>) -> bool {
    choice matches Some(other) && path_class(other.bytes()) == path_class(path)
}

fn is_chosen(choice: &Option<PathBuf>, path: &Path) -> (r: bool)
    ensures
        r == chosen(*choice, path.bytes()),
{
    match choice {
        Some(other) => paths::same_path(other.as_path(), path),
        None => false,
    }
}

impl App {
    /// Whether a file has changes that were not saved.
    pub open spec fn unsaved(self, path: Seq<u8>) -> bool {
        asset_at(self.assets@, path_class(path)) matches Some(i) && self.assets@[i].dirty
    }

    /// Whether a file is selected.
    pub open spec fn file_selected(self, path: Seq<u8>) -> bool {
        ||| (asset_at(self.assets@, path_class(path)) matches Some(i) && (
        self.selected_asset matches Some(a) && a == i))
        ||| chosen(self.selected_mod_path, path)
    }

    /// What the row of a file says.
    pub open spec fn file_label(self, path: Seq<u8>, kind: AssetKind) -> Seq<char> {
        let label = title_of(path) + " ["@ + kind.label_text() + "]"@;
        if self.pending_import_paths@.contains(path_class(path)) {
            label + " (loading...)"@
        } else if self.unsaved(path) {
            label + " *"@
        } else {
            label
        }
    }

    /// The row of a file, where it can be opened.
    pub open spec fn file_row_of(self, path: PathBuf) -> Option<ModRowParts> {
        match kind_of(path.bytes()) {
            Some(kind) => Some(
                ModRowParts {
                    path,
                    label: self.file_label(path.bytes(), kind),
                    selected: self.file_selected(path.bytes()),
                    kind: ModRowKind::File { can_save: self.unsaved(path.bytes()) },
                },
            ),
            None => None,
        }
    }

    /// The row of an entry of a folder in the tree on the left.
    pub open spec fn tree_row_of(self, entry: ModEntry) -> Option<ModRowParts> {
        if entry.is_dir {
            let path = entry.path.bytes();
            Some(
                ModRowParts {
                    path: entry.path,
                    label: title_of(path),
                    selected: chosen(self.browsed(), path),
                    kind: ModRowKind::Folder {
                        expanded: self.mod_tree_expanded_paths@.contains(path_class(path)),
                    },
                },
            )
        } else {
            self.file_row_of(entry.path)
        }
    }

    /// The row of an entry of the folder in the middle.
    pub open spec fn browser_row_of(self, entry: ModEntry) -> Option<ModRowParts> {
        if entry.is_dir {
            let path = entry.path.bytes();
            Some(
                ModRowParts {
                    path: entry.path,
                    label: title_of(path),
                    selected: chosen(self.current_mod_browser_path, path),
                    kind: ModRowKind::Folder { expanded: false },
                },
            )
        } else {
            self.file_row_of(entry.path)
        }
    }

    /// The rows of the folder in the middle.
    pub open spec fn browser_rows_of(self, entries: Seq<ModEntry>) -> Seq<ModRowParts>
        decreases entries.len(),
    {
        if entries.len() == 0 {
            Seq::empty()
        } else {
            let before = self.browser_rows_of(entries.drop_last());
            match self.browser_row_of(entries.last()) {
                Some(row) => before.push(row),
                None => before,
            }
        }
    }
}

/// What a row shows, if there is one.
pub open spec fn opt_row(row: Option<ModRow>) -> Option<ModRowParts> {
    match row {
        Some(shown) => Some(shown@),
        None => None,
    }
}

impl App {
    fn file_row(&self, path: &PathBuf) -> (r: Option<ModRow>)
        ensures
            opt_row(r) == self.file_row_of(*path),
    {
        let kind = match AssetKind::from_path(path.as_path()) {
            Some(kind) => kind,
            None => {
                return None;
            },
        };
        let asset = self.asset_index_for_source_path(path.as_path());
        let dirty = match asset {
            Some(i) => self.assets[i].dirty,
            None => false,
        };
        let opened = match (asset, self.selected_asset) {
            (Some(i), Some(a)) => i == a,
            _ => false,
        };
        let selected = opened || is_chosen(&self.selected_mod_path, path.as_path());
        let mut label = paths::title(path.as_path());
        label.append(" [");
        label.append(kind.label());
        label.append("]");
        if self.pending_import_paths.contains(path.as_path()) {
            label.append(" (loading...)");
        } else if dirty {
            label.append(" *");
        }
        Some(
            ModRow {
                path: path.clone(),
                label,
                selected,
                kind: ModRowKind::File { can_save: dirty },
            },
        )
    }

    /// The row of an entry of a folder in the tree on the left.
    pub fn mod_tree_row(&self, entry: &ModEntry) -> (r: Option<ModRow>)
        ensures
            opt_row(r) == self.tree_row_of(*entry),
    {
        if !entry.is_dir {
            return self.file_row(&entry.path);
        }
        let path = entry.path.as_path();
        let selected = match &self.current_mod_browser_path {
            Some(current) => paths::same_path(current.as_path(), path),
            None => is_chosen(&self.selected_mod_path, path),
        };
        Some(
            ModRow {
                path: entry.path.clone(),
                label: paths::title(path),
                selected,
                kind: ModRowKind::Folder { expanded: self.mod_tree_expanded_paths.contains(path) },
            },
        )
    }

    /// The row of an entry of the folder in the middle.
    pub fn mod_browser_row(&self, entry: &ModEntry) -> (r: Option<ModRow>)
        ensures
            opt_row(r) == self.browser_row_of(*entry),
    {
        if !entry.is_dir {
            return self.file_row(&entry.path);
        }
        Some(
            ModRow {
                path: entry.path.clone(),
                label: paths::title(entry.path.as_path()),
                selected: is_chosen(&self.current_mod_browser_path, entry.path.as_path()),
                kind: ModRowKind::Folder { expanded: false },
            },
        )
    }

    /// The rows of the folder in the middle.
    pub fn mod_browser_rows(&self, entries: &Vec<ModEntry>) -> (r: Vec<ModRow>)
        ensures
            mod_row_parts(r@) == self.browser_rows_of(entries@),
    {
        let mut rows: Vec<ModRow> = Vec::new();
        let mut i: usize = 0;
        assert(mod_row_parts(rows@) =~= self.browser_rows_of(entries@.take(0)));
        while i < entries.len()
            invariant
                0 <= i <= entries@.len(),
                mod_row_parts(rows@) == self.browser_rows_of(entries@.take(i as int)),
            decreases entries@.len() - i,
        {
            proof {
                assert(entries@.take(i + 1).drop_last() =~= entries@.take(i as int));
                assert(entries@.take(i + 1).last() == entries@[i as int]);
            }
            if let Some(row) = self.mod_browser_row(&entries[i]) {
                let ghost before = rows@;
                rows.push(row);
                assert(mod_row_parts(rows@) =~= mod_row_parts(before).push(row@));
            }
            i += 1;
        }
        assert(entries@.take(entries@.len() as int) =~= entries@);
        rows
    }

    /// Starts to save a file of the mods folder.
    pub fn queue_save_file(&mut self, path: &Path) -> (r: Option<SaveJob>)
        requires
            old(self).pending_jobs < usize::MAX,
        ensures
            match asset_at(old(self).assets@, path_class(path.bytes())) {
                Some(i) => save_started(*old(self), i, *final(self), r),
                None => r is None && said(
                    *old(self),
                    *final(self),
                    "Open this file before applying changes."@,
                ),
            },
            old(self).well_formed() ==> final(self).well_formed(),
    {
        match self.asset_index_for_source_path(path) {
            Some(i) => self.queue_save_asset_by_index(i),
            None => {
                self.set_status("Open this file before applying changes.".to_owned());
                None
            },
        }
    }
}

/// A row for a texture.
pub struct TextureRow {
    pub label: String,
    pub details: String,
    pub selected: bool,
    pub modified: bool,
}

/// What a row for a texture shows.
pub struct TextureRowParts {
    pub label: Seq<char>,
    pub details: Seq<char>,
    pub selected: bool,
    pub modified: bool,
}

impl View for TextureRow {
    type V = TextureRowParts;

    open spec fn view(&self) -> TextureRowParts {
        TextureRowParts {
            label: self.label@,
            details: self.details@,
            selected: self.selected,
            modified: self.modified,
        }
    }
}

/// What rows for textures show.
pub open spec fn texture_row_parts(rows: Seq<TextureRow>) -> Seq<TextureRowParts> {
    Seq::new(rows.len(), |i: int| rows[i]@)
}

/// The row of a texture.
pub open spec fn texture_row_of(texture: TextureEntry, selected: bool) -> TextureRowParts {
    TextureRowParts {
        label: texture.name@ + " ("@ + size_text(texture.width, texture.height) + ")"@,
        details: texture.file_name@ + " | "@ + texture.format@.label() + " | "@ + decimal(
            texture.mips as nat,
        ) + " mips"@,
        selected,
        modified: texture.modified,
    }
}

/// The rows of textures of which one may be selected.
pub open spec fn texture_rows_of(textures: Seq<TextureEntry>, selected: Option<usize>) -> Seq<
    TextureRowParts,
> {
    Seq::new(
        textures.len(),
        |i: int| texture_row_of(textures[i], selected matches Some(t) && t == i),
    )
}

/// The row of a texture.
pub fn texture_row(texture: &TextureEntry, selected: bool) -> (r: TextureRow)
    ensures
        r@ == texture_row_of(*texture, selected),
{
    let mut label = texture.name.clone();
    label.append(" (");
    label.append(texture.width_height_label().as_str());
    label.append(")");
    let mut details = texture.file_name.clone();
    details.append(" | ");
    details.append(texture.format.label());
    details.append(" | ");
    details.append(text::show(texture.mips as u64).as_str());
    details.append(" mips");
    TextureRow { label, details, selected, modified: texture.modified }
}

/// The rows of textures of which one may be selected.
pub fn texture_rows(textures: &Vec<TextureEntry>, selected: Option<usize>) -> (r: Vec<TextureRow>)
    ensures
        texture_row_parts(r@) == texture_rows_of(textures@, selected),
{
    let mut rows: Vec<TextureRow> = Vec::new();
    let mut i: usize = 0;
    while i < textures.len()
        invariant
            0 <= i <= textures@.len(),
            rows@.len() == i,
            forall|j: int|
                0 <= j < i ==> (#[trigger] rows@[j])@ == texture_rows_of(textures@, selected)[j],
        decreases textures@.len() - i,
    {
        let here = match selected {
            Some(t) => t == i,
            None => false,
        };
        rows.push(texture_row(&textures[i], here));
        i += 1;
    }
    assert(texture_row_parts(rows@) =~= texture_rows_of(textures@, selected));
    rows
}

proof fn lemma_filtered(entries: Seq<ModEntry>)
    ensures
        listed_of(entries) == entries.filter(|entry: ModEntry| listed(entry)),
    decreases entries.len(),
{
    reveal(Seq::filter);
    if entries.len() > 0 {
        lemma_filtered(entries.drop_last());
    }
}

/// As many entries are listed as can be shown: the folders, and the files that can be opened and are
/// no backups.
pub proof fn each_shown_entry_is_listed_once(entries: Seq<ModEntry>)
    ensures
        in_order(entries).len() == entries.filter(
            |entry: ModEntry| entry.is_dir || shown_as_asset(entry.path.bytes()),
        ).len(),
{
    lemma_filtered(entries);
    let a = |entry: ModEntry| listed(entry);
    let b = |entry: ModEntry| entry.is_dir || shown_as_asset(entry.path.bytes());
    assert(a =~= b);
}

/// The rows of a folder are those of its entries, in their order; a folder has always a row, and a file
/// exactly when it can be opened.
pub proof fn each_entry_has_its_row(app: App, entries: Seq<ModEntry>, entry: ModEntry)
    ensures
        app.browser_rows_of(entries) == entries.filter_map(|e: ModEntry| app.browser_row_of(e)),
        app.browser_row_of(entry) is Some <==> entry.is_dir || kind_of(entry.path.bytes()) is Some,
        app.tree_row_of(entry) is Some <==> app.browser_row_of(entry) is Some,
        app.browser_row_of(entry) matches Some(row) ==> row.path == entry.path && begins(
            row.label,
            title_of(entry.path.bytes()),
        ) && (row.kind is Folder <==> entry.is_dir),
        app.tree_row_of(entry) matches Some(row) ==> row.path == entry.path && begins(
            row.label,
            title_of(entry.path.bytes()),
        ) && (row.kind is Folder <==> entry.is_dir),
        entry.is_dir ==> (app.tree_row_of(entry) matches Some(row) && row.kind
            == (ModRowKind::Folder {
            expanded: app.mod_tree_expanded_paths@.contains(path_class(entry.path.bytes())),
        })),
    decreases entries.len(),
{
    reveal(Seq::filter_map);
    let title = title_of(entry.path.bytes());
    if let Some(row) = app.browser_row_of(entry) {
        assert(row.label.subrange(0, title.len() as int) =~= title);
    }
    if let Some(row) = app.tree_row_of(entry) {
        assert(row.label.subrange(0, title.len() as int) =~= title);
    }
    if entries.len() > 0 {
        each_entry_has_its_row(app, entries.drop_last(), entry);
    }
}

/// The row of a file tells what is open: it can be saved exactly when the file has changes that were not
/// saved, is marked then unless it is still being opened, and names the kind of the file.
pub proof fn a_file_row_tells_unsaved_changes(app: App, path: PathBuf)
    ensures
        app.file_row_of(path) matches Some(row) ==> {
            &&& kind_of(path.bytes()) matches Some(kind)
            &&& row.kind == (ModRowKind::File { can_save: app.unsaved(path.bytes()) })
            &&& row.selected == app.file_selected(path.bytes())
            &&& occurs(row.label, "["@ + kind.label_text() + "]"@)
            &&& app.pending_import_paths@.contains(path_class(path.bytes())) <==> ends(
                row.label,
                "(loading...)"@,
            )
            &&& app.unsaved(path.bytes()) && !app.pending_import_paths@.contains(
                path_class(path.bytes()),
            ) <==> ends(row.label, "*"@)
        },
        app.unsaved(path.bytes()) ==> (asset_at(app.assets@, path_class(path.bytes())) matches Some(i)
            && app.assets@[i].dirty),
        asset_at(app.assets@, path_class(path.bytes())) is None ==> !app.unsaved(path.bytes()),
{
    if let Some(row) = app.file_row_of(path) {
        let kind = kind_of(path.bytes())->0;
        reveal_strlit(" [");
        reveal_strlit("[");
        reveal_strlit("]");
        reveal_strlit(" *");
        reveal_strlit("*");
        reveal_strlit(" (loading...)");
        reveal_strlit("(loading...)");
        let title = title_of(path.bytes());
        let mark = "["@ + kind.label_text() + "]"@;
        let at = title.len() as int + 1;
        assert(row.label.subrange(at, at + mark.len()) =~= mark);
        assert(occurs_at(row.label, mark, at));
        let n = row.label.len() as int;
        if app.pending_import_paths@.contains(path_class(path.bytes())) {
            assert(row.label.subrange(n - 12, n) =~= "(loading...)"@);
            assert(row.label[n - 1] == ')');
        } else if app.unsaved(path.bytes()) {
            assert(row.label.subrange(n - 1, n) =~= "*"@);
            assert(row.label[n - 1] == '*');
        } else {
            assert(row.label[n - 1] == ']');
        }
        if ends(row.label, "*"@) {
            assert(row.label.subrange(n - 1, n)[0] == '*');
        }
        if ends(row.label, "(loading...)"@) {
            assert(row.label.subrange(n - 12, n)[11] == ')');
        }
    }
}

/// Each texture has its row, under its name and with its size; the row of the selected texture is
/// marked, and a texture that was changed is told apart.
pub proof fn each_texture_has_its_row(textures: Seq<TextureEntry>, selected: Option<usize>, i: int)
    requires
        0 <= i < textures.len(),
    ensures
        texture_rows_of(textures, selected).len() == textures.len(),
        ({
            let row = texture_rows_of(textures, selected)[i];
            &&& begins(row.label, textures[i].name@)
            &&& occurs(row.label, size_text(textures[i].width, textures[i].height))
            &&& begins(row.details, textures[i].file_name@)
            &&& occurs(row.details, textures[i].format@.label())
            &&& occurs(row.details, decimal(textures[i].mips as nat) + " mips"@)
            &&& row.modified == textures[i].modified
            &&& row.selected <==> selected == Some(i as usize) && i <= usize::MAX
        }),
{
    let texture = textures[i];
    let row = texture_rows_of(textures, selected)[i];
    reveal_strlit(" (");
    reveal_strlit(" | ");
    let name = texture.name@;
    let size = size_text(texture.width, texture.height);
    assert(row.label.subrange(0, name.len() as int) =~= name);
    let at = name.len() as int + 2;
    assert(row.label.subrange(at, at + size.len()) =~= size);
    assert(occurs_at(row.label, size, at));
    let file = texture.file_name@;
    let label = texture.format@.label();
    let mips = decimal(texture.mips as nat) + " mips"@;
    assert(row.details.subrange(0, file.len() as int) =~= file);
    let b = file.len() as int + 3;
    assert(row.details.subrange(b, b + label.len()) =~= label);
    assert(occurs_at(row.details, label, b));
    let c = b + label.len() + 3;
    assert(row.details.subrange(c, c + mips.len()) =~= mips);
    assert(occurs_at(row.details, mips, c));
}

/// Every file of a kind that is known has a row, and no other. It tells of changes exactly where the open
/// asset of that file has some, and is selected where that asset or the file itself is.
pub proof fn every_known_file_has_a_row(app: App, path: PathBuf)
    ensures
        app.file_row_of(path) is Some <==> kind_of(path.bytes()) is Some,
        asset_at(app.assets@, path_class(path.bytes())) matches Some(i) ==> (app.unsaved(
            path.bytes(),
        ) <==> app.assets@[i].dirty) && (app.selected_asset matches Some(a) ==> (a == i
            ==> app.file_selected(path.bytes()))),
        app.selected_mod_path == Some(path) ==> app.file_selected(path.bytes()),
        app.selected_mod_path is None && app.selected_asset is None ==> !app.file_selected(
            path.bytes(),
        ),
        app.file_row_of(path) matches Some(row) ==> row.path == path && begins(
            row.label,
            title_of(path.bytes()),
        ),
{
    if let Some(row) = app.file_row_of(path) {
        let title = title_of(path.bytes());
        assert(row.label.subrange(0, title.len() as int) =~= title);
    }
}

/// Entries are ordered by their names whatever the case of the letters, folders in front of files.
pub proof fn case_does_not_matter_for_the_order(a: ModEntry, b: ModEntry)
    ensures
        file_name_text(a.path.bytes()) matches Some(own) ==> (file_name_text(
            b.path.bytes(),
        ) matches Some(other) ==> (lower(own) == lower(other) && a.is_dir == b.is_dir ==> entry_key(a)
            == entry_key(b)) && (a.is_dir == b.is_dir ==> (key_before(entry_key(a), entry_key(b))
            <==> text_before(lower(own), lower(other))))),
        a.is_dir && !b.is_dir ==> key_before(entry_key(a), entry_key(b)),
{
}

}
