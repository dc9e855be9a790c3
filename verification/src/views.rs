//! What the pages of the window show.

use crate::app::{App, Page};
use crate::archive::{
    append_archive_rows, row_parts, rows_below, ArchiveContentKind, ArchiveRow, ArchiveViewState,
    RowParts, ShownBy, Tree,
};
use crate::assets::{ImportedArchiveEntry, ImportedAsset};
use crate::layout_laws::{each_leaf_without_an_image_is_missed, lacks_image, leaves};
use crate::listing::{
    each_texture_has_its_row, mod_row_parts, texture_row_parts, texture_rows, texture_rows_of,
    ModEntry, ModRow, ModRowParts, TextureRow, TextureRowParts,
};
use crate::paths::{self, join_bytes, shown_path, title_of, PathBytes};
use crate::sections::Layout;
use crate::setup::{action_enabled, may_act, may_go_on, next_enabled, SetupStep};
use crate::text::{
    self, begins, decimal, ends, joined, lower, occurs, occurs_at, only_capitals_are_lowered,
    opt_text, text_or, texts, trimmed,
};
use crate::textures::TextureEntry;
use std::path::PathBuf;
use vstd::prelude::*;

verus! {

/// What the header shows, and which of its buttons can be used.
pub struct HeaderView {
    pub back: bool,
    pub menu: bool,
    pub close_menu: bool,
    pub folders: String,
    pub mods_folder: bool,
    pub backup_before_save: bool,
    pub browser_buttons: bool,
    pub edit_label: &'static str,
    pub edit: bool,
    pub apply: bool,
    pub setup_back: bool,
    pub setup_next: bool,
    pub setup_action: bool,
    pub setup_folder: bool,
}

impl App {
    /// The folders of the game, as the settings tell them.
    pub open spec fn folders_text(self, root_is_dir: bool) -> Seq<char> {
        match (
            self.game_root(root_is_dir),
            self.under_root(root_is_dir, "mods"@),
            self.under_root(root_is_dir, "scripts"@),
        ) {
            (Some(game), Some(mods), Some(scripts)) => "Game: "@ + shown_path(game.bytes())
                + "\nMods: "@ + shown_path(mods) + "\nScripts: "@ + shown_path(scripts),
            _ => "Not configured"@,
        }
    }

    /// Whether the edited texture can be written: its format can, and each section has an image.
    pub open spec fn can_apply(self, root_is_dir: bool) -> bool {
        !self.needs_setup(root_is_dir) && self.edited_texture_there()
            && self.edited_texture().format@.writable() && self.editor->0.root@.missing() == 0
    }

    fn folders_shown(&self, root_is_dir: bool) -> (r: String)
        ensures
            r@ == self.folders_text(root_is_dir),
    {
        match (
            self.game_root_path(root_is_dir),
            self.derived_mods_root_path(root_is_dir),
            self.derived_scripts_root_path(root_is_dir),
        ) {
            (Some(game), Some(mods), Some(scripts)) => {
                let mut out = "Game: ".to_owned();
                out.append(paths::shown(game.as_path()).as_str());
                out.append("\nMods: ");
                out.append(paths::shown(mods.as_path()).as_str());
                out.append("\nScripts: ");
                out.append(paths::shown(scripts.as_path()).as_str());
                out
            },
            _ => "Not configured".to_owned(),
        }
    }

    fn apply_allowed(&self, root_is_dir: bool) -> (r: bool)
        requires
            self.well_formed(),
        ensures
            r == self.can_apply(root_is_dir),
    {
        if self.setup_required(root_is_dir) {
            return false;
        }
        match (&self.editor, self.texture_being_edited()) {
            (Some(editor), Some(texture)) => texture.format.supported_for_write()
                && editor.is_complete(),
            _ => false,
        }
    }

    /// The header on a page.
    pub fn header(&self, page: Option<Page>, root_is_dir: bool) -> (r: HeaderView)
        requires
            self.well_formed(),
        ensures
            ({
                let editing = self.editor is Some || self.text_editor is Some;
                let browser = page == Some(Page::Browser);
                let dashboard = page == Some(Page::Dashboard);
                let has_root = self.game_root(root_is_dir) is Some;
                &&& r.back == (editing || browser || page == Some(Page::Setup))
                &&& r.menu == (!editing && (browser || dashboard))
                &&& r.close_menu == !(browser || dashboard)
                &&& r.folders@ == self.folders_text(root_is_dir)
                &&& r.mods_folder == has_root
                &&& r.backup_before_save == self.config.backup_before_save
                &&& r.browser_buttons == browser
                &&& r.edit_label@ == if self.current_text() is Some {
                    "Edit XML"@
                } else {
                    "Edit Texture"@
                }
                &&& r.edit == (browser && !editing && !self.needs_setup(root_is_dir)
                    && self.editable())
                &&& r.apply == self.can_apply(root_is_dir)
                &&& r.setup_back == (self.setup_step.preceding() is Some)
                &&& r.setup_next == may_go_on(
                    self.setup_step,
                    self.setup_status,
                    self.launcher_status,
                    has_root,
                )
                &&& r.setup_action == may_act(self.setup_step, self.setup_status, has_root)
                &&& r.setup_folder == (self.setup_step is Ready)
            }),
    {
        let editing = self.in_editor();
        let browser = match page {
            Some(Page::Browser) => true,
            _ => false,
        };
        let dashboard = match page {
            Some(Page::Dashboard) => true,
            _ => false,
        };
        let setup = match page {
            Some(Page::Setup) => true,
            _ => false,
        };
        let has_root = self.game_root_path(root_is_dir).is_some();
        HeaderView {
            back: editing || browser || setup,
            menu: !editing && (browser || dashboard),
            close_menu: !(browser || dashboard),
            folders: self.folders_shown(root_is_dir),
            mods_folder: has_root,
            backup_before_save: self.config.backup_before_save,
            browser_buttons: browser,
            edit_label: self.current_edit_button_label(),
            edit: browser && !editing && !self.setup_required(root_is_dir)
                && self.current_entry_editable(),
            apply: self.apply_allowed(root_is_dir),
            setup_back: self.setup_step.previous().is_some(),
            setup_next: next_enabled(
                self.setup_step,
                &self.setup_status,
                &self.launcher_status,
                has_root,
            ),
            setup_action: action_enabled(self.setup_step, &self.setup_status, has_root),
            setup_folder: match self.setup_step {
                SetupStep::Ready => true,
                _ => false,
            },
        }
    }
}

/// What the dashboard shows.
pub struct DashboardView {
    pub settings: bool,
    pub settings_open: bool,
    pub play: bool,
    pub edit: bool,
    pub addons_enabled: bool,
    pub script_mods_enabled: bool,
    pub notice: String,
}

/// What the dashboard tells of a configured game, given the ScriptHook files that are missing.
pub open spec fn game_notice(addons: bool, scripts: bool, missing: Seq<Seq<char>>) -> Seq<char> {
    let disabled = "Addons are disabled, so the editor is unavailable."@;
    let incomplete = "ScriptHook files missing: "@ + joined(missing, ", "@);
    if !addons && scripts && missing.len() > 0 {
        disabled + " "@ + incomplete
    } else if !addons {
        disabled
    } else if missing.len() > 0 {
        incomplete
    } else {
        "Game, addons, and editor are ready."@
    }
}

fn game_notice_text(addons: bool, scripts: bool, missing: &Vec<String>) -> (r: String)
    ensures
        r@ == game_notice(addons, scripts, texts(missing@)),
{
    let mut incomplete = "ScriptHook files missing: ".to_owned();
    incomplete.append(text::join(missing, ", ").as_str());
    if !addons {
        let mut out = "Addons are disabled, so the editor is unavailable.".to_owned();
        if scripts && missing.len() > 0 {
            out.append(" ");
            out.append(incomplete.as_str());
        }
        return out;
    }
    if missing.len() > 0 {
        return incomplete;
    }
    "Game, addons, and editor are ready.".to_owned()
}

impl App {
    /// The dashboard, given the ScriptHook files that are missing in the game folder.
    pub fn dashboard(&self, page: Option<Page>, root_is_dir: bool, missing: &Vec<String>) -> (r:
        DashboardView)
        ensures
            ({
                let has_root = self.game_root(root_is_dir) is Some;
                let ready = !self.needs_setup(root_is_dir);
                &&& r.settings == (page == Some(Page::Dashboard) && has_root)
                &&& r.settings_open == self.config.play_settings_expanded
                &&& r.play == (ready && has_root)
                &&& r.edit == (ready && self.can_edit(root_is_dir))
                &&& r.addons_enabled == self.config.addons_enabled
                &&& r.script_mods_enabled == self.config.script_mods_enabled
                &&& r.notice@ == if has_root {
                    game_notice(
                        self.config.addons_enabled,
                        self.config.script_mods_enabled,
                        texts(missing@),
                    )
                } else {
                    "Choose the GTA V Linux game folder in setup before launching or editing."@
                }
            }),
    {
        let has_root = self.game_root_path(root_is_dir).is_some();
        let ready = !self.setup_required(root_is_dir);
        let on_dashboard = match page {
            Some(Page::Dashboard) => true,
            _ => false,
        };
        let notice = if has_root {
            game_notice_text(self.config.addons_enabled, self.config.script_mods_enabled, missing)
        } else {
            "Choose the GTA V Linux game folder in setup before launching or editing.".to_owned()
        };
        DashboardView {
            settings: on_dashboard && has_root,
            settings_open: self.config.play_settings_expanded,
            play: ready && has_root,
            edit: ready && self.editor_available(root_is_dir),
            addons_enabled: self.config.addons_enabled,
            script_mods_enabled: self.config.script_mods_enabled,
            notice,
        }
    }
}

/// The pane on the left: the mods folder, or why it cannot be shown.
pub enum PackageTree {
    AddonsDisabled,
    NotConfigured,
    Tree { root: PathBuf, import: bool, save: bool },
}

impl PackageTree {
    /// What is told above the pane.
    pub open spec fn heading(self) -> Seq<char> {
        match self {
            PackageTree::AddonsDisabled => "Addons are disabled"@,
            PackageTree::NotConfigured => "GTA V game folder not configured"@,
            PackageTree::Tree { root, .. } => "Mods folder: "@ + shown_path(root.bytes()),
        }
    }

    pub fn label(&self) -> (r: String)
        ensures
            r@ == self.heading(),
    {
        match self {
            PackageTree::AddonsDisabled => "Addons are disabled".to_owned(),
            PackageTree::NotConfigured => "GTA V game folder not configured".to_owned(),
            PackageTree::Tree { root, .. } => {
                let mut out = "Mods folder: ".to_owned();
                out.append(paths::shown(root.as_path()).as_str());
                out
            },
        }
    }

    /// What is told in place of the tree.
    pub fn message(&self) -> (r: &'static str)
        ensures
            r@ == match *self {
                PackageTree::AddonsDisabled =>
                    "Enable addons from the Play settings on the dashboard to use the editor and the mods folder browser."@,
                PackageTree::NotConfigured =>
                    "The GTA V game folder is required. The app will automatically use or create the mods folder inside it."@,
                PackageTree::Tree { .. } => ""@,
            },
    {
        match self {
            PackageTree::AddonsDisabled =>
                "Enable addons from the Play settings on the dashboard to use the editor and the mods folder browser.",
            PackageTree::NotConfigured =>
                "The GTA V game folder is required. The app will automatically use or create the mods folder inside it.",
            PackageTree::Tree { .. } => "",
        }
    }
}

impl App {
    fn any_unsaved(&self) -> (r: bool)
        ensures
            r == exists|i: int| 0 <= i < self.assets@.len() && (#[trigger] self.assets@[i]).dirty,
    {
        let mut i: usize = 0;
        while i < self.assets.len()
            invariant
                0 <= i <= self.assets@.len(),
                forall|j: int| 0 <= j < i ==> !(#[trigger] self.assets@[j]).dirty,
            decreases self.assets@.len() - i,
        {
            if self.assets[i].dirty {
                assert(self.assets@[i as int].dirty);
                return true;
            }
            i += 1;
        }
        false
    }

    /// The pane on the left, given whether the folder that files are imported into exists.
    pub fn package_tree(&self, root_is_dir: bool, target_is_dir: bool) -> (r: PackageTree)
        ensures
            if self.game_root(root_is_dir) is None {
                r is NotConfigured
            } else if !self.config.addons_enabled {
                r is AddonsDisabled
            } else {
                &&& r matches PackageTree::Tree { root, import, save }
                &&& Some(root.bytes()) == self.mods_root(root_is_dir)
                &&& import == (target_is_dir && self.browsed() is Some)
                &&& save == exists|i: int|
                    0 <= i < self.assets@.len() && (#[trigger] self.assets@[i]).dirty
            },
    {
        if self.game_root_path(root_is_dir).is_some() && !self.config.addons_enabled {
            return PackageTree::AddonsDisabled;
        }
        match self.mods_root_path(root_is_dir) {
            None => PackageTree::NotConfigured,
            Some(root) => PackageTree::Tree {
                root,
                import: self.selected_mod_directory(target_is_dir).is_some(),
                save: self.any_unsaved(),
            },
        }
    }
}

/// The rows of the pane in the middle.
pub enum ListRows {
    Nothing,
    Folder(Vec<ModRow>),
    Textures(Vec<TextureRow>),
    Archive(Vec<ArchiveRow>),
}

/// What the rows of the pane in the middle show.
pub enum RowsShown {
    Nothing,
    Folder(Seq<ModRowParts>),
    Textures(Seq<TextureRowParts>),
    Archive(Seq<RowParts>),
}

impl View for ListRows {
    type V = RowsShown;

    open spec fn view(&self) -> RowsShown {
        match *self {
            ListRows::Nothing => RowsShown::Nothing,
            ListRows::Folder(rows) => RowsShown::Folder(mod_row_parts(rows@)),
            ListRows::Textures(rows) => RowsShown::Textures(texture_row_parts(rows@)),
            ListRows::Archive(rows) => RowsShown::Archive(row_parts(rows@)),
        }
    }
}

/// The pane in the middle.
pub struct ListView {
    pub title: String,
    pub path: String,
    pub notice: String,
    pub back: bool,
    pub archive: bool,
    pub search: bool,
    pub rows: ListRows,
}

/// What the pane in the middle shows.
pub struct ListShown {
    pub title: Seq<char>,
    pub path: Seq<char>,
    pub notice: Seq<char>,
    pub back: bool,
    pub archive: bool,
    pub search: bool,
    pub rows: RowsShown,
}

impl View for ListView {
    type V = ListShown;

    open spec fn view(&self) -> ListShown {
        ListShown {
            title: self.title@,
            path: self.path@,
            notice: self.notice@,
            back: self.back,
            archive: self.archive,
            search: self.search,
            rows: self.rows@,
        }
    }
}

/// How many textures there are.
pub open spec fn texture_count(title: Seq<char>, textures: Seq<TextureEntry>) -> Seq<char> {
    title + " ("@ + decimal(textures.len()) + " textures)"@
}

fn texture_count_text(title: &str, textures: &Vec<TextureEntry>) -> (r: String)
    ensures
        r@ == texture_count(title@, textures@),
{
    let mut out = title.to_owned();
    out.append(" (");
    out.append(text::show(textures.len() as u64).as_str());
    out.append(" textures)");
    out
}

/// What is told of an open entry: its title, a notice, and its textures.
pub open spec fn entry_told(entry: ImportedArchiveEntry, selected: Option<usize>) -> (
    Seq<char>,
    Seq<char>,
    RowsShown,
) {
    match entry.content_kind {
        ArchiveContentKind::TextureAsset => {
            let textures = match entry.texture_list() {
                Some(list) => list,
                None => Seq::empty(),
            };
            let title = texture_count(entry.title@, textures);
            if textures.len() == 0 {
                (title, "Not supported."@, RowsShown::Nothing)
            } else {
                (title, ""@, RowsShown::Textures(texture_rows_of(textures, selected)))
            }
        },
        ArchiveContentKind::XmlText | ArchiveContentKind::ConvertedXml => (
            entry.title@,
            "XML preview is available on the right."@,
            RowsShown::Nothing,
        ),
        ArchiveContentKind::File => (
            entry.title@,
            "This staged file will be added when you rebuild the package."@,
            RowsShown::Nothing,
        ),
        ArchiveContentKind::Folder | ArchiveContentKind::Package => (
            entry.title@,
            "Not supported."@,
            RowsShown::Nothing,
        ),
    }
}

fn tell_entry(entry: &ImportedArchiveEntry, selected: Option<usize>) -> (r: (
    String,
    String,
    ListRows,
))
    ensures
        (r.0@, r.1@, r.2@) == entry_told(*entry, selected),
{
    match entry.content_kind {
        ArchiveContentKind::TextureAsset => {
            let nothing: Vec<TextureEntry> = Vec::new();
            let textures = match entry.textures() {
                Some(list) => list,
                None => &nothing,
            };
            assert(nothing@ =~= Seq::<TextureEntry>::empty());
            let title = texture_count_text(entry.title.as_str(), textures);
            if textures.len() == 0 {
                (title, "Not supported.".to_owned(), ListRows::Nothing)
            } else {
                (title, "".to_owned(), ListRows::Textures(texture_rows(textures, selected)))
            }
        },
        ArchiveContentKind::XmlText | ArchiveContentKind::ConvertedXml => (
            entry.title.clone(),
            "XML preview is available on the right.".to_owned(),
            ListRows::Nothing,
        ),
        ArchiveContentKind::File => (
            entry.title.clone(),
            "This staged file will be added when you rebuild the package.".to_owned(),
            ListRows::Nothing,
        ),
        ArchiveContentKind::Folder | ArchiveContentKind::Package => (
            entry.title.clone(),
            "Not supported.".to_owned(),
            ListRows::Nothing,
        ),
    }
}

impl ImportedAsset {
    /// The folder of the archive that is shown.
    pub open spec fn shown_node(self) -> Option<Tree> {
        match self.archive_current_path {
            Some(path) => self.node(path@),
            None => match self.root() {
                Some(root) => self.node(root),
                None => None,
            },
        }
    }

    /// The text that names are searched for.
    pub open spec fn query(self) -> Option<Seq<char>> {
        let wanted = trimmed(self.archive_search_query@);
        if wanted.len() == 0 {
            None
        } else {
            Some(lower(wanted))
        }
    }

    /// What the rows of the archive depend on.
    pub open spec fn shown_by(self) -> ShownBy {
        ShownBy {
            expanded: self.archive_expanded_paths@,
            selected_file: opt_text(self.archive_selected_file),
            current: opt_text(self.archive_current_path),
            query: self.query(),
        }
    }

    /// What is told of the shown folder of an archive.
    pub open spec fn folder_told(self) -> (Seq<char>, RowsShown) {
        match self.shown_node() {
            None => (""@, RowsShown::Nothing),
            Some(node) => if node.children.len() == 0 {
                ("This folder is empty."@, RowsShown::Nothing)
            } else {
                let rows = rows_below(node, self.shown_by(), 0);
                let notice = if rows.len() == 0 {
                    "No items match \""@ + trimmed(self.archive_search_query@)
                        + "\" in this section."@
                } else {
                    ""@
                };
                (notice, RowsShown::Archive(rows))
            },
        }
    }

    fn node_shown(&self) -> (r: Option<&crate::archive::RpfTreeNode>)
        ensures
            match r {
                Some(node) => self.shown_node() == Some(node@),
                None => self.shown_node() is None,
            },
    {
        match &self.archive_current_path {
            Some(path) => self.find_archive_node(path.as_str()),
            None => match self.archive_root_path() {
                Some(root) => self.find_archive_node(root.as_str()),
                None => None,
            },
        }
    }

    fn tell_folder(&self) -> (r: (String, ListRows))
        ensures
            (r.0@, r.1@) == self.folder_told(),
    {
        let node = match self.node_shown() {
            Some(node) => node,
            None => {
                return ("".to_owned(), ListRows::Nothing);
            },
        };
        proof {
            crate::archive::lemma_view(*node);
        }
        if node.children.len() == 0 {
            return ("This folder is empty.".to_owned(), ListRows::Nothing);
        }
        let wanted = text::trim(self.archive_search_query.as_str());
        proof {
            reveal_strlit("");
            if wanted@.len() == 0 {
                assert(wanted@ =~= ""@);
            }
        }
        let query = if text::same_text(wanted.as_str(), "") {
            None
        } else {
            Some(text::to_lower(wanted.as_str()))
        };
        let by = ArchiveViewState {
            expanded: &self.archive_expanded_paths,
            selected_file: &self.archive_selected_file,
            current: &self.archive_current_path,
            query: &query,
        };
        let mut rows: Vec<ArchiveRow> = Vec::new();
        append_archive_rows(&mut rows, node, &by, 0);
        proof {
            assert(by@ == self.shown_by());
            assert(row_parts(Seq::<ArchiveRow>::empty()) =~= Seq::<RowParts>::empty());
            assert(row_parts(rows@) =~= rows_below(node@, by@, 0));
        }
        if rows.len() == 0 {
            let mut notice = "No items match \"".to_owned();
            notice.append(wanted.as_str());
            notice.append("\" in this section.");
            (notice, ListRows::Archive(rows))
        } else {
            ("".to_owned(), ListRows::Archive(rows))
        }
    }
}

impl App {
    /// Whether the pane in the middle lets the user go back from an archive.
    pub open spec fn archive_back(self, asset: ImportedAsset) -> bool {
        ||| asset.archive_selected_file is Some
        ||| (asset.archive_current_path matches Some(path) && asset.above(path@) is Some)
        ||| self.current_mod_browser_path is Some
    }

    /// What the pane in the middle shows of a file of an archive.
    pub open spec fn file_list(self, asset: ImportedAsset, path: Seq<char>) -> ListShown {
        let shown = ListShown {
            title: "Archive Explorer"@,
            path: match asset.node(path) {
                Some(node) => node.display_path,
                None => title_of(asset.source_path.bytes()),
            },
            notice: ""@,
            back: true,
            archive: true,
            search: false,
            rows: RowsShown::Nothing,
        };
        if opt_text(asset.archive_file_loading_path) == Some(path) {
            ListShown { notice: "Loading file..."@, ..shown }
        } else {
            match asset.entry(path) {
                Some(e) => {
                    let (title, notice, rows) = entry_told(
                        asset.archive_entries@[e],
                        self.selected_texture,
                    );
                    ListShown { title, notice, rows, ..shown }
                },
                None => ListShown {
                    notice: text_or(asset.archive_file_notice, "Not supported."@),
                    ..shown
                },
            }
        }
    }

    /// What the pane in the middle shows of a folder of an archive.
    pub open spec fn folder_list(self, asset: ImportedAsset) -> ListShown {
        ListShown {
            title: "Archive Explorer"@,
            path: match asset.display() {
                Some(path) => path,
                None => title_of(asset.source_path.bytes()),
            },
            notice: asset.folder_told().0,
            back: self.archive_back(asset),
            archive: true,
            search: true,
            rows: asset.folder_told().1,
        }
    }

    /// What the pane in the middle shows of an asset.
    pub open spec fn asset_list(self, asset: ImportedAsset) -> ListShown {
        if !asset.archive() {
            let title = title_of(asset.source_path.bytes());
            ListShown {
                title: texture_count(title, asset.textures@),
                path: title,
                notice: ""@,
                back: self.current_mod_browser_path is Some,
                archive: false,
                search: false,
                rows: RowsShown::Textures(texture_rows_of(asset.textures@, self.selected_texture)),
            }
        } else {
            match asset.archive_selected_file {
                Some(path) => self.file_list(asset, path@),
                None => self.folder_list(asset),
            }
        }
    }

    /// What the pane in the middle shows of a folder of the mods folder, given its entries.
    pub open spec fn mod_folder_list(
        self,
        current: PathBuf,
        root_is_dir: bool,
        entries: Option<Seq<ModEntry>>,
    ) -> ListShown {
        ListShown {
            title: "Folder Explorer"@,
            path: shown_path(current.bytes()),
            notice: match entries {
                Some(list) => if list.len() == 0 {
                    "This folder is empty."@
                } else {
                    ""@
                },
                None => "Failed to read this folder."@,
            },
            back: self.browser_parent(root_is_dir) is Some,
            archive: false,
            search: false,
            rows: match entries {
                Some(list) => if list.len() == 0 {
                    RowsShown::Nothing
                } else {
                    RowsShown::Folder(self.browser_rows_of(list))
                },
                None => RowsShown::Nothing,
            },
        }
    }

    /// What the pane in the middle shows, given the entries of the shown folder.
    pub open spec fn list_shown(self, root_is_dir: bool, entries: Option<Seq<ModEntry>>) -> ListShown {
        let nothing = ListShown {
            title: "Select a package from the left pane."@,
            path: ""@,
            notice: ""@,
            back: false,
            archive: false,
            search: false,
            rows: RowsShown::Nothing,
        };
        match self.selected_asset {
            None => match self.current_mod_browser_path {
                Some(current) => self.mod_folder_list(current, root_is_dir, entries),
                None => nothing,
            },
            Some(a) => if a < self.assets@.len() {
                self.asset_list(self.assets@[a as int])
            } else {
                nothing
            },
        }
    }

    fn file_view(&self, asset: &ImportedAsset, path: &str) -> (r: ListView)
        ensures
            r@ == self.file_list(*asset, path@),
    {
        let shown_at = match asset.find_archive_node(path) {
            Some(node) => {
                proof {
                    crate::archive::lemma_view(*node);
                }
                node.display_path.clone()
            },
            None => asset.title(),
        };
        let mut title = "Archive Explorer".to_owned();
        let mut notice = "".to_owned();
        let mut rows = ListRows::Nothing;
        if text::opt_is(&asset.archive_file_loading_path, path) {
            notice = "Loading file...".to_owned();
        } else {
            match asset.find_archive_entry(path) {
                Some(entry) => {
                    let told = tell_entry(entry, self.selected_texture);
                    title = told.0;
                    notice = told.1;
                    rows = told.2;
                },
                None => {
                    notice = text::value_or(&asset.archive_file_notice, "Not supported.");
                },
            }
        }
        ListView { title, path: shown_at, notice, back: true, archive: true, search: false, rows }
    }

    fn folder_view(&self, asset: &ImportedAsset) -> (r: ListView)
        ensures
            r@ == self.folder_list(*asset),
    {
        let path = match asset.archive_current_display_path() {
            Some(path) => path,
            None => asset.title(),
        };
        let above = match &asset.archive_current_path {
            Some(current) => asset.parent_path_for(current.as_str()).is_some(),
            None => false,
        };
        let told = asset.tell_folder();
        ListView {
            title: "Archive Explorer".to_owned(),
            path,
            notice: told.0,
            back: asset.archive_selected_file.is_some() || above
                || self.current_mod_browser_path.is_some(),
            archive: true,
            search: true,
            rows: told.1,
        }
    }

    fn asset_view(&self, asset: &ImportedAsset) -> (r: ListView)
        ensures
            r@ == self.asset_list(*asset),
    {
        if !asset.is_archive() {
            let title = asset.title();
            return ListView {
                title: texture_count_text(title.as_str(), &asset.textures),
                path: title,
                notice: "".to_owned(),
                back: self.current_mod_browser_path.is_some(),
                archive: false,
                search: false,
                rows: ListRows::Textures(texture_rows(&asset.textures, self.selected_texture)),
            };
        }
        match &asset.archive_selected_file {
            Some(path) => self.file_view(asset, path.as_str()),
            None => self.folder_view(asset),
        }
    }

    fn mod_folder_view(
        &self,
        current: &PathBuf,
        root_is_dir: bool,
        entries: &Option<Vec<ModEntry>>,
    ) -> (r: ListView)
        ensures
            r@ == self.mod_folder_list(*current, root_is_dir, opt_entries(*entries)),
    {
        let mut notice = "".to_owned();
        let mut rows = ListRows::Nothing;
        match entries {
            Some(list) => if list.len() == 0 {
                notice = "This folder is empty.".to_owned();
            } else {
                rows = ListRows::Folder(self.mod_browser_rows(list));
            },
            None => {
                notice = "Failed to read this folder.".to_owned();
            },
        }
        ListView {
            title: "Folder Explorer".to_owned(),
            path: paths::shown(current.as_path()),
            notice,
            back: self.mod_browser_parent_path(root_is_dir).is_some(),
            archive: false,
            search: false,
            rows,
        }
    }

    /// The pane in the middle, given the entries of the shown folder of the mods folder, as far as
    /// they could be read.
    pub fn textures_list(&self, root_is_dir: bool, entries: &Option<Vec<ModEntry>>) -> (r: ListView)
        ensures
            r@ == self.list_shown(root_is_dir, opt_entries(*entries)),
    {
        match self.selected_asset {
            None => if let Some(current) = &self.current_mod_browser_path {
                return self.mod_folder_view(current, root_is_dir, entries);
            },
            Some(a) => if a < self.assets.len() {
                return self.asset_view(&self.assets[a]);
            },
        }
        ListView {
            title: "Select a package from the left pane.".to_owned(),
            path: "".to_owned(),
            notice: "".to_owned(),
            back: false,
            archive: false,
            search: false,
            rows: ListRows::Nothing,
        }
    }
}

/// The entries of a folder, as far as it could be read.
pub open spec fn opt_entries(entries: Option<Vec<ModEntry>>) -> Option<Seq<ModEntry>> {
    match entries {
        Some(list) => Some(list@),
        None => None,
    }
}

/// A game is told as ready exactly when addons are on and no file is missing; the notice ends in what is
/// missing, unless only the addons are off.
pub proof fn only_a_complete_game_is_ready(addons: bool, scripts: bool, missing: Seq<Seq<char>>)
    ensures
        game_notice(addons, scripts, missing) == "Game, addons, and editor are ready."@ <==> addons
            && missing.len() == 0,
        missing.len() > 0 && (addons || scripts) ==> ends(
            game_notice(addons, scripts, missing),
            joined(missing, ", "@),
        ),
        !addons ==> begins(game_notice(addons, scripts, missing), "Addons are disabled"@),
        !addons && (!scripts || missing.len() == 0) ==> game_notice(addons, scripts, missing)
            == game_notice(false, false, Seq::empty()),
{
    reveal_strlit("Addons are disabled");
    reveal_strlit("Addons are disabled, so the editor is unavailable.");
    reveal_strlit("ScriptHook files missing: ");
    reveal_strlit("Game, addons, and editor are ready.");
    let notice = game_notice(addons, scripts, missing);
    let files = joined(missing, ", "@);
    if !addons {
        assert(notice[0] == 'A');
        assert(notice.subrange(0, "Addons are disabled"@.len() as int) =~= "Addons are disabled"@);
    } else if missing.len() > 0 {
        assert(notice[0] == 'S');
    }
    if missing.len() > 0 && (addons || scripts) {
        assert(notice.subrange(notice.len() - files.len(), notice.len() as int) =~= files);
    }
}

/// The folders of the game are told exactly when there is a game folder: each on a line of its own, the
/// last two within the first.
pub proof fn the_folders_of_the_game_are_told(app: App, root_is_dir: bool)
    ensures
        app.folders_text(root_is_dir) == "Not configured"@ <==> app.game_root(root_is_dir) is None,
        app.game_root(root_is_dir) matches Some(root) ==> {
            let told = app.folders_text(root_is_dir);
            &&& begins(told, "Game: "@ + shown_path(root.bytes()))
            &&& ends(told, shown_path(join_bytes(root.bytes(), "scripts"@)))
            &&& occurs(told, "Mods: "@ + shown_path(join_bytes(root.bytes(), "mods"@)))
        },
{
    reveal_strlit("Game: ");
    reveal_strlit("Not configured");
    reveal_strlit("\nMods: ");
    reveal_strlit("Mods: ");
    if let Some(root) = app.game_root(root_is_dir) {
        let told = app.folders_text(root_is_dir);
        let game = "Game: "@ + shown_path(root.bytes());
        let mods = shown_path(join_bytes(root.bytes(), "mods"@));
        let scripts = shown_path(join_bytes(root.bytes(), "scripts"@));
        assert(told[0] == 'G');
        assert(told.subrange(0, game.len() as int) =~= game);
        assert(told.subrange(told.len() - scripts.len(), told.len() as int) =~= scripts);
        let at = game.len() as int + 1;
        let named = "Mods: "@ + mods;
        assert(told.subrange(at, at + named.len()) =~= named);
        assert(occurs_at(told, named, at));
    }
}

/// Searching goes by the text without the blanks around it, and by letters of either case; a blank text
/// searches for nothing.
pub proof fn searching_is_easy_going(a: ImportedAsset, b: ImportedAsset)
    ensures
        a.query() is None <==> trimmed(a.archive_search_query@).len() == 0,
        lower(trimmed(a.archive_search_query@)) == lower(trimmed(b.archive_search_query@))
            && trimmed(a.archive_search_query@).len() > 0 ==> a.query() == b.query(),
        a.query() matches Some(wanted) ==> wanted.len() > 0 && lower(wanted) == wanted,
{
    if let Some(wanted) = a.query() {
        let own = trimmed(a.archive_search_query@);
        assert forall|k: int| 0 <= k < wanted.len() implies lower(wanted)[k] == wanted[k] by {
            only_capitals_are_lowered(own, k);
            only_capitals_are_lowered(wanted, k);
        }
        assert(lower(wanted) =~= wanted);
    }
    if lower(trimmed(a.archive_search_query@)) == lower(trimmed(b.archive_search_query@)) {
        assert(lower(trimmed(a.archive_search_query@)).len() == trimmed(
            a.archive_search_query@,
        ).len());
        assert(lower(trimmed(b.archive_search_query@)).len() == trimmed(
            b.archive_search_query@,
        ).len());
    }
}

/// What is told of an open entry shows its textures where it has any, all of them and with their number;
/// an entry without a picture or a text is told as not supported.
pub proof fn an_open_entry_shows_its_textures(
    entry: ImportedArchiveEntry,
    selected: Option<usize>,
    i: int,
)
    ensures
        ({
            let (title, notice, rows) = entry_told(entry, selected);
            &&& begins(title, entry.title@)
            &&& !(entry.content_kind is TextureAsset) ==> title == entry.title@ && rows is Nothing
                && notice.len() > 0
            &&& entry.content_kind is TextureAsset ==> (rows is Nothing <==> notice
                == "Not supported."@)
            &&& entry.content_kind is TextureAsset ==> (entry.texture_list() matches Some(list) ==> (
            rows matches RowsShown::Textures(shown) ==> shown.len() == list.len() && (0 <= i
                < list.len() ==> shown[i].modified == list[i].modified && begins(
                shown[i].label,
                list[i].name@,
            ))))
            &&& rows is Textures <==> entry.content_kind is TextureAsset && (
            entry.texture_list() matches Some(list) && list.len() > 0)
            &&& entry.shown_as_text() ==> notice == "XML preview is available on the right."@
        }),
{
    reveal_strlit("Not supported.");
    reveal_strlit("");
    reveal_strlit("XML preview is available on the right.");
    reveal_strlit("This staged file will be added when you rebuild the package.");
    let (title, notice, rows) = entry_told(entry, selected);
    assert(title.subrange(0, entry.title@.len() as int) =~= entry.title@);
    if let Some(list) = entry.texture_list() {
        if list.len() > 0 {
            each_texture_has_its_row(list, selected, 0);
            assert(entry.content_kind is TextureAsset ==> notice.len() == 0);
        }
        if 0 <= i < list.len() {
            each_texture_has_its_row(list, selected, i);
        }
    }
}

/// The shown folder of an archive is the current one, or the root where none is; a folder with nothing in
/// it is told as empty, and one in which nothing is found by what was searched for.
pub proof fn a_folder_tells_what_it_holds(asset: ImportedAsset)
    ensures
        asset.archive_current_path matches Some(path) ==> asset.shown_node() == asset.node(path@),
        asset.archive_current_path is None && asset.tree() is Some ==> asset.shown_node()
            == asset.node(asset.tree()->0.path),
        asset.shown_node() matches Some(node) ==> {
            let (notice, rows) = asset.folder_told();
            &&& rows is Nothing <==> node.children.len() == 0
            &&& notice == "This folder is empty."@ <==> node.children.len() == 0
            &&& rows matches RowsShown::Archive(shown) ==> (notice.len() == 0 <==> shown.len() > 0)
            &&& rows matches RowsShown::Archive(shown) ==> (shown.len() == 0 ==> occurs(
                notice,
                trimmed(asset.archive_search_query@),
            ))
        },
{
    reveal_strlit("");
    reveal_strlit("This folder is empty.");
    reveal_strlit("No items match \"");
    if let Some(node) = asset.shown_node() {
        let (notice, rows) = asset.folder_told();
        let wanted = trimmed(asset.archive_search_query@);
        if let RowsShown::Archive(shown) = rows {
            if shown.len() == 0 {
                let at = "No items match \""@.len() as int;
                assert(notice[0] == 'N');
                assert(notice.subrange(at, at + wanted.len()) =~= wanted);
                assert(occurs_at(notice, wanted, at));
            } else {
                assert(notice.len() == 0);
            }
        }
    }
}

/// The pane in the middle shows the selected asset, else the folder that is browsed, else nothing. It
/// can be searched exactly where it shows a folder of an archive, and a file of an archive can always be
/// left.
pub proof fn the_list_shows_what_is_selected(
    app: App,
    root_is_dir: bool,
    entries: Option<Seq<ModEntry>>,
)
    ensures
        ({
            let shown = app.list_shown(root_is_dir, entries);
            &&& app.selected_asset is None ==> !shown.archive && !shown.search
            &&& app.selected_asset is None && app.current_mod_browser_path is None
                ==> shown.rows is Nothing && !shown.back
            &&& app.selected_asset is None && app.current_mod_browser_path is Some ==> {
                &&& shown.path == shown_path(app.current_mod_browser_path->0.bytes())
                &&& shown.back <==> app.browser_parent(root_is_dir) is Some
                &&& shown.rows is Folder <==> (entries matches Some(list) && list.len() > 0)
                &&& shown.notice.len() == 0 <==> (entries matches Some(list) && list.len() > 0)
            }
            &&& app.selected_asset matches Some(a) ==> (a < app.assets@.len() ==> {
                let asset = app.assets@[a as int];
                &&& shown.archive <==> asset.kind is Rpf
                &&& shown.search <==> asset.kind is Rpf && asset.archive_selected_file is None
                &&& asset.kind is Rpf && asset.archive_selected_file is Some ==> shown.back
                &&& asset.kind is Rpf && asset.archive_selected_file is None ==> shown.rows
                    == asset.folder_told().1
                &&& !(asset.kind is Rpf) ==> (shown.back <==> app.current_mod_browser_path is Some)
                &&& !(asset.kind is Rpf) ==> shown.path == title_of(asset.source_path.bytes())
                    && begins(shown.title, title_of(asset.source_path.bytes()))
                &&& !(asset.kind is Rpf) ==> (shown.rows matches RowsShown::Textures(rows)
                    && rows.len() == asset.textures@.len())
            })
        }),
{
    reveal_strlit("");
    reveal_strlit("This folder is empty.");
    reveal_strlit("Failed to read this folder.");
    if let Some(a) = app.selected_asset {
        if a < app.assets@.len() {
            let asset = app.assets@[a as int];
            let title = title_of(asset.source_path.bytes());
            let shown = app.list_shown(root_is_dir, entries);
            if !asset.archive() {
                assert(shown.title.subrange(0, title.len() as int) =~= title);
            }
        }
    }
}

/// A file of an archive that is still being read is told as such and shows nothing; once it was read, its
/// own entry is shown.
pub proof fn a_file_of_an_archive_is_shown_once_read(
    app: App,
    asset: ImportedAsset,
    path: Seq<char>,
)
    ensures
        ({
            let shown = app.file_list(asset, path);
            &&& opt_text(asset.archive_file_loading_path) == Some(path) ==> shown.notice
                == "Loading file..."@ && shown.rows is Nothing
            &&& opt_text(asset.archive_file_loading_path) != Some(path) && asset.entry(path) is Some
                ==> (shown.title, shown.notice, shown.rows) == entry_told(
                asset.archive_entries@[asset.entry(path)->0],
                app.selected_texture,
            )
            &&& opt_text(asset.archive_file_loading_path) != Some(path) && asset.entry(path) is None
                ==> shown.rows is Nothing && (asset.archive_file_notice matches Some(own)
                ==> shown.notice == own@)
            &&& asset.node(path) matches Some(node) ==> shown.path == node.display_path
            &&& asset.node(path) is None ==> shown.path == title_of(asset.source_path.bytes())
        }),
        app.archive_back(asset) <==> asset.archive_selected_file is Some
            || app.current_mod_browser_path is Some || (asset.archive_current_path is Some
            && asset.above(asset.archive_current_path->0@) is Some),
{
}

/// An edited texture can be written exactly when the setup is done, the texture is still there, its format
/// can be written and no section lacks an image.
pub proof fn a_complete_texture_can_be_written(app: App, root_is_dir: bool)
    ensures
        app.can_apply(root_is_dir) <==> !app.needs_setup(root_is_dir) && app.edited_texture_there()
            && app.edited_texture().format@.writable() && leaves(app.editor->0.root@).filter(
            |leaf: Layout| lacks_image(leaf),
        ).len() == 0,
{
    each_leaf_without_an_image_is_missed(app.editor->0.root@);
}

/// The pane on the left is headed by the folder that it shows.
pub proof fn a_shown_tree_is_headed_by_its_folder(tree: PackageTree)
    ensures
        tree matches PackageTree::Tree { root, .. } ==> ends(
            tree.heading(),
            shown_path(root.bytes()),
        ),
        !(tree is Tree) ==> tree.heading().len() > 0,
{
    reveal_strlit("Addons are disabled");
    reveal_strlit("GTA V game folder not configured");
    if let PackageTree::Tree { root, .. } = tree {
        let told = tree.heading();
        let shown = shown_path(root.bytes());
        assert(told.subrange(told.len() - shown.len(), told.len() as int) =~= shown);
    }
}

}
