//! What the preview and the editors show, and how the user leaves a page.

use crate::app::{App, Page};
use crate::archive::ArchiveContentKind;
use crate::assets::{ImportedArchiveEntry, ImportedAsset};
use crate::browse::texture_in;
use crate::paths::{self, shown_path, title_of, PathBytes};
use crate::text::{self, begins, decimal, ends, occurs, occurs_at, text_or};
use crate::textures::{size_text, TextureEntry};
use vstd::prelude::*;

verus! {

/// The body of a preview: a text, nothing, or a picture where there is one.
pub enum PreviewBody {
    Text(String),
    Empty,
    Picture(Option<u64>),
}

/// What the body of a preview shows.
pub enum BodyShown {
    Text(Seq<char>),
    Empty,
    Picture(Option<u64>),
}

impl View for PreviewBody {
    type V = BodyShown;

    open spec fn view(&self) -> BodyShown {
        match *self {
            PreviewBody::Text(text) => BodyShown::Text(text@),
            PreviewBody::Empty => BodyShown::Empty,
            PreviewBody::Picture(picture) => BodyShown::Picture(picture),
        }
    }
}

/// The pane on the right.
pub struct PreviewView {
    pub asset: String,
    pub texture: String,
    pub meta: String,
    pub notice: String,
    pub body: PreviewBody,
}

/// What the pane on the right shows.
pub struct PreviewShown {
    pub asset: Seq<char>,
    pub texture: Seq<char>,
    pub meta: Seq<char>,
    pub notice: Seq<char>,
    pub body: BodyShown,
}

impl View for PreviewView {
    type V = PreviewShown;

    open spec fn view(&self) -> PreviewShown {
        PreviewShown {
            asset: self.asset@,
            texture: self.texture@,
            meta: self.meta@,
            notice: self.notice@,
            body: self.body@,
        }
    }
}

/// A preview without a body.
pub open spec fn told(
    asset: Seq<char>,
    texture: Seq<char>,
    meta: Seq<char>,
    notice: Seq<char>,
) -> PreviewShown {
    PreviewShown { asset, texture, meta, notice, body: BodyShown::Empty }
}

fn tell(asset: String, texture: &str, meta: &str, notice: &str) -> (r: PreviewView)
    ensures
        r@ == told(asset@, texture@, meta@, notice@),
{
    PreviewView {
        asset,
        texture: texture.to_owned(),
        meta: meta.to_owned(),
        notice: notice.to_owned(),
        body: PreviewBody::Empty,
    }
}

/// The title of an asset with that of one of its entries.
pub open spec fn entry_heading(asset: ImportedAsset, entry: ImportedArchiveEntry) -> Seq<char> {
    title_of(asset.source_path.bytes()) + " / "@ + entry.title@
}

fn entry_heading_text(asset: &ImportedAsset, entry: &ImportedArchiveEntry) -> (r: String)
    ensures
        r@ == entry_heading(*asset, *entry),
{
    let mut out = asset.title();
    out.append(" / ");
    out.append(entry.title.as_str());
    out
}

/// The preview of an entry that holds no textures; nothing for other entries.
pub open spec fn entry_preview(
    asset: ImportedAsset,
    entry: ImportedArchiveEntry,
    text: Seq<char>,
) -> Option<PreviewShown> {
    let heading = entry_heading(asset, entry);
    match entry.content_kind {
        ArchiveContentKind::XmlText | ArchiveContentKind::ConvertedXml => Some(
            PreviewShown {
                asset: heading,
                texture: entry.title@,
                meta: "XML / META / YMT text"@,
                notice: if entry.dirty {
                    "Staged changes will be used when you rebuild the package."@
                } else {
                    ""@
                },
                body: BodyShown::Text(text),
            },
        ),
        ArchiveContentKind::File => Some(
            told(
                heading,
                entry.title@,
                "Staged file"@,
                "This staged file will be added when you rebuild the package."@,
            ),
        ),
        _ => None,
    }
}

fn preview_of_entry(asset: &ImportedAsset, entry: &ImportedArchiveEntry, text: &String) -> (r:
    Option<PreviewView>)
    ensures
        match r {
            Some(view) => entry_preview(*asset, *entry, text@) == Some(view@),
            None => entry_preview(*asset, *entry, text@) is None,
        },
{
    match entry.content_kind {
        ArchiveContentKind::XmlText | ArchiveContentKind::ConvertedXml => {
            let notice = if entry.dirty {
                "Staged changes will be used when you rebuild the package."
            } else {
                ""
            };
            Some(
                PreviewView {
                    asset: entry_heading_text(asset, entry),
                    texture: entry.title.clone(),
                    meta: "XML / META / YMT text".to_owned(),
                    notice: notice.to_owned(),
                    body: PreviewBody::Text(text.clone()),
                },
            )
        },
        ArchiveContentKind::File => Some(
            tell(
                entry_heading_text(asset, entry),
                entry.title.as_str(),
                "Staged file",
                "This staged file will be added when you rebuild the package.",
            ),
        ),
        ArchiveContentKind::Folder
        | ArchiveContentKind::Package
        | ArchiveContentKind::TextureAsset => None,
    }
}

/// What is told of a texture.
pub open spec fn texture_meta(texture: TextureEntry) -> Seq<char> {
    size_text(texture.width, texture.height) + " | "@ + texture.format@.label() + " | "@ + decimal(
        texture.mips as nat,
    ) + " mips"@
}

fn texture_meta_text(texture: &TextureEntry) -> (r: String)
    ensures
        r@ == texture_meta(*texture),
{
    let mut out = texture.width_height_label();
    out.append(" | ");
    out.append(texture.format.label());
    out.append(" | ");
    out.append(text::show(texture.mips as u64).as_str());
    out.append(" mips");
    out
}

/// The picture of a texture, once it was loaded.
pub open spec fn picture_of(texture: TextureEntry) -> Option<u64> {
    if texture.preview_loading {
        None
    } else {
        texture.preview_texture
    }
}

/// One of three notices: of a preview that is loading, of one that is there, and of one that is not.
pub open spec fn by_preview<T>(texture: TextureEntry, loading: T, there: T, missing: T) -> T {
    if texture.preview_loading {
        loading
    } else if texture.preview_texture is Some {
        there
    } else {
        missing
    }
}

fn picture(texture: &TextureEntry) -> (r: Option<u64>)
    ensures
        r == picture_of(*texture),
{
    if texture.preview_loading {
        None
    } else {
        texture.preview_texture
    }
}

fn choose_by_preview(
    texture: &TextureEntry,
    loading: &'static str,
    there: &'static str,
    missing: &'static str,
) -> (r: &'static str)
    ensures
        r@ == by_preview(*texture, loading@, there@, missing@),
{
    if texture.preview_loading {
        loading
    } else if texture.preview_texture.is_some() {
        there
    } else {
        missing
    }
}

impl App {
    /// What the pane on the right shows of the selected texture.
    pub open spec fn texture_preview(
        self,
        asset: ImportedAsset,
        texture: TextureEntry,
    ) -> PreviewShown {
        PreviewShown {
            asset: match self.current_entry() {
                Some((a, e)) => entry_heading(asset, asset.archive_entries@[e]),
                None => title_of(asset.source_path.bytes()),
            },
            texture: texture.name@,
            meta: texture_meta(texture) + " | "@ + texture.usage@,
            notice: by_preview(
                texture,
                "Loading preview..."@,
                ""@,
                "Preview not available yet."@,
            ),
            body: BodyShown::Picture(picture_of(texture)),
        }
    }

    /// What the pane on the right shows where no texture is selected.
    pub open spec fn no_texture_preview(self, asset: ImportedAsset) -> PreviewShown {
        told(
            title_of(asset.source_path.bytes()),
            match asset.archive_selected_file {
                Some(path) => match asset.node(path@) {
                    Some(node) => node.name,
                    None => "Select a texture to preview."@,
                },
                None => "Select a texture to preview."@,
            },
            ""@,
            text_or(asset.archive_file_notice, "Not supported."@),
        )
    }

    /// What the pane on the right shows of an asset, beside the entries without textures.
    pub open spec fn asset_preview(self, asset: ImportedAsset) -> PreviewShown {
        if !asset.archive() && self.selected_texture is None {
            told("Select a texture to preview."@, ""@, ""@, ""@)
        } else if asset.archive() && asset.archive_selected_file is None {
            told(
                title_of(asset.source_path.bytes()),
                "Archive browser"@,
                "Select a file in the middle pane to inspect its textures."@,
                ""@,
            )
        } else {
            match self.current_slot() {
                Some((a, e, t)) => self.texture_preview(asset, texture_in(asset, e, t)),
                None => self.no_texture_preview(asset),
            }
        }
    }

    /// What the pane on the right shows, given what the file of a selected text holds.
    pub open spec fn preview_shown(self, text: Seq<char>) -> PreviewShown {
        match self.selected_asset {
            None => match self.current_mod_browser_path {
                Some(current) => told(
                    shown_path(current.bytes()),
                    "Folder browser"@,
                    "Open a supported file or navigate into a subfolder."@,
                    ""@,
                ),
                None => told("Select a package first."@, ""@, ""@, ""@),
            },
            Some(i) => {
                let asset = self.assets@[i as int];
                match self.current_entry() {
                    Some((a, e)) => match entry_preview(asset, asset.archive_entries@[e], text) {
                        Some(shown) => shown,
                        None => self.asset_preview(asset),
                    },
                    None => self.asset_preview(asset),
                }
            },
        }
    }

    fn texture_pane(&self, asset: &ImportedAsset, texture: &TextureEntry) -> (r: PreviewView)
        requires
            self.current_entry() matches Some((a, _)) ==> *asset == self.assets@[a],
        ensures
            r@ == self.texture_preview(*asset, *texture),
    {
        let heading = match self.current_archive_entry() {
            Some(entry) => entry_heading_text(asset, entry),
            None => asset.title(),
        };
        let mut meta = texture_meta_text(texture);
        meta.append(" | ");
        meta.append(texture.usage.as_str());
        PreviewView {
            asset: heading,
            texture: texture.name.clone(),
            meta,
            notice: choose_by_preview(
                texture,
                "Loading preview...",
                "",
                "Preview not available yet.",
            ).to_owned(),
            body: PreviewBody::Picture(picture(texture)),
        }
    }

    fn no_texture_pane(&self, asset: &ImportedAsset) -> (r: PreviewView)
        ensures
            r@ == self.no_texture_preview(*asset),
    {
        let notice = text::value_or(&asset.archive_file_notice, "Not supported.");
        let mut name = "Select a texture to preview.".to_owned();
        if let Some(path) = &asset.archive_selected_file {
            if let Some(node) = asset.find_archive_node(path.as_str()) {
                proof {
                    crate::archive::lemma_view(*node);
                }
                name = node.name.clone();
            }
        }
        tell(asset.title(), name.as_str(), "", notice.as_str())
    }

    fn asset_pane(&self, i: usize) -> (r: PreviewView)
        requires
            self.selected_asset == Some(i),
            i < self.assets@.len(),
        ensures
            r@ == self.asset_preview(self.assets@[i as int]),
    {
        let asset = &self.assets[i];
        if !asset.is_archive() && self.selected_texture.is_none() {
            return tell("Select a texture to preview.".to_owned(), "", "", "");
        }
        if asset.is_archive() && asset.archive_selected_file.is_none() {
            return tell(
                asset.title(),
                "Archive browser",
                "Select a file in the middle pane to inspect its textures.",
                "",
            );
        }
        match self.current_texture_entry() {
            Some(texture) => self.texture_pane(asset, texture),
            None => self.no_texture_pane(asset),
        }
    }

    /// The pane on the right, given what the file of a selected text holds.
    pub fn preview_pane(&self, text: &String) -> (r: PreviewView)
        requires
            self.well_formed(),
        ensures
            r@ == self.preview_shown(text@),
    {
        let i: usize = match self.selected_asset {
            Some(i) => i,
            None => {
                return match &self.current_mod_browser_path {
                    Some(current) => tell(
                        paths::shown(current.as_path()),
                        "Folder browser",
                        "Open a supported file or navigate into a subfolder.",
                        "",
                    ),
                    None => tell("Select a package first.".to_owned(), "", "", ""),
                };
            },
        };
        if let Some(entry) = self.current_archive_entry() {
            if let Some(view) = preview_of_entry(&self.assets[i], entry, text) {
                return view;
            }
        }
        self.asset_pane(i)
    }
}

/// The page of the editors.
pub enum EditorView {
    /// The setup is shown in its place.
    Setup,
    /// There is nothing to edit.
    Closed,
    Text { title: String, notice: String, original: String, draft: String },
    Texture {
        title: String,
        meta: String,
        notice: String,
        picture: Option<u64>,
        width: u32,
        height: u32,
        complete: bool,
    },
}

/// What the page of the editors shows.
pub enum EditorShown {
    Setup,
    Closed,
    Text { title: Seq<char>, notice: Seq<char>, original: Seq<char>, draft: Seq<char> },
    Texture {
        title: Seq<char>,
        meta: Seq<char>,
        notice: Seq<char>,
        picture: Option<u64>,
        width: u32,
        height: u32,
        complete: bool,
    },
}

impl View for EditorView {
    type V = EditorShown;

    open spec fn view(&self) -> EditorShown {
        match *self {
            EditorView::Setup => EditorShown::Setup,
            EditorView::Closed => EditorShown::Closed,
            EditorView::Text { title, notice, original, draft } => EditorShown::Text {
                title: title@,
                notice: notice@,
                original: original@,
                draft: draft@,
            },
            EditorView::Texture { title, meta, notice, picture, width, height, complete } =>
            EditorShown::Texture {
                title: title@,
                meta: meta@,
                notice: notice@,
                picture,
                width,
                height,
                complete,
            },
        }
    }
}

/// Whether the user was led back as it should be; `r` is the page that is shown then, where it changes.
pub open spec fn went_back(
    before: App,
    page: Option<Page>,
    root_is_dir: bool,
    after: App,
    r: Option<Page>,
) -> bool {
    if before.editor is Some || before.text_editor is Some {
        r == Some(Page::Browser) && after == (App {
            editor: None,
            text_editor: None,
            ..before
        })
    } else if page == Some(Page::Browser) {
        r == Some(Page::Dashboard) && after == before
    } else {
        r is None && after == (App {
            setup_step: match before.setup_step.preceding() {
                Some(step) if before.needs_setup(root_is_dir) => step,
                _ => before.setup_step,
            },
            ..before
        })
    }
}

impl App {
    /// The editor of a text.
    pub open spec fn text_editor_shown(self) -> EditorShown {
        let editing = self.text_editor->0;
        if editing.asset_index >= self.assets@.len() {
            EditorShown::Closed
        } else {
            let asset = self.assets@[editing.asset_index as int];
            match asset.entry(editing.entry_path@) {
                None => EditorShown::Closed,
                Some(e) => match asset.archive_entries@[e].text_before() {
                    None => EditorShown::Closed,
                    Some(original) => EditorShown::Text {
                        title: "Editing "@ + entry_heading(asset, asset.archive_entries@[e]),
                        notice: text_or(editing.validation_message, ""@),
                        original: original@,
                        draft: editing.draft_text@,
                    },
                },
            }
        }
    }

    /// The editor of a texture.
    pub open spec fn texture_editor_shown(self) -> EditorShown {
        if !self.edited_texture_there() {
            EditorShown::Closed
        } else {
            let editor = self.editor->0;
            let asset = self.assets@[editor.asset_index as int];
            let texture = self.edited_texture();
            let heading = match self.edited_entry() {
                Some(e) => entry_heading(asset, asset.archive_entries@[e]),
                None => title_of(asset.source_path.bytes()),
            };
            EditorShown::Texture {
                title: "Editing "@ + heading + " / "@ + texture.name@,
                meta: "Target: "@ + texture_meta(texture),
                notice: by_preview(
                    texture,
                    "Loading original preview..."@,
                    ""@,
                    "Original preview not available yet."@,
                ),
                picture: picture_of(texture),
                width: texture.width,
                height: texture.height,
                complete: editor.root@.missing() == 0,
            }
        }
    }

    /// What the page of the editors shows.
    pub open spec fn editor_shown(self, root_is_dir: bool) -> EditorShown {
        if self.needs_setup(root_is_dir) {
            EditorShown::Setup
        } else if self.text_editor is Some {
            self.text_editor_shown()
        } else {
            self.texture_editor_shown()
        }
    }

    fn text_editor_view(&self) -> (r: EditorView)
        requires
            self.text_editor is Some,
        ensures
            r@ == self.text_editor_shown(),
    {
        if let Some(editing) = &self.text_editor {
            if editing.asset_index < self.assets.len() {
                let asset = &self.assets[editing.asset_index];
                if let Some(entry) = asset.find_archive_entry(editing.entry_path.as_str()) {
                    if let Some(original) = entry.original_text() {
                        let mut title = "Editing ".to_owned();
                        title.append(entry_heading_text(asset, entry).as_str());
                        return EditorView::Text {
                            title,
                            notice: text::value_or(&editing.validation_message, ""),
                            original: original.clone(),
                            draft: editing.draft_text.clone(),
                        };
                    }
                }
            }
        }
        EditorView::Closed
    }

    fn texture_editor_view(&self) -> (r: EditorView)
        requires
            self.well_formed(),
        ensures
            r@ == self.texture_editor_shown(),
    {
        match (&self.editor, self.texture_being_edited()) {
            (Some(editor), Some(texture)) => {
                let asset = &self.assets[editor.asset_index];
                let entry = match &editor.entry_path {
                    Some(path) => asset.find_archive_entry(path.as_str()),
                    None => None,
                };
                let heading = match entry {
                    Some(entry) => entry_heading_text(asset, entry),
                    None => asset.title(),
                };
                let mut title = "Editing ".to_owned();
                title.append(heading.as_str());
                title.append(" / ");
                title.append(texture.name.as_str());
                let mut meta = "Target: ".to_owned();
                meta.append(texture_meta_text(texture).as_str());
                EditorView::Texture {
                    title,
                    meta,
                    notice: choose_by_preview(
                        texture,
                        "Loading original preview...",
                        "",
                        "Original preview not available yet.",
                    ).to_owned(),
                    picture: picture(texture),
                    width: texture.width,
                    height: texture.height,
                    complete: editor.is_complete(),
                }
            },
            _ => EditorView::Closed,
        }
    }

    /// The page of the editors.
    pub fn editor_page(&self, root_is_dir: bool) -> (r: EditorView)
        requires
            self.well_formed(),
        ensures
            r@ == self.editor_shown(root_is_dir),
    {
        if self.setup_required(root_is_dir) {
            EditorView::Setup
        } else if self.text_editor.is_some() {
            self.text_editor_view()
        } else {
            self.texture_editor_view()
        }
    }

    /// Goes back from a page: out of an editor, from the browser to the dashboard, and in the
    /// setup to the step before. Tells the page that is shown then, where that is another one.
    pub fn go_back(&mut self, page: Option<Page>, root_is_dir: bool) -> (r: Option<Page>)
        ensures
            went_back(*old(self), page, root_is_dir, *final(self), r),
            old(self).well_formed() ==> final(self).well_formed(),
    {
        if self.in_editor() {
            self.close_editor_page();
            return Some(Page::Browser);
        }
        if let Some(Page::Browser) = page {
            self.open_dashboard();
            return Some(Page::Dashboard);
        }
        if self.setup_required(root_is_dir) {
            self.go_back_in_setup();
        }
        None
    }
}

/// The setup comes first: as long as a tool, the source or the build of the helper, or the game
/// folder is missing, the setup is shown in place of the editors, and no texture can be written.
pub proof fn the_setup_comes_first(app: App, root_is_dir: bool)
    requires
        !app.setup_status.cwassettool_source || !app.setup_status.codewalker_source
            || !app.setup_status.git_available || !app.setup_status.dotnet_available
            || !app.setup_status.magick_available || !app.setup_status.cwassettool_binary
            || app.game_root(root_is_dir) is None,
    ensures
        app.needs_setup(root_is_dir),
        app.editor_shown(root_is_dir) is Setup,
        !app.can_apply(root_is_dir),
{
}

/// A texture shows its picture only once it was loaded, and exactly then nothing is told in its place.
pub proof fn a_picture_is_shown_once_loaded(texture: TextureEntry)
    ensures
        picture_of(texture) is Some <==> !texture.preview_loading && texture.preview_texture is Some,
        picture_of(texture) is Some ==> picture_of(texture) == texture.preview_texture,
        by_preview(texture, 0int, 1int, 2int) == 1 <==> picture_of(texture) is Some,
        by_preview(texture, 0int, 1int, 2int) == 0 <==> texture.preview_loading,
{
}

/// What is told of a texture gives its size, then its format, then its mip levels.
pub proof fn a_texture_is_told_by_its_measures(texture: TextureEntry)
    ensures
        ({
            let told = texture_meta(texture);
            let size = decimal(texture.width as nat) + "x"@ + decimal(texture.height as nat);
            &&& begins(told, size)
            &&& ends(told, decimal(texture.mips as nat) + " mips"@)
            &&& occurs(told, texture.format@.label())
            &&& told.len() == size.len() + texture.format@.label().len() + decimal(
                texture.mips as nat,
            ).len() + 11
        }),
{
    reveal_strlit(" | ");
    reveal_strlit(" mips");
    reveal_strlit("x");
    let told = texture_meta(texture);
    let size = size_text(texture.width, texture.height);
    let label = texture.format@.label();
    let mips = decimal(texture.mips as nat) + " mips"@;
    assert(size =~= decimal(texture.width as nat) + "x"@ + decimal(texture.height as nat));
    assert(told.subrange(0, size.len() as int) =~= size);
    assert(told.subrange(told.len() - mips.len(), told.len() as int) =~= mips);
    let at = size.len() as int + 3;
    assert(told.subrange(at, at + label.len()) =~= label);
    assert(occurs_at(told, label, at));
}

/// The preview is that of what is selected: the text of a selected text entry, the picture of a selected
/// texture, and neither where nothing of the kind is selected.
pub proof fn the_preview_is_of_what_is_selected(app: App, text: Seq<char>)
    requires
        app.selected_asset matches Some(i) ==> i < app.assets@.len(),
    ensures
        ({
            let shown = app.preview_shown(text);
            &&& app.selected_asset is None ==> shown.body is Empty && shown.notice.len() == 0
            &&& app.selected_asset is None && app.current_mod_browser_path is Some ==> shown.asset
                == shown_path(app.current_mod_browser_path->0.bytes())
            &&& shown.body matches BodyShown::Text(own) ==> own == text
            &&& shown.body is Text <==> app.current_text() is Some
            &&& app.current_text() matches Some((a, e)) ==> shown.texture
                == app.assets@[a].archive_entries@[e].title@
            &&& shown.body matches BodyShown::Picture(picture) ==> (app.current_slot() matches Some(
                (a, e, t),
            ) && picture == picture_of(texture_in(app.assets@[a], e, t)) && shown.texture
                == texture_in(app.assets@[a], e, t).name@ && begins(
                shown.meta,
                texture_meta(texture_in(app.assets@[a], e, t)),
            ) && ends(shown.meta, texture_in(app.assets@[a], e, t).usage@))
            &&& shown.body matches BodyShown::Picture(picture) ==> (picture is Some <==> shown.notice.len()
                == 0)
            &&& shown.body is Picture ==> (app.current_slot() matches Some((a, e, t)) ==> (shown.notice
                == "Loading preview..."@ <==> texture_in(app.assets@[a], e, t).preview_loading))
            &&& app.selected_asset is Some && !(shown.body is Empty) ==> begins(
                shown.asset,
                title_of(app.assets@[app.selected_asset->0 as int].source_path.bytes()),
            )
        }),
{
    reveal_strlit("");
    reveal_strlit(" | ");
    reveal_strlit(" / ");
    reveal_strlit("Loading preview...");
    reveal_strlit("Preview not available yet.");
    assert("Loading preview..."@[0] == 'L' && "Preview not available yet."@[0] == 'P');
    let shown = app.preview_shown(text);
    if let Some(i) = app.selected_asset {
        let asset = app.assets@[i as int];
        let title = title_of(asset.source_path.bytes());
        if !(shown.body is Empty) {
            assert(shown.asset.subrange(0, title.len() as int) =~= title);
        }
        if shown.body is Picture {
            let (a, e, t) = app.current_slot()->0;
            let texture = texture_in(app.assets@[a], e, t);
            let meta = texture_meta(texture);
            assert(shown.meta.subrange(0, meta.len() as int) =~= meta);
            assert(shown.meta.subrange(
                shown.meta.len() - texture.usage@.len(),
                shown.meta.len() as int,
            ) =~= texture.usage@);
        }
    }
}

/// An entry without textures is told under its own title behind that of its archive; a text has a notice
/// exactly when it has staged changes.
pub proof fn an_entry_is_told_under_its_title(
    asset: ImportedAsset,
    entry: ImportedArchiveEntry,
    text: Seq<char>,
)
    ensures
        entry_preview(asset, entry, text) is Some <==> entry.shown_as_text()
            || entry.content_kind is File,
        entry_preview(asset, entry, text) matches Some(shown) ==> {
            &&& shown.texture == entry.title@
            &&& ends(shown.asset, entry.title@)
            &&& begins(shown.asset, title_of(asset.source_path.bytes()))
            &&& entry.shown_as_text() ==> (shown.notice.len() == 0 <==> !entry.dirty)
            &&& entry.content_kind is File ==> shown.body is Empty && shown.notice.len() > 0
        },
{
    reveal_strlit("");
    reveal_strlit("Staged changes will be used when you rebuild the package.");
    reveal_strlit("This staged file will be added when you rebuild the package.");
    if let Some(shown) = entry_preview(asset, entry, text) {
        let title = title_of(asset.source_path.bytes());
        assert(shown.asset.subrange(0, title.len() as int) =~= title);
        assert(shown.asset.subrange(
            shown.asset.len() - entry.title@.len(),
            shown.asset.len() as int,
        ) =~= entry.title@);
    }
}

/// The page of the editors shows the text that is edited beside the one in the archive, or the texture
/// that is edited in its own size; what is edited no longer is closed.
pub proof fn the_editor_shows_what_is_edited(app: App)
    ensures
        app.text_editor matches Some(editing) ==> {
            &&& app.text_editor_shown() matches EditorShown::Text { original, draft, .. } ==> draft
                == editing.draft_text@ && editing.asset_index < app.assets@.len() && (
            app.assets@[editing.asset_index as int].entry(editing.entry_path@) matches Some(e)
                && app.assets@[editing.asset_index as int].archive_entries@[e].text_before()
                matches Some(own) && original == own@)
            &&& app.text_editor_shown() is Text || app.text_editor_shown() is Closed
            &&& editing.asset_index >= app.assets@.len() ==> app.text_editor_shown() is Closed
        },
        app.texture_editor_shown() is Texture <==> app.edited_texture_there(),
        app.texture_editor_shown() matches EditorShown::Texture {
            title,
            picture,
            width,
            height,
            complete,
            ..
        } ==> {
            let texture = app.edited_texture();
            &&& width == texture.width && height == texture.height
            &&& picture == picture_of(texture)
            &&& ends(title, texture.name@)
            &&& complete <==> app.editor->0.root@.missing() == 0
        },
{
    if app.texture_editor_shown() is Texture {
        let title = app.texture_editor_shown()->Texture_title;
        let name = app.edited_texture().name@;
        assert(title.subrange(title.len() - name.len(), title.len() as int) =~= name);
    }
}

/// Going back leaves an editor first, then the browser, then a step of the setup; nothing that was edited
/// is lost, and no step is left unless the setup is asked for.
pub proof fn going_back_leaves_one_page(
    before: App,
    page: Option<Page>,
    root_is_dir: bool,
    after: App,
    r: Option<Page>,
)
    requires
        went_back(before, page, root_is_dir, after, r),
    ensures
        r is Some <==> before.editor is Some || before.text_editor is Some || page == Some(
            Page::Browser,
        ),
        before.editor is Some || before.text_editor is Some ==> r == Some(Page::Browser),
        after.editor is None || before.editor is None,
        after.assets == before.assets && after.config == before.config,
        after.setup_step != before.setup_step ==> r is None && before.needs_setup(root_is_dir)
            && before.setup_step.preceding() == Some(after.setup_step),
        r is None && before.needs_setup(root_is_dir) && before.setup_step.preceding() is Some
            ==> before.setup_step.preceding() == Some(after.setup_step),
        r is Some ==> after.setup_step == before.setup_step,
        r is Some ==> after.editor is None && after.text_editor is None || after == before,
{
}

/// Where no texture is selected, the notice on the selected file is told under its name, and without one
/// that it is not supported.
pub proof fn a_file_without_textures_is_told_by_its_notice(app: App, asset: ImportedAsset)
    ensures
        ({
            let shown = app.no_texture_preview(asset);
            &&& shown.asset == title_of(asset.source_path.bytes()) && shown.body is Empty
            &&& asset.archive_file_notice matches Some(own) ==> shown.notice == own@
            &&& asset.archive_file_notice is None ==> shown.notice == "Not supported."@
            &&& asset.archive_selected_file matches Some(path) ==> (asset.node(path@) matches Some(node)
                ==> shown.texture == node.name)
        }),
{
}

}
