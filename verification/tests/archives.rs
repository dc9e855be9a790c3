//! Archives: their trees, what is staged in them, and how they are rebuilt.

use gtav_texture_importer::app::App;
use gtav_texture_importer::archive::{
    archive_content_kind_for_extension, archive_icon_name_for_node, archive_name_matches_query,
    archive_parent_path_from_entry_path, ArchiveContentKind, ArchiveTextSourceKind, RpfTreeNode,
    RpfTreeNodeKind,
};
use gtav_texture_importer::assets::{
    ArchiveEntryOpenOutcome, ImportedArchiveEntryData, ImportedArchiveEntryDraft,
    ImportedArchiveTextDraft, ImportedAssetDraft, RpfBuildAction,
};
use gtav_texture_importer::browse::ArchiveOpening;
use gtav_texture_importer::config::AppConfig;
use gtav_texture_importer::jobs::JobResult;
use gtav_texture_importer::launcher::LauncherDependencyStatus;
use gtav_texture_importer::setup::{SetupStatus, ToolPaths};
use gtav_texture_importer::staging::{archive_addition, ArchiveAddition};
use gtav_texture_importer::textures::{AssetKind, TextureEntryDraft, TextureFormat};
use gtav_texture_importer::views::ListRows;
use gtav_texture_importer::workspace::texture_entry_outcome;
use std::path::{Path, PathBuf};

fn path(text: &str) -> PathBuf {
    PathBuf::from(text)
}

fn node(
    name: &str,
    path: &str,
    kind: RpfTreeNodeKind,
    content_kind: ArchiveContentKind,
    children: Vec<RpfTreeNode>,
) -> RpfTreeNode {
    RpfTreeNode {
        name: name.to_string(),
        path: path.to_string(),
        display_path: path.replace('\\', " / "),
        kind,
        content_kind,
        children,
    }
}

fn file(name: &str, path: &str, content_kind: ArchiveContentKind) -> RpfTreeNode {
    node(name, path, RpfTreeNodeKind::File, content_kind, Vec::new())
}

fn tree() -> RpfTreeNode {
    let data = node(
        "Data",
        "dlc.rpf\\data",
        RpfTreeNodeKind::Folder,
        ArchiveContentKind::Folder,
        vec![file("peds.ymt", "dlc.rpf\\data\\peds.ymt", ArchiveContentKind::ConvertedXml)],
    );
    node(
        "dlc.rpf",
        "dlc.rpf",
        RpfTreeNodeKind::Package,
        ArchiveContentKind::Package,
        vec![
            file("zz.bin", "dlc.rpf\\zz.bin", ArchiveContentKind::File),
            file("Car.ytd", "dlc.rpf\\car.ytd", ArchiveContentKind::TextureAsset),
            file("content.xml", "dlc.rpf\\content.xml", ArchiveContentKind::XmlText),
            data,
        ],
    )
}

fn app() -> App {
    let status = SetupStatus {
        cwassettool_source: true,
        codewalker_source: true,
        cwassettool_binary: true,
        git_available: true,
        dotnet_available: true,
        magick_available: true,
        wine_available: true,
        wineboot_available: true,
        wineserver_available: true,
        winetricks_available: true,
    };
    let launcher = LauncherDependencyStatus {
        wine_available: true,
        wineboot_available: true,
        wineserver_available: true,
        winetricks_available: true,
        bash_available: true,
        tar_available: true,
    };
    let mut config = AppConfig::load(None);
    config.setup_complete = true;
    config.setup_revision = 2;
    config.game_root_path = Some(path("/game"));
    App::launch(ToolPaths::discover(Path::new("/app")), config, status, launcher)
}

fn opened() -> App {
    let mut app = app();
    app.pending_jobs = 1;
    let draft = ImportedAssetDraft {
        id: "dlc_1".to_string(),
        source_path: path("/game/mods/dlc.rpf"),
        kind: AssetKind::Rpf,
        folder_id: 0,
        xml_path: None,
        textures: Vec::new(),
        archive_tree: Some(tree()),
    };
    let follow = app.handle_job_results(JobResult::ImportFinished {
        source_path: path("/game/mods/dlc.rpf"),
        result: Ok(draft),
    });
    assert!(follow.preview.is_none());
    assert_eq!(app.status, "Opened dlc.rpf");
    assert_eq!(app.pending_jobs, 0);
    app
}

fn texture(name: &str) -> TextureEntryDraft {
    TextureEntryDraft {
        name: name.to_string(),
        file_name: format!("{}.dds", name),
        width: 4,
        height: 4,
        mips: 1,
        format: TextureFormat::Dxt5,
        usage: "DIFFUSE".to_string(),
        dds_path: PathBuf::from(format!("/s/{}.dds", name)),
        preview_png_path: PathBuf::from(format!("/s/{}.png", name)),
    }
}

fn with_text() -> App {
    let mut app = opened();
    match app.open_archive_file(0, "dlc.rpf\\content.xml".to_string()) {
        ArchiveOpening::Export(job) => {
            assert_eq!(job.asset_id, "dlc_1");
            assert_eq!(job.archive_path, path("/game/mods/dlc.rpf"));
        }
        _ => panic!("the text is exported"),
    }
    assert_eq!(app.pending_jobs, 1);
    let draft = ImportedArchiveTextDraft {
        entry_path: "dlc.rpf\\content.xml".to_string(),
        title: "content.xml".to_string(),
        source_path: path("/s/content.xml"),
        original_text: "<a/>".to_string(),
        source_kind: ArchiveTextSourceKind::RawText,
    };
    app.handle_job_results(JobResult::OpenArchiveEntryFinished {
        asset_id: "dlc_1".to_string(),
        entry_path: "dlc.rpf\\content.xml".to_string(),
        result: Ok(ArchiveEntryOpenOutcome::XmlText(draft)),
    });
    app
}

#[test]
fn nodes_are_found_by_their_path() {
    let tree = tree();
    assert_eq!(tree.find("dlc.rpf\\data\\peds.ymt").map(|n| n.name.as_str()), Some("peds.ymt"));
    assert!(tree.find("nowhere").is_none());
    assert_eq!(tree.parent_path("dlc.rpf\\data\\peds.ymt").as_deref(), Some("dlc.rpf\\data"));
    assert!(tree.parent_path("dlc.rpf").is_none());
}

#[test]
fn nodes_are_added_below_a_folder() {
    let mut tree = tree();
    let new = file("x.xml", "dlc.rpf\\data\\x.xml", ArchiveContentKind::XmlText);
    assert!(tree.add_child("dlc.rpf\\data", new).is_none());
    assert!(tree.find("dlc.rpf\\data\\x.xml").is_some());
    let lost = file("y.xml", "q\\y.xml", ArchiveContentKind::XmlText);
    assert_eq!(tree.add_child("q", lost).map(|n| n.name).as_deref(), Some("y.xml"));
}

#[test]
fn entries_have_icons_kinds_and_parents() {
    assert_eq!(archive_icon_name_for_node(&tree()), "package-x-generic-symbolic");
    assert!(archive_content_kind_for_extension("META") == ArchiveContentKind::XmlText);
    assert!(archive_content_kind_for_extension("rpf") == ArchiveContentKind::Package);
    assert!(archive_content_kind_for_extension("dat") == ArchiveContentKind::File);
    assert_eq!(archive_parent_path_from_entry_path("a\\b\\c").as_deref(), Some("a\\b"));
    assert!(archive_parent_path_from_entry_path("a").is_none());
    assert!(archive_name_matches_query("Car.YTD", "ytd"));
}

fn names(app: &App) -> Vec<String> {
    match app.textures_list(true, &None).rows {
        ListRows::Archive(rows) => rows.iter().map(|row| row.name.clone()).collect(),
        _ => Vec::new(),
    }
}

#[test]
fn an_archive_shows_folders_first_and_goes_by_names() {
    let mut app = opened();
    assert_eq!(names(&app), vec!["Data", "Car.ytd", "content.xml", "zz.bin"]);
    app.toggle_archive_path_expanded(0, "dlc.rpf\\data");
    assert_eq!(names(&app), vec!["Data", "peds.ymt", "Car.ytd", "content.xml", "zz.bin"]);
    app.toggle_archive_path_expanded(0, "dlc.rpf\\data");
    assert_eq!(names(&app), vec!["Data", "Car.ytd", "content.xml", "zz.bin"]);
}

#[test]
fn an_archive_is_searched() {
    let mut app = opened();
    app.set_archive_search_query(" CAR ".to_string());
    assert_eq!(names(&app), vec!["Car.ytd"]);
    app.set_archive_search_query("nothing".to_string());
    let view = app.textures_list(true, &None);
    assert_eq!(view.notice, "No items match \"nothing\" in this section.");
    assert!(view.search && view.archive);
}

#[test]
fn an_archive_is_browsed() {
    let mut app = opened();
    app.browse_archive_path(0, "dlc.rpf\\data".to_string());
    let view = app.textures_list(true, &None);
    assert_eq!(view.title, "Archive Explorer");
    assert_eq!(view.path, "dlc.rpf / data");
    assert!(view.back);
    assert!(!app.select_archive_parent(true));
    assert_eq!(names(&app).len(), 4);
}

#[test]
fn files_of_no_use_are_not_opened() {
    let mut app = opened();
    assert!(matches!(
        app.open_archive_file(0, "dlc.rpf\\zz.bin".to_string()),
        ArchiveOpening::Unsupported
    ));
    assert!(matches!(
        app.open_archive_file(0, "dlc.rpf\\gone".to_string()),
        ArchiveOpening::NotFound
    ));
    assert_eq!(app.pending_jobs, 0);
}

#[test]
fn textures_of_an_entry_are_shown() {
    let mut app = opened();
    app.open_archive_file(0, "dlc.rpf\\car.ytd".to_string());
    assert_eq!(app.textures_list(true, &None).notice, "Loading file...");
    let draft = ImportedArchiveEntryDraft {
        entry_path: "dlc.rpf\\car.ytd".to_string(),
        title: "car.ytd".to_string(),
        xml_path: path("/s/car.ytd.xml"),
        textures: vec![texture("body"), texture("roof")],
    };
    let follow = app.handle_job_results(JobResult::OpenArchiveEntryFinished {
        asset_id: "dlc_1".to_string(),
        entry_path: "dlc.rpf\\car.ytd".to_string(),
        result: Ok(ArchiveEntryOpenOutcome::TextureAsset(draft)),
    });
    assert_eq!(follow.preview.map(|job| job.dds_path), Some(path("/s/body.dds")));
    let view = app.textures_list(true, &None);
    assert_eq!(view.title, "car.ytd (2 textures)");
    match view.rows {
        ListRows::Textures(rows) => {
            assert_eq!(rows[0].label, "body (4x4)");
            assert_eq!(rows[0].details, "body.dds | D3DFMT_DXT5 | 1 mips");
            assert!(rows[0].selected && !rows[1].selected);
        }
        _ => panic!("the textures are listed"),
    }
}

#[test]
fn an_entry_that_fails_to_open_is_told() {
    let mut app = opened();
    app.open_archive_file(0, "dlc.rpf\\car.ytd".to_string());
    app.handle_job_results(JobResult::OpenArchiveEntryFinished {
        asset_id: "dlc_1".to_string(),
        entry_path: "dlc.rpf\\car.ytd".to_string(),
        result: Err("no".to_string()),
    });
    assert!(app.status.contains("no"));
    assert_eq!(app.pending_jobs, 0);
}

#[test]
fn a_text_is_edited_checked_and_staged() {
    let mut app = with_text();
    assert_eq!(app.current_edit_button_label(), "Edit XML");
    assert!(app.open_editor_page("<a/>".to_string()));
    app.validate_text_editor("<a>".to_string());
    assert!(app.status.starts_with("XML validation failed: "));
    app.validate_text_editor("<b/>".to_string());
    assert_eq!(app.status, "XML is valid.");
    assert_eq!(app.begin_save_text("<b/>".to_string()), Some(path("/s/content.xml")));
    let toast = app.save_text_editor(Ok(()));
    assert_eq!(toast.as_deref(), Some("Staged XML saved for content.xml."));
    assert!(app.assets[0].dirty);
    assert_eq!(app.assets[0].build_archive_actions().len(), 1);
}

#[test]
fn a_text_that_stays_the_same_stages_nothing() {
    let mut app = with_text();
    assert!(app.open_editor_page("<a/>".to_string()));
    assert!(app.begin_save_text("<a/>".to_string()).is_some());
    app.save_text_editor(Ok(()));
    assert!(!app.assets[0].dirty);
}

#[test]
fn a_text_that_cannot_be_written_is_told() {
    let mut app = with_text();
    assert!(app.open_editor_page("<a/>".to_string()));
    assert!(app.begin_save_text("<c/>".to_string()).is_some());
    assert!(app.save_text_editor(Err("disk full".to_string())).is_none());
    assert_eq!(app.status, "Failed to save staged XML: disk full");
    assert!(!app.assets[0].dirty);
}

#[test]
fn the_outcome_of_a_validation_is_noted() {
    let mut app = with_text();
    assert!(app.open_editor_page("<a/>".to_string()));
    app.note_validation("x".to_string(), Some("bad".to_string()));
    assert_eq!(app.status, "XML validation failed: bad");
    let note = app.text_editor.as_ref().and_then(|editing| editing.validation_message.clone());
    assert_eq!(note.as_deref(), Some("XML is not valid: bad"));
    app.close_editor_page();
    assert!(!app.in_editor());
}

#[test]
fn folders_are_staged() {
    let mut app = opened();
    app.add_archive_folder("  New ");
    assert_eq!(app.status, "Added folder New to the package staging area.");
    let node = app.assets[0].find_archive_node("dlc.rpf\\new");
    assert_eq!(node.map(|n| n.display_path.clone()).as_deref(), Some("dlc.rpf / New"));
    assert!(app.assets[0].dirty);
    app.add_archive_folder("new");
    assert_eq!(app.status, "An item with that name already exists in this folder.");
    app.add_archive_folder("a/b");
    assert_eq!(app.status, "Folder names cannot contain path separators.");
    app.add_archive_folder(" ");
    assert_eq!(app.status, "Enter a folder name first.");
}

#[test]
fn folders_go_into_an_open_package() {
    let mut app = app();
    app.add_archive_folder("x");
    assert_eq!(app.status, "Open a package folder first.");
    assert!(app.current_archive_target_directory().is_none());
}

#[test]
fn files_are_staged_and_rebuilt() {
    let mut app = opened();
    app.add_archive_folder("new");
    app.browse_archive_path(0, "dlc.rpf\\new".to_string());
    app.add_archive_folder("deep");
    app.add_archive_file(
        "n.xml".to_string(),
        ArchiveContentKind::XmlText,
        path("/s/n.xml"),
        Ok("<n/>".to_string()),
    );
    assert_eq!(app.status, "Added n.xml to the package staging area.");
    app.add_archive_file(
        "n.ydr".to_string(),
        ArchiveContentKind::TextureAsset,
        path("/s/n.ydr"),
        Err("no text".to_string()),
    );
    let entry = app.assets[0].find_archive_entry("dlc.rpf\\new\\n.ydr");
    assert!(entry.map_or(false, |e| matches!(e.data, ImportedArchiveEntryData::StagedRaw { .. })));
    let actions = app.assets[0].build_archive_actions();
    assert_eq!(actions.len(), 4);
    match (&actions[0], &actions[1]) {
        (
            RpfBuildAction::AddFolder { parent_path: first, name: one },
            RpfBuildAction::AddFolder { parent_path: second, name: two },
        ) => {
            assert_eq!((first.as_str(), one.as_str()), ("dlc.rpf", "new"));
            assert_eq!((second.as_str(), two.as_str()), ("dlc.rpf\\new", "deep"));
        }
        _ => panic!("folders come first"),
    }
    match &actions[2] {
        RpfBuildAction::AddRawFile { parent_path, name, source_path } => {
            assert_eq!(parent_path, "dlc.rpf\\new");
            assert_eq!(name, "n.xml");
            assert_eq!(source_path, &path("/s/n.xml"));
        }
        _ => panic!("the file is added"),
    }
}

#[test]
fn texts_that_cannot_be_read_are_not_staged() {
    let mut app = opened();
    app.add_archive_file(
        "n.xml".to_string(),
        ArchiveContentKind::XmlText,
        path("/s/n.xml"),
        Err("stream did not contain valid UTF-8".to_string()),
    );
    assert_eq!(
        app.status,
        "Failed to read /s/n.xml as UTF-8 XML text: stream did not contain valid UTF-8"
    );
    assert!(!app.assets[0].dirty);
}

#[test]
fn staged_texts_replace_the_old_ones() {
    let mut app = with_text();
    app.assets[0].archive_entries[0].dirty = true;
    app.assets[0].sync_archive_dirty();
    match &app.assets[0].build_archive_actions()[0] {
        RpfBuildAction::ReplaceRawFile { entry_path, source_path } => {
            assert_eq!(entry_path, "dlc.rpf\\content.xml");
            assert_eq!(source_path, &path("/s/content.xml"));
        }
        _ => panic!("the text is replaced"),
    }
}

fn refusal(addition: ArchiveAddition) -> Option<&'static str> {
    match addition {
        ArchiveAddition::Refused(why) => Some(why),
        _ => None,
    }
}

#[test]
fn additions_are_checked() {
    assert_eq!(refusal(archive_addition(" ", true, 0, true, None)), Some("Enter a name first."));
    assert_eq!(
        refusal(archive_addition("a.b", true, 0, true, None)),
        Some("Set the file name without an extension.")
    );
    assert_eq!(
        refusal(archive_addition("a", false, 2, true, None)),
        Some("Empty files are only supported for XML and META.")
    );
    assert_eq!(
        refusal(archive_addition("a", false, 2, false, None)),
        Some("Choose a file to import first.")
    );
    match archive_addition(" a ", true, 0, true, None) {
        ArchiveAddition::Folder(name) => assert_eq!(name, "a"),
        _ => panic!("a folder is added"),
    }
    match archive_addition("a", false, 1, true, Some(path("/x"))) {
        ArchiveAddition::File { file_name, extension, source } => {
            assert_eq!(file_name, "a.meta");
            assert_eq!(extension, "meta");
            assert!(source.is_none());
        }
        _ => panic!("an empty text is added"),
    }
    match archive_addition("a", false, 9, false, Some(path("/x"))) {
        ArchiveAddition::File { file_name, source, .. } => {
            assert_eq!(file_name, "a.xml");
            assert_eq!(source, Some(path("/x")));
        }
        _ => panic!("a file is added"),
    }
}

#[test]
fn a_text_that_was_read_again_is_the_original() {
    let mut app = with_text();
    app.refresh_converted_text(0, "dlc.rpf\\content.xml", "<b/>".to_string());
    match &app.assets[0].archive_entries[0].data {
        ImportedArchiveEntryData::XmlText { source_path, original_text, .. } => {
            assert_eq!(source_path, &path("/s/content.xml"));
            assert_eq!(original_text, "<b/>");
        }
        _ => panic!("the entry is a text"),
    }
    let status = app.status.clone();
    app.refresh_converted_text(0, "dlc.rpf\\zz.bin", "<c/>".to_string());
    app.refresh_converted_text(7, "dlc.rpf\\content.xml", "<c/>".to_string());
    assert_eq!(app.status, status);
    assert_eq!(app.assets[0].archive_entries.len(), 1);
}

#[test]
fn the_files_of_staged_texts_are_named() {
    let app = with_text();
    assert_eq!(app.staged_texts("dlc_1"), vec![Some(path("/s/content.xml"))]);
    assert!(app.staged_texts("other").is_empty());
}

#[test]
fn an_entry_without_textures_is_not_supported() {
    let outcome = texture_entry_outcome(Err("No DDS textures were found in /s/a.xml".to_string()));
    match outcome {
        Ok(ArchiveEntryOpenOutcome::Unsupported(message)) => assert_eq!(message, "Not supported."),
        _ => panic!("the entry is not supported"),
    }
    assert!(matches!(
        texture_entry_outcome(Err("disk full".to_string())),
        Err(message) if message == "disk full"
    ));
}

#[test]
fn syncing_again_changes_nothing() {
    let mut app = with_text();
    app.assets[0].archive_entries[0].dirty = true;
    app.assets[0].sync_archive_dirty();
    assert!(app.assets[0].dirty);
    app.assets[0].sync_archive_dirty();
    assert!(app.assets[0].dirty);
    app.assets[0].archive_entries[0].dirty = false;
    app.assets[0].sync_archive_dirty();
    assert!(!app.assets[0].dirty);
    assert!(app.assets[0].build_archive_actions().is_empty());
}
