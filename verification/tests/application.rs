//! The state of the application and its pages.

use gtav_texture_importer::app::{
    is_valid_game_root, normalize_selected_game_root, App, Page,
};
use gtav_texture_importer::assets::ImportedAssetDraft;
use gtav_texture_importer::browse::AssetOpening;
use gtav_texture_importer::config::AppConfig;
use gtav_texture_importer::jobs::{JobResult, PreviewTrouble};
use gtav_texture_importer::launcher::LauncherDependencyStatus;
use gtav_texture_importer::listing::{read_mod_tree_entries, ModEntry, ModRowKind};
use gtav_texture_importer::preview::{EditorView, PreviewBody};
use gtav_texture_importer::queue::SetupCommand;
use gtav_texture_importer::sections::SplitAxis;
use gtav_texture_importer::setup::{SetupStatus, SetupStep, ToolPaths};
use gtav_texture_importer::staging::copy_into_directory;
use gtav_texture_importer::textures::{AssetKind, TextureEntryDraft, TextureFormat};
use gtav_texture_importer::views::{ListRows, PackageTree};
use std::path::{Path, PathBuf};

fn path(text: &str) -> PathBuf {
    PathBuf::from(text)
}

fn status(ready: bool) -> SetupStatus {
    SetupStatus {
        cwassettool_source: true,
        codewalker_source: ready,
        cwassettool_binary: ready,
        git_available: true,
        dotnet_available: true,
        magick_available: true,
        wine_available: true,
        wineboot_available: true,
        wineserver_available: true,
        winetricks_available: true,
    }
}

fn launcher() -> LauncherDependencyStatus {
    LauncherDependencyStatus {
        wine_available: true,
        wineboot_available: true,
        wineserver_available: true,
        winetricks_available: true,
        bash_available: true,
        tar_available: true,
    }
}

fn fresh() -> App {
    App::launch(
        ToolPaths::discover(Path::new("/app")),
        AppConfig::load(None),
        status(false),
        launcher(),
    )
}

fn ready() -> App {
    let mut config = AppConfig::load(None);
    config.setup_complete = true;
    config.setup_revision = 2;
    config.game_root_path = Some(path("/game"));
    App::launch(ToolPaths::discover(Path::new("/app")), config, status(true), launcher())
}

fn texture(name: &str, format: TextureFormat) -> TextureEntryDraft {
    TextureEntryDraft {
        name: name.to_string(),
        file_name: format!("{}.dds", name),
        width: 8,
        height: 4,
        mips: 2,
        format,
        usage: "DIFFUSE".to_string(),
        dds_path: PathBuf::from(format!("/s/{}.dds", name)),
        preview_png_path: PathBuf::from(format!("/s/{}.png", name)),
    }
}

fn import(app: &mut App, file: &str, textures: Vec<TextureEntryDraft>) {
    app.pending_jobs += 1;
    let draft = ImportedAssetDraft {
        id: format!("id of {}", file),
        source_path: path(file),
        kind: AssetKind::Ydr,
        folder_id: app.selected_folder_id,
        xml_path: Some(path("/s/x.xml")),
        textures,
        archive_tree: None,
    };
    app.handle_job_results(JobResult::ImportFinished { source_path: path(file), result: Ok(draft) });
}

fn opened() -> App {
    let mut app = ready();
    import(
        &mut app,
        "/game/mods/car.ydr",
        vec![texture("body", TextureFormat::Dxt1), texture("odd", TextureFormat::from_label("BC7"))],
    );
    app
}

#[test]
fn the_first_start_asks_for_the_setup() {
    let app = fresh();
    assert!(app.should_open_setup_on_start(true));
    assert_eq!(app.status, "Ready. Choose the GTA V Linux game folder to begin.");
    assert_eq!(app.config.copy_destination, "/app/builds");
    assert!(!ready().setup_required(true));
    assert!(ready().setup_required(false));
}

#[test]
fn the_game_folder_has_its_subfolders() {
    let app = ready();
    assert_eq!(app.derived_mods_root_path(true), Some(path("/game/mods")));
    assert_eq!(app.hidden_mods_root_path(true), Some(path("/game/.mods.disabled")));
    assert_eq!(app.derived_scripts_root_path(true), Some(path("/game/scripts")));
    assert_eq!(app.hidden_scripts_root_path(true), Some(path("/game/.scripts.disabled")));
    assert_eq!(app.scripthook_ini_path(true), Some(path("/game/ScriptHookVDotNet.ini")));
    assert!(app.mods_root_path(false).is_none());
}

#[test]
fn a_game_folder_is_recognised() {
    assert!(is_valid_game_root(true, &vec!["GTA5.EXE".to_string()]));
    assert!(!is_valid_game_root(true, &vec!["gta4.exe".to_string()]));
    assert!(!is_valid_game_root(false, &vec!["gta5.exe".to_string()]));
    assert_eq!(normalize_selected_game_root(Path::new("/g/Mods"), true), (path("/g"), true));
    assert_eq!(normalize_selected_game_root(Path::new("/g/Mods"), false), (path("/g/Mods"), false));
    assert_eq!(normalize_selected_game_root(Path::new("/g"), true), (path("/g"), false));
}

#[test]
fn a_game_folder_is_taken_over() {
    let mut app = opened();
    assert!(!app.set_game_root_path(Path::new("/x"), path("/x"), false));
    assert_eq!(app.status, "/x does not look like a GTA V Linux game folder.");
    assert_eq!(app.assets.len(), 1);
    assert!(app.set_game_root_path(Path::new("/y"), path("/y"), true));
    assert!(app.assets.is_empty());
    let toast = app.finish_game_root(Path::new("/y"), false, true);
    assert_eq!(toast, "GTA V game folder updated.");
    assert_eq!(app.status, "Using GTA V game folder at /y and mods folder at /y/mods");
    assert_eq!(app.current_mod_browser_path, Some(path("/y/mods")));
}

#[test]
fn the_script_hook_is_configured() {
    let mut app = ready();
    assert_eq!(app.plan_script_hook(&Vec::new(), false), Some(true));
    assert_eq!(app.plan_script_hook(&vec!["a.dll".to_string()], true), None);
    assert_eq!(app.status, "ScriptHook files are missing: a.dll");
    app.set_addons_enabled(false);
    assert_eq!(app.plan_script_hook(&Vec::new(), true), Some(false));
    assert_eq!(app.plan_script_hook(&Vec::new(), false), None);
    app.set_script_mods_enabled(true);
    assert_eq!(app.plan_script_hook(&Vec::new(), false), Some(true));
}

#[test]
fn without_addons_nothing_stays_open() {
    let mut app = opened();
    app.set_addons_enabled(false);
    assert!(app.apply_addon_script_settings(true, Some(Page::Browser)));
    assert!(app.assets.is_empty());
    assert!(app.selected_asset.is_none());
    assert!(app.open_editor_browser(true) == Page::Dashboard);
    assert_eq!(app.status, "Enable addons to use the editor.");
    assert_eq!(app.open_mods_root_folder(true), Some(path("/game/.mods.disabled")));
}

#[test]
fn folders_are_nested() {
    let mut app = ready();
    assert!(!app.create_folder("  "));
    assert_eq!(app.status, "Enter a folder name first.");
    assert!(app.create_folder(" cars "));
    app.selected_folder_id = 1;
    assert!(app.create_folder("fast"));
    assert_eq!(app.folder_path_components(2), vec!["cars", "fast"]);
    assert_eq!(app.folder_path_buf(2), path("cars/fast"));
    assert_eq!(app.folder_path_string(2), "Workspace / cars / fast");
}

#[test]
fn assets_are_moved_and_copied_with_their_folder() {
    let mut app = opened();
    app.create_folder("cars");
    app.selected_folder_id = 1;
    app.move_selected_asset_to_selected_folder();
    assert_eq!(app.assets[0].folder_id, 1);
    assert_eq!(app.status, "Moved car.ydr to Workspace / cars");
    let before = app.pending_jobs;
    assert!(app.queue_copy_all("/out").is_none());
    assert_eq!(app.status, "There are no built files to copy yet.");
    app.assets[0].last_saved_path = Some(path("/game/mods/car.ydr"));
    assert_eq!(
        app.queue_copy_all(" /out "),
        Some(vec![(path("/game/mods/car.ydr"), path("/out/cars/car.ydr"))])
    );
    assert_eq!(app.status, "Copying 1 built file(s)...");
    assert!(app.queue_copy_all(" ").is_none());
    assert_eq!(app.status, "Choose a copy destination first.");
    app.handle_job_results(JobResult::CopyAllFinished(Ok(1)));
    assert_eq!(app.status, "Copied 1 built file(s).");
    assert_eq!(app.pending_jobs, before);
}

#[test]
fn folders_of_the_tree_are_toggled() {
    let mut app = ready();
    let entry = ModEntry { path: path("/game/mods/a"), is_dir: true };
    app.toggle_mod_tree_path(&entry.path);
    let row = match app.mod_tree_row(&entry) {
        Some(row) => row,
        None => panic!("folders have rows"),
    };
    assert!(row.kind == ModRowKind::Folder { expanded: true });
    assert_eq!(row.label, "a");
    app.toggle_mod_tree_path(&entry.path);
    let again = app.mod_tree_row(&entry).map(|row| row.kind == ModRowKind::Folder { expanded: false });
    assert_eq!(again, Some(true));
}

#[test]
fn the_mods_folder_is_browsed_up_to_its_root() {
    let mut app = ready();
    app.browse_mod_directory(path("/game/mods/a"));
    assert_eq!(app.mod_browser_parent_path(true), Some(path("/game/mods")));
    assert!(app.open_mod_browser_parent(true));
    assert_eq!(app.current_mod_browser_path, Some(path("/game/mods")));
    assert!(!app.open_mod_browser_parent(true));
    assert_eq!(app.selected_mod_directory(true), Some(&path("/game/mods")));
    assert!(app.selected_mod_directory(false).is_none());
}

#[test]
fn folders_are_listed_before_files() {
    let entry = |name: &str, is_dir| ModEntry { path: path("/m").join(name), is_dir };
    let found = vec![
        entry("b.ydr", false),
        entry("Z", true),
        entry("A.rpf", false),
        entry("x.txt", false),
        entry("c.rpf.bak", false),
        entry("a", true),
    ];
    let listed: Vec<PathBuf> =
        read_mod_tree_entries(&found).into_iter().map(|entry| entry.path).collect();
    assert_eq!(listed, vec![path("/m/a"), path("/m/Z"), path("/m/A.rpf"), path("/m/b.ydr")]);
}

#[test]
fn the_folder_in_the_middle_shows_its_files() {
    let mut app = opened();
    app.assets[0].dirty = true;
    app.browse_mod_directory(path("/game/mods"));
    let entries = vec![
        ModEntry { path: path("/game/mods/sub"), is_dir: true },
        ModEntry { path: path("/game/mods/car.ydr"), is_dir: false },
    ];
    let view = app.textures_list(true, &Some(entries));
    assert_eq!(view.title, "Folder Explorer");
    assert_eq!(view.path, "/game/mods");
    assert!(!view.back);
    match view.rows {
        ListRows::Folder(rows) => {
            assert_eq!(rows[0].label, "sub");
            assert_eq!(rows[1].label, "car.ydr [YDR] *");
            assert!(rows[1].kind == ModRowKind::File { can_save: true });
        }
        _ => panic!("the folder is listed"),
    }
    assert_eq!(app.textures_list(true, &Some(Vec::new())).notice, "This folder is empty.");
    assert_eq!(app.textures_list(true, &None).notice, "Failed to read this folder.");
}

#[test]
fn a_file_is_opened_once() {
    let mut app = ready();
    match app.open_mod_asset_path(path("/game/mods/car.ydr")) {
        AssetOpening::Import(file) => assert_eq!(file, path("/game/mods/car.ydr")),
        _ => panic!("the file is imported"),
    }
    assert_eq!(app.pending_jobs, 1);
    assert!(matches!(app.open_mod_asset_path(path("/game/mods/car.ydr")), AssetOpening::Waiting));
    let label = app
        .mod_browser_row(&ModEntry { path: path("/game/mods/car.ydr"), is_dir: false })
        .map(|row| row.label);
    assert_eq!(label.as_deref(), Some("car.ydr [YDR] (loading...)"));
    app.handle_job_results(JobResult::ImportFinished {
        source_path: path("/game/mods/car.ydr"),
        result: Err("bad".to_string()),
    });
    assert_eq!(app.status, "Import failed: bad");
    assert_eq!(app.pending_jobs, 0);
    let mut app = opened();
    assert!(matches!(
        app.open_mod_asset_path(path("/game/mods/car.ydr")),
        AssetOpening::Selected(_)
    ));
}

#[test]
fn the_preview_of_a_texture_is_made_once() {
    let mut app = opened();
    assert_eq!(app.selected_texture, Some(0));
    assert!(app.current_texture_entry().map_or(false, |t| t.preview_loading));
    assert!(app.request_preview_for_selected_texture().is_none());
    let pane = app.preview_pane(&String::new());
    assert_eq!(pane.asset, "car.ydr");
    assert_eq!(pane.texture, "body");
    assert_eq!(pane.meta, "8x4 | D3DFMT_DXT1 | 2 mips | DIFFUSE");
    assert_eq!(pane.notice, "Loading preview...");
    app.handle_job_results(JobResult::PreviewFinished {
        asset_id: "id of /game/mods/car.ydr".to_string(),
        entry_path: None,
        texture_index: 0,
        result: Ok(42),
    });
    let pane = app.preview_pane(&String::new());
    assert_eq!(pane.notice, "");
    assert!(matches!(pane.body, PreviewBody::Picture(Some(42))));
}

#[test]
fn a_preview_may_fail() {
    let mut app = opened();
    app.handle_job_results(JobResult::PreviewFinished {
        asset_id: "id of /game/mods/car.ydr".to_string(),
        entry_path: None,
        texture_index: 0,
        result: Err(PreviewTrouble::Generation("no magick".to_string())),
    });
    assert!(app.status.contains("no magick"));
    assert_eq!(app.preview_pane(&String::new()).notice, "Preview not available yet.");
}

#[test]
fn only_known_formats_are_edited() {
    let mut app = opened();
    app.select_texture(1);
    assert!(!app.current_entry_editable());
    assert!(!app.open_editor_page(String::new()));
    assert_eq!(app.status, "BC7 is not yet writable by the app.");
    app.select_texture(0);
    assert!(app.open_editor_page(String::new()));
    match app.editor_page(true) {
        EditorView::Texture { title, meta, complete, width, height, .. } => {
            assert_eq!(title, "Editing car.ydr / body");
            assert_eq!(meta, "Target: 8x4 | D3DFMT_DXT1 | 2 mips");
            assert_eq!((width, height), (8, 4));
            assert!(!complete);
        }
        _ => panic!("the texture is edited"),
    }
}

#[test]
fn an_edited_texture_is_written() {
    let mut app = opened();
    app.select_texture(0);
    assert!(app.open_editor_page(String::new()));
    assert!(app.queue_apply_editor().is_none());
    assert_eq!(app.status, "Every section needs an image before you apply changes.");
    assert!(!app.header(Some(Page::Editor), true).apply);
    if let Some(editor) = app.editor.as_mut() {
        editor.add_section(1, SplitAxis::Vertical);
        editor.set_leaf_image(1, path("/a.png"), 1);
        editor.set_leaf_image(3, path("/b.png"), 2);
    }
    assert!(app.header(Some(Page::Editor), true).apply);
    assert!(app.sections_can_be_composed());
    let job = match app.queue_apply_editor() {
        Some(job) => job,
        None => panic!("the texture is written"),
    };
    assert_eq!(job.cells.len(), 2);
    assert_eq!(job.cells[1].rect.x, 4);
    assert!(!job.cells[1].keep_alpha);
    assert_eq!(app.status, "Applying changes to body...");
    app.handle_job_results(JobResult::ApplyFinished {
        asset_id: job.asset_id,
        entry_path: None,
        texture_index: 0,
        result: Ok(()),
    });
    assert!(app.assets[0].dirty);
    assert!(app.assets[0].textures[0].modified);
}

#[test]
fn a_saved_asset_has_no_changes_left() {
    let mut app = opened();
    assert!(app.queue_save_selected_asset().is_none());
    assert_eq!(app.status, "There are no unsaved changes for this file.");
    assert!(app.queue_save_all_dirty_assets().is_empty());
    assert_eq!(app.status, "There are no unsaved builds to save.");
    app.assets[0].dirty = true;
    app.assets[0].textures[0].modified = true;
    let job = match app.queue_save_file(Path::new("/game/mods/car.ydr")) {
        Some(job) => job,
        None => panic!("the asset is saved"),
    };
    assert!(job.backup_before_save);
    assert_eq!(job.xml_path, Some(path("/s/x.xml")));
    assert!(app.queue_save_file(Path::new("/game/mods/other.ydr")).is_none());
    assert_eq!(app.status, "Open this file before applying changes.");
    app.handle_job_results(JobResult::SaveFinished {
        asset_id: job.asset_id,
        result: Ok(path("/game/mods/car.ydr")),
        texts: Vec::new(),
    });
    assert!(!app.assets[0].dirty);
    assert!(!app.assets[0].textures[0].modified);
    assert_eq!(app.open_selected_build_folder(), Some(path("/game/mods")));
}

#[test]
fn files_are_copied_into_a_folder() {
    let step = match copy_into_directory(Path::new("/d/a.ydr"), Path::new("/game/mods")) {
        Ok(step) => step,
        Err(error) => panic!("{}", error),
    };
    assert_eq!(step.target, path("/game/mods/a.ydr"));
    assert_eq!(step.failure, "Failed to copy /d/a.ydr into /game/mods");
    match copy_into_directory(Path::new("/"), Path::new("/m")) {
        Err(error) => assert_eq!(error, "Source file does not contain a file name"),
        Ok(_) => panic!("there is no name"),
    }
}

#[test]
fn files_are_imported_into_the_shown_folder() {
    let mut app = ready();
    let files = vec![path("/d/a.ydr")];
    assert!(app.import_files_into_selected_mod_directory(true, &files).is_none());
    assert_eq!(app.status, "Select a folder in the left pane first.");
    app.browse_mod_directory(path("/game/mods"));
    let target = app.import_files_into_selected_mod_directory(true, &files);
    assert_eq!(target, Some(path("/game/mods")));
    assert!(app.import_files_into_selected_mod_directory(true, &Vec::new()).is_none());
    let toast = app.files_imported(Path::new("/game/mods"), Ok(1));
    assert_eq!(toast.as_deref(), Some("Imported 1 file(s)."));
    assert_eq!(app.status, "Imported 1 file(s) into /game/mods");
    assert!(app.files_imported(Path::new("/m"), Err("no".to_string())).is_none());
    assert_eq!(app.status, "Folder import failed: no");
    app.remember_asset_dir(Path::new("/d/a.ydr"));
    app.remember_image_dir(Path::new("/p/a.png"));
    assert_eq!(app.last_asset_dir, Some(path("/d")));
    assert_eq!(app.config.last_image_dir, Some(path("/p")));
    app.remember_copy_dir(path("/out"));
    assert_eq!(app.last_copy_dir, Some(path("/out")));
    assert_eq!(app.config.last_copy_dir, Some(path("/out")));
    assert_eq!(app.config.copy_destination, "/out");
}

#[test]
fn the_dashboard_tells_what_is_missing() {
    let mut app = ready();
    let view = app.dashboard(Some(Page::Dashboard), true, &Vec::new());
    assert!(view.play && view.edit && view.settings);
    assert_eq!(view.notice, "Game, addons, and editor are ready.");
    let missing = vec!["a.dll".to_string(), "b.dll".to_string()];
    let view = app.dashboard(None, true, &missing);
    assert_eq!(view.notice, "ScriptHook files missing: a.dll, b.dll");
    app.set_addons_enabled(false);
    app.set_script_mods_enabled(true);
    let view = app.dashboard(None, true, &missing);
    assert_eq!(
        view.notice,
        "Addons are disabled, so the editor is unavailable. ScriptHook files missing: a.dll, b.dll"
    );
    assert!(!view.edit);
    let view = app.dashboard(None, false, &missing);
    assert_eq!(
        view.notice,
        "Choose the GTA V Linux game folder in setup before launching or editing."
    );
}

#[test]
fn the_pane_on_the_left_shows_the_mods_folder() {
    let mut app = ready();
    match app.package_tree(true, true) {
        PackageTree::Tree { root, import, save } => {
            assert_eq!(root, path("/game/mods"));
            assert!(!import && !save);
        }
        _ => panic!("the folder is shown"),
    }
    assert_eq!(app.package_tree(true, true).label(), "Mods folder: /game/mods");
    assert_eq!(app.package_tree(false, true).label(), "GTA V game folder not configured");
    app.set_addons_enabled(false);
    let view = app.package_tree(true, true);
    assert_eq!(view.label(), "Addons are disabled");
    assert!(view.message().starts_with("Enable addons"));
}

#[test]
fn the_header_goes_by_the_page() {
    let app = opened();
    let header = app.header(Some(Page::Browser), true);
    assert!(header.back && header.menu && !header.close_menu && header.edit);
    assert_eq!(header.folders, "Game: /game\nMods: /game/mods\nScripts: /game/scripts");
    assert_eq!(header.edit_label, "Edit Texture");
    let header = app.header(Some(Page::Setup), false);
    assert!(header.back && !header.menu && header.close_menu && !header.edit);
    assert_eq!(header.folders, "Not configured");
}

#[test]
fn the_user_goes_back() {
    let mut app = opened();
    app.select_texture(0);
    assert!(app.open_editor_page(String::new()));
    assert!(app.go_back(Some(Page::Editor), true) == Some(Page::Browser));
    assert!(!app.in_editor());
    assert!(app.go_back(Some(Page::Browser), true) == Some(Page::Dashboard));
    let mut app = fresh();
    app.setup_step = SetupStep::BuildHelper;
    assert!(app.go_back(Some(Page::Setup), true).is_none());
    assert!(app.setup_step == SetupStep::SystemDependencies);
}

#[test]
fn the_setup_is_gone_through() {
    let mut app = fresh();
    assert!(app.handle_setup_action(false) == SetupCommand::Refresh);
    assert!(app.setup_step == SetupStep::ExternalTools);
    assert!(app.handle_setup_action(false) == SetupCommand::DownloadCodeWalker);
    assert_eq!(app.pending_jobs, 1);
    let follow = app.handle_job_results(JobResult::DownloadCodeWalkerFinished(Ok(())));
    assert!(follow.detect);
    assert!(app.setup_step == SetupStep::SystemDependencies);
    app.setup_step = SetupStep::BuildHelper;
    assert!(app.handle_setup_action(false) == SetupCommand::BuildHelper);
    app.handle_job_results(JobResult::BuildHelperFinished(Err("no sdk".to_string())));
    assert_eq!(app.status, "Helper build failed: no sdk");
    app.handle_job_results(JobResult::BuildHelperFinished(Ok(())));
    assert!(app.setup_step == SetupStep::Ready);
    assert!(app.header(Some(Page::Setup), false).setup_folder);
    app.step_aside_for_game_folder();
    assert!(app.setup_step == SetupStep::GameFolder);
    assert!(app.handle_setup_action(false) == SetupCommand::ChooseGameFolder);
    assert!(!app.header(Some(Page::Setup), false).setup_next);
    assert!(app.header(Some(Page::Setup), false).setup_back);
    app.go_back_in_setup();
    assert!(app.setup_step == SetupStep::BuildHelper);
    app.go_on_in_setup();
    assert!(app.setup_step == SetupStep::Ready);
    app.step_aside_for_game_folder();
    app.go_on_in_setup();
    assert!(app.setup_step == SetupStep::Ready);
    assert!(app.handle_setup_action(false) == SetupCommand::Nothing);
    assert_eq!(app.status, "Setup is not complete yet.");
    app.setup_status = status(true);
    app.config.game_root_path = Some(path("/game"));
    assert!(app.handle_setup_action(true) == SetupCommand::Finish);
    assert!(!app.setup_required(true));
    app.rerun_setup_wizard();
    assert!(app.setup_step == SetupStep::Welcome);
}

#[test]
fn the_setup_blocks_the_editors() {
    let mut app = opened();
    app.select_texture(0);
    assert!(app.open_editor_page(String::new()));
    app.setup_status = status(false);
    assert!(matches!(app.editor_page(true), EditorView::Setup));
    assert!(!app.header(Some(Page::Editor), true).apply);
}

#[test]
fn the_game_is_started_from_its_folder() {
    let mut app = ready();
    assert!(app.queue_launch_game(false).is_none());
    assert_eq!(app.status, "Choose the GTA V Linux game folder first.");
    let job = match app.queue_launch_game(true) {
        Some(job) => job,
        None => panic!("the game is started"),
    };
    assert_eq!(job.game_root, path("/game"));
    assert_eq!(job.workspace_dir, path("/app/.workspace"));
    assert_eq!(
        app.refresh_status(),
        "Working: 1 job(s) | Preparing GTA V launch environment..."
    );
    app.handle_job_results(JobResult::LaunchProgress("half way".to_string()));
    assert_eq!(app.status, "half way");
    assert_eq!(app.pending_jobs, 1);
    let follow = app.handle_job_results(JobResult::LaunchFinished(Ok("running".to_string())));
    assert_eq!(follow.toast.as_deref(), Some("running"));
    app.queue_check_external_updates();
    app.handle_job_results(JobResult::UpdateCodeWalkerFinished(Err("offline".to_string())));
    assert_eq!(app.status, "External update check failed: offline");
    app.queue_prepare_vulkan_runtime();
    app.handle_job_results(JobResult::PrepareVulkanRuntimeFinished(Ok("cached".to_string())));
    assert_eq!(app.status, "cached");
    assert_eq!(app.queue_import_files(&vec![path("/a.ydr"), path("/b.ydr")]), 0);
    assert_eq!(app.refresh_status(), "Working: 2 job(s) | Importing 2 file(s)...");
}
