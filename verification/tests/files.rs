//! Folders, configuration files, hashes, texts and the files of a workspace.

use gtav_texture_importer::archive::{
    ArchiveContentKind, ArchiveTextSourceKind, RpfTreeNode, RpfTreeNodeKind,
};
use gtav_texture_importer::browse::OpenEntryJob;
use gtav_texture_importer::config::{AppConfig, AppConfigFile, ColorScheme, ThemePreference};
use gtav_texture_importer::drafts::{
    exported_entry_draft, exported_text_draft, exported_text_path, imported_draft,
    open_entry_plan, OpenPlan,
};
use gtav_texture_importer::filesystem::{
    missing_script_hook_files, script_hook_paths, set_directory_enabled, update_scripthook_ini,
    DirectoryChange,
};
use gtav_texture_importer::hashes::{
    apply_known_hash_name_overrides, can_replace_placeholders, jenk_hash,
    load_known_hash_name_overrides, replace_hash_placeholders,
};
use gtav_texture_importer::helper::{build_call, list_call, rebuild_call, HelperCall};
use gtav_texture_importer::nesting::{can_parse, DEEPEST_NESTING};
use gtav_texture_importer::order::{sorted_order, SortKey};
use gtav_texture_importer::outputs::{
    command_stdout, ensure_success, parse_named_output_path, sanitize_for_path,
};
use gtav_texture_importer::paths::PathSet;
use gtav_texture_importer::setup::ToolPaths;
use gtav_texture_importer::text;
use gtav_texture_importer::textures::{
    is_supported_mod_asset_path, parse_textures_from_xml, textures_of_document, AssetKind,
    TextureFormat, XmlAttribute, XmlChild, XmlNode,
};
use gtav_texture_importer::workspace::{
    backup_path_for, convert_png_to_dds, export_entry_plan, export_text_plan, import_asset_plan,
    manifest_path, preview_output, stage_archive_source_file, temporary_png, temporary_save_path,
    ImportPlan,
};
use std::path::{Path, PathBuf};

fn path(text: &str) -> PathBuf {
    PathBuf::from(text)
}

fn tools() -> ToolPaths {
    ToolPaths::discover(Path::new("/app"))
}

#[test]
fn enabling_unhides_a_hidden_folder() {
    let change = set_directory_enabled(Path::new("/g/mods"), Path::new("/g/.mods"), true, false, true);
    match change {
        Some(DirectoryChange::Rename { from, to, context }) => {
            assert_eq!(from, path("/g/.mods"));
            assert_eq!(to, path("/g/mods"));
            assert_eq!(context, "Failed to unhide /g/mods from /g/.mods");
        }
        _ => panic!("the folder is restored"),
    }
}

#[test]
fn enabling_creates_a_folder_that_is_nowhere() {
    let change = set_directory_enabled(Path::new("/g/mods"), Path::new("/g/.mods"), true, false, false);
    match change {
        Some(DirectoryChange::Create { path: created, .. }) => assert_eq!(created, path("/g/mods")),
        _ => panic!("the folder is created"),
    }
    let again = set_directory_enabled(Path::new("/g/mods"), Path::new("/g/.mods"), true, true, false);
    assert!(again.is_none());
}

#[test]
fn disabling_hides_a_folder() {
    let change = set_directory_enabled(Path::new("/g/mods"), Path::new("/g/.mods"), false, true, false);
    match change {
        Some(DirectoryChange::Rename { from, to, .. }) => {
            assert_eq!(from, path("/g/mods"));
            assert_eq!(to, path("/g/.mods"));
        }
        _ => panic!("the folder is hidden"),
    }
    let nothing = set_directory_enabled(Path::new("/g/mods"), Path::new("/g/.mods"), false, false, true);
    assert!(nothing.is_none());
}

#[test]
fn script_hook_files_are_missed() {
    let root = Path::new("/game");
    let all = script_hook_paths(root);
    let mut files = PathSet::new();
    assert_eq!(missing_script_hook_files(root, &files).len(), all.len());
    for file in &all {
        files.insert(file.clone());
    }
    assert!(missing_script_hook_files(root, &files).is_empty());
    files.remove(&all[0]);
    let missing = missing_script_hook_files(root, &files);
    assert_eq!(missing.len(), 1);
    assert_eq!(root.join(&missing[0]), all[0]);
}

#[test]
fn the_autoload_setting_is_rewritten() {
    let old = "[ScriptHookVDotNet]\n ReloadKey=None\nAutoLoadScripts = true ; x\n";
    assert_eq!(
        update_scripthook_ini(old, false),
        "[ScriptHookVDotNet]\n ReloadKey=None\nAutoLoadScripts=false\n"
    );
}

#[test]
fn a_missing_autoload_setting_is_added() {
    let once = update_scripthook_ini("A=1", true);
    assert_eq!(once, "A=1\nAutoLoadScripts=true\n");
    assert_eq!(update_scripthook_ini(&once, true), once);
}

#[test]
fn hashes_of_known_names() {
    assert_eq!(jenk_hash(""), 0);
    assert_eq!(jenk_hash("adder"), 0xB779_A091);
    assert_eq!(jenk_hash("ADDER"), jenk_hash("adder"));
}

#[test]
fn seeds_give_names_by_their_hash() {
    let names = load_known_hash_name_overrides("# a comment\n\n  adder  \nzentorno\n");
    assert_eq!(names.len(), 2);
    assert_eq!(names.get(&0xB779_A091).map(String::as_str), Some("adder"));
}

#[test]
fn placeholders_are_replaced_by_names() {
    let names = load_known_hash_name_overrides("adder");
    let text = "<a>hash_B779A091</a><b>hash_00000001</b>hash_B779";
    assert!(can_replace_placeholders(text));
    assert_eq!(
        replace_hash_placeholders(text, &names),
        "<a>adder</a><b>hash_00000001</b>hash_B779"
    );
    assert_eq!(apply_known_hash_name_overrides("hash_b779a091", "adder\n"), "adder");
}

#[test]
fn a_text_without_placeholders_is_kept() {
    let names = load_known_hash_name_overrides("adder");
    assert_eq!(replace_hash_placeholders("äöü hash", &names), "äöü hash");
}

#[test]
fn a_failed_command_is_told_by_its_output() {
    assert_eq!(ensure_success("tool", true, "", "bad", "exit status: 0"), Ok(()));
    assert_eq!(
        ensure_success("tool", false, "out", " err \n", "exit status: 1"),
        Err("tool failed: err".to_string())
    );
    assert_eq!(
        ensure_success("tool", false, " out ", " ", "exit status: 1"),
        Err("tool failed: out".to_string())
    );
    assert_eq!(
        ensure_success("tool", false, "", "", "exit status: 1"),
        Err("tool failed with exit status exit status: 1".to_string())
    );
}

#[test]
fn the_output_of_a_command_is_trimmed() {
    let args = vec!["rev-parse".to_string(), "HEAD".to_string()];
    assert_eq!(command_stdout("git", &args, true, " abc\n", ""), Ok("abc".to_string()));
    assert_eq!(
        command_stdout("git", &args, false, "", "no"),
        Err("git rev-parse HEAD failed: no".to_string())
    );
    assert_eq!(
        command_stdout("git", &args, false, "what", ""),
        Err("git rev-parse HEAD failed: what".to_string())
    );
    assert_eq!(
        command_stdout("git", &args, false, "", ""),
        Err("git rev-parse HEAD failed".to_string())
    );
}

#[test]
fn a_path_is_found_in_the_output() {
    assert_eq!(parse_named_output_path("a\nxml=/t/x.xml\nxml=/u\n", "xml"), Ok(path("/t/x.xml")));
    assert_eq!(
        parse_named_output_path("a", "xml"),
        Err("Expected xml=... in helper output".to_string())
    );
}

#[test]
fn names_are_made_safe() {
    assert_eq!(sanitize_for_path("my car (1).ydr"), "my_car__1__ydr");
    assert_eq!(sanitize_for_path("__a-b__"), "a-b");
    assert_eq!(sanitize_for_path("..."), "item");
}

#[test]
fn themes_have_names_schemes_and_places() {
    assert_eq!(ThemePreference::Dark.as_str(), "Dark");
    assert_eq!(ThemePreference::System.as_str(), "System");
    assert!(matches!(ThemePreference::Light.color_scheme(), ColorScheme::ForceLight));
    assert!(matches!(ThemePreference::System.color_scheme(), ColorScheme::Default));
    assert!(matches!(ThemePreference::from_index(2), ThemePreference::Dark));
    assert_eq!(ThemePreference::from_index(1).index(), 1);
    assert_eq!(ThemePreference::from_index(9).index(), 0);
}

fn config_file() -> AppConfigFile {
    AppConfigFile {
        setup_complete: true,
        setup_revision: None,
        copy_destination: "/out".to_string(),
        theme: None,
        game_root_path: None,
        mod_folder_path: Some(path("/game/MODS")),
        addons_enabled: Some(false),
        script_mods_enabled: None,
        play_settings_expanded: None,
        backup_before_save: Some(true),
        last_asset_dir: None,
        last_image_dir: Some(path("/img")),
        last_copy_dir: None,
    }
}

#[test]
fn an_old_config_file_gives_the_game_folder() {
    let config = AppConfig::from_file(config_file());
    assert_eq!(config.game_root_path, Some(path("/game")));
    assert_eq!(config.setup_revision, 0);
    assert_eq!(config.copy_destination, "/out");
    assert!(!config.addons_enabled);
    assert!(config.backup_before_save);
    assert_eq!(config.last_image_dir, Some(path("/img")));
}

#[test]
fn a_missing_config_file_gives_the_defaults() {
    let config = AppConfig::load(None);
    assert!(!config.setup_complete);
    assert!(config.game_root_path.is_none());
    assert_eq!(AppConfig::path(Path::new("/w")), path("/w/config.json"));
    assert_eq!(AppConfig::load(Some(config_file())).copy_destination, "/out");
}

#[test]
fn kinds_go_by_the_extension() {
    assert!(AssetKind::from_path(Path::new("/a/x.YDR")) == Some(AssetKind::Ydr));
    assert!(AssetKind::from_path(Path::new("/a/x.txt")).is_none());
    assert_eq!(AssetKind::Rpf.label(), "RPF");
    assert!(is_supported_mod_asset_path(Path::new("/a/dlc.rpf")));
    assert!(!is_supported_mod_asset_path(Path::new("/a/dlc.rpf.bak")));
    assert!(!is_supported_mod_asset_path(Path::new("/a/readme")));
}

#[test]
fn formats_go_by_their_label() {
    let dxt1 = TextureFormat::from_label("D3DFMT_DXT1");
    assert_eq!(dxt1.label(), "D3DFMT_DXT1");
    assert_eq!(dxt1.magick_compression(), Some("dxt1"));
    assert!(!dxt1.supports_alpha());
    assert!(dxt1.supported_for_write());
    let other = TextureFormat::from_label("D3DFMT_BC7");
    assert_eq!(other.label(), "D3DFMT_BC7");
    assert!(!other.supported_for_write());
    assert!(other.magick_compression().is_none());
}

const XML: &str = "<Drawable><Textures><Item><Name>skin</Name><FileName> skin.dds </FileName>\
<Width value=\"64\" /><Height value=\"32\" /><MipLevels value=\"3\" />\
<Format>D3DFMT_DXT5</Format></Item><Item><FileName>x.txt</FileName></Item></Textures></Drawable>";

#[test]
fn textures_are_read_from_a_description() {
    let textures = parse_textures_from_xml(
        XML,
        Path::new("/s/current/a.xml"),
        Path::new("/s/current"),
        Path::new("/s/previews"),
        true,
    );
    let textures = match textures {
        Ok(textures) => textures,
        Err(error) => panic!("{}", error),
    };
    assert_eq!(textures.len(), 1);
    assert_eq!(textures[0].name, "skin");
    assert_eq!(textures[0].file_name, "skin.dds");
    assert_eq!((textures[0].width, textures[0].height, textures[0].mips), (64, 32, 3));
    assert_eq!(textures[0].usage, "UNKNOWN");
    assert_eq!(textures[0].format.label(), "D3DFMT_DXT5");
    assert_eq!(textures[0].dds_path, path("/s/current/skin.dds"));
    assert_eq!(textures[0].preview_png_path, path("/s/previews/0_skin.png"));
}

fn parse(xml: &str, require: bool) -> Result<usize, String> {
    let folder = Path::new("/s");
    parse_textures_from_xml(xml, Path::new("/s/a.xml"), folder, folder, require)
        .map(|textures| textures.len())
}

#[test]
fn a_description_may_lack_textures() {
    assert_eq!(parse("<Drawable/>", false), Ok(0));
    assert_eq!(
        parse("<Drawable/>", true),
        Err("No DDS textures were found in /s/a.xml".to_string())
    );
    assert_eq!(parse("<Drawable>", true), Err("Failed to parse exported XML".to_string()));
}

fn nested(depth: usize) -> String {
    format!("{}{}", "<a>".repeat(depth), "</a>".repeat(depth))
}

#[test]
fn a_text_is_parsed_up_to_a_depth() {
    let deepest = nested(DEEPEST_NESTING);
    assert!(can_parse(&deepest));
    assert_eq!(parse(&deepest, false), Ok(0));
    assert!(!can_parse(&nested(DEEPEST_NESTING + 1)));
    assert!(!can_parse(&"<a>".repeat(DEEPEST_NESTING + 1)));
    assert!(can_parse(""));
    assert!(can_parse("no tags"));
}

#[test]
fn only_open_elements_count_as_nested() {
    let inside = |part: &str| format!("<r>{}</r>", part.repeat(2 * DEEPEST_NESTING));
    let parts = [
        "<b/>",
        "<b></b>",
        "<b c=\"/>\" d='\"'></b>",
        "<!-- <b> -->",
        "<![CDATA[<b>]]>",
        "<?b <b> ?>",
        "text ]] -- ",
    ];
    for part in parts {
        let text = inside(part);
        assert!(can_parse(&text), "{}", part);
        assert_eq!(parse(&text, false), Ok(0), "{}", part);
    }
    for part in ["<b>", "<b c='/>'>", "<b c='</b>'>"] {
        assert!(!can_parse(&inside(part)), "{}", part);
    }
}

fn value(name: &str, value: &str) -> XmlChild {
    XmlChild {
        element: true,
        name: name.to_string(),
        text: None,
        attributes: vec![XmlAttribute {
            namespace: None,
            name: "value".to_string(),
            value: value.to_string(),
        }],
    }
}

fn words(name: &str, text: &str) -> XmlChild {
    XmlChild {
        element: true,
        name: name.to_string(),
        text: Some(text.to_string()),
        attributes: Vec::new(),
    }
}

#[test]
fn a_parsed_document_gives_its_textures() {
    let item = XmlNode {
        element: true,
        name: "Item".to_string(),
        children: vec![
            words("FileName", "A.DDS"),
            words("Name", "a"),
            value("Width", "8"),
            value("Height", "+4"),
            value("MipLevels", "1"),
            words("Format", "D3DFMT_A8R8G8B8"),
            words("Usage", "DIFFUSE"),
        ],
    };
    let folder = Path::new("/f");
    let found = textures_of_document(Ok(vec![item]), Path::new("/f/d.xml"), folder, folder, true);
    let found = match found {
        Ok(found) => found,
        Err(error) => panic!("{}", error),
    };
    assert_eq!(found.len(), 1);
    assert_eq!(found[0].height, 4);
    assert_eq!(found[0].usage, "DIFFUSE");
    assert_eq!(found[0].preview_png_path, path("/f/0_A_DDS.png"));
}

#[test]
fn an_asset_is_exported_into_its_session() {
    match import_asset_plan(&tools(), Path::new("/m/my car.ydr"), 17) {
        Ok(ImportPlan::Export { kind, session, xml_path, call }) => {
            assert!(kind == AssetKind::Ydr);
            assert_eq!(session.id, "my_car_17");
            assert_eq!(session.session_dir, path("/app/.workspace/imports/my_car_17"));
            assert_eq!(xml_path, session.working_dir.join("my car.ydr.xml"));
            assert_eq!(call.label, "cwassettool export");
            assert_eq!(
                call.arguments,
                vec![path("export"), path("/m/my car.ydr"), session.template_dir.clone()]
            );
            assert_eq!(call.failure, "Failed to export /m/my car.ydr");
        }
        _ => panic!("the asset is exported"),
    }
}

#[test]
fn an_archive_is_listed() {
    match import_asset_plan(&tools(), Path::new("/m/dlc.rpf"), 5) {
        Ok(ImportPlan::List { id, call }) => {
            assert_eq!(id, "dlc_5");
            assert_eq!(call.arguments, vec![path("list-rpf"), path("/m/dlc.rpf")]);
            assert_eq!(call.failure, "Failed to inspect /m/dlc.rpf");
        }
        _ => panic!("the archive is listed"),
    }
}

#[test]
fn other_files_are_not_imported() {
    match import_asset_plan(&tools(), Path::new("/m/a.txt"), 5) {
        Err(message) => assert_eq!(
            message,
            "Only .ydr, .yft, .ytd, and .rpf files are supported for import"
        ),
        Ok(_) => panic!("the file is refused"),
    }
}

#[test]
fn entries_are_exported_from_an_archive() {
    let plan = export_entry_plan(&tools(), Path::new("/d.rpf"), "x64\\car.ytd", 9);
    assert_eq!(plan.title, "car.ytd");
    assert_eq!(plan.session.id, "car_ytd_9");
    assert_eq!(plan.xml_path, plan.session.working_dir.join("car.ytd.xml"));
    assert_eq!(
        plan.call.arguments,
        vec![
            path("export-rpf-entry"),
            path("/d.rpf"),
            path("x64\\car.ytd"),
            plan.session.template_dir.clone()
        ]
    );
    assert_eq!(plan.call.failure, "Failed to export x64\\car.ytd from /d.rpf");
}

#[test]
fn texts_are_exported_as_they_are_or_converted() {
    let raw = export_text_plan(
        &tools(),
        Path::new("/d.rpf"),
        "data\\content.xml",
        ArchiveTextSourceKind::RawText,
        3,
    );
    assert_eq!(raw.source_path, path("/app/.workspace/imports/content_xml_3/content.xml"));
    assert_eq!(raw.call.arguments[0], path("export-rpf-raw-entry"));
    assert_eq!(raw.call.arguments[3], raw.source_path);
    let ymt = export_text_plan(
        &tools(),
        Path::new("/d.rpf"),
        "data\\peds.ymt",
        ArchiveTextSourceKind::YmtXml,
        3,
    );
    assert_eq!(ymt.call.label, "cwassettool export-rpf-ymt-entry");
    assert_eq!(ymt.call.arguments[3], ymt.session_dir);
}

#[test]
fn files_of_the_workspace_have_their_places() {
    let staged = stage_archive_source_file(&tools(), "a b.xml", 4);
    assert_eq!(staged.session_dir, path("/app/.workspace/imports/archive_stage_a_b_xml_4"));
    assert_eq!(staged.staged_path, staged.session_dir.join("a b.xml"));
    assert_eq!(manifest_path(&tools(), 6), path("/app/.workspace/imports/rpf_build_6.json"));
    assert_eq!(
        temporary_save_path(Path::new("/m/a.ydr"), 8),
        path("/m/.gtav_texture_importer_tmp_8/a.ydr")
    );
    assert_eq!(backup_path_for(Path::new("/m/a.ydr")), Ok(path("/m/a.ydr.bak")));
    assert_eq!(
        backup_path_for(Path::new("/")),
        Err("Asset path does not contain a file name".to_string())
    );
    assert_eq!(temporary_png(Path::new("/t/a.dds")), path("/t/a.tmp.png"));
    assert_eq!(preview_output(Path::new("/t/a.png")), "png32:/t/a.png");
}

#[test]
fn textures_are_written_with_their_format() {
    let opaque = convert_png_to_dds(Path::new("/t/a.dds"), &TextureFormat::Dxt1, 5, 64, 32);
    let opaque = match opaque {
        Ok(args) => args.join(" "),
        Err(error) => panic!("{}", error),
    };
    assert_eq!(
        opaque,
        "-background white -alpha remove -alpha off -colorspace sRGB -type TrueColor \
         -resize 64x32! -define dds:compression=dxt1 -define dds:mipmaps=5 DDS:/t/a.dds"
    );
    let unknown = TextureFormat::from_label("BC7");
    assert_eq!(
        convert_png_to_dds(Path::new("/t/a.dds"), &unknown, 5, 64, 32),
        Err("Unsupported output format BC7".to_string())
    );
}

#[test]
fn texts_are_taken_apart() {
    assert_eq!(text::trim(" \t a b\n"), "a b");
    assert_eq!(text::to_lower("ÄBC1"), "Äbc1");
    assert_eq!(text::lines("a\r\nb\n\nc"), vec!["a", "b", "", "c"]);
    assert_eq!(
        text::split_once("a=b=c", '='),
        Some(("a".to_string(), "b=c".to_string()))
    );
    assert_eq!(
        text::rsplit_once("a=b=c", '='),
        Some(("a=b".to_string(), "c".to_string()))
    );
    assert_eq!(text::after_last("x\\y", '\\'), "y");
    assert_eq!(text::show(1204), "1204");
    assert_eq!(text::show_signed(-7), "-7");
    assert!(text::contains("abcd", "bc"));
    assert!(!text::contains("abcd", "cb"));
}

fn shown(call: HelperCall) -> (&'static str, Vec<String>, String) {
    let arguments = call.arguments.iter().map(|a| a.display().to_string()).collect();
    (call.label, arguments, call.failure)
}

#[test]
fn the_helper_gets_its_arguments() {
    let (label, arguments, failure) = shown(list_call(Path::new("/m/dlc.rpf")));
    assert_eq!(label, "cwassettool list-rpf");
    assert_eq!(arguments, vec!["list-rpf", "/m/dlc.rpf"]);
    assert_eq!(failure, "Failed to inspect /m/dlc.rpf");

    let (label, arguments, failure) = shown(build_call(Path::new("/s/a.xml"), Path::new("/b/a.ydr")));
    assert_eq!(label, "cwassettool import");
    assert_eq!(arguments, vec!["import", "/s/a.xml", "/b/a.ydr"]);
    assert_eq!(failure, "Failed to build /b/a.ydr");

    let call = rebuild_call(Path::new("/m/d.rpf"), Path::new("/b/d.rpf"), Path::new("/s/m.json"));
    let (label, arguments, failure) = shown(call);
    assert_eq!(label, "cwassettool build-rpf");
    assert_eq!(arguments, vec!["build-rpf", "/m/d.rpf", "/b/d.rpf", "/s/m.json"]);
    assert_eq!(failure, "Failed to build /b/d.rpf");
}

#[test]
fn settings_survive_a_restart() {
    let mut config = AppConfig::load(None);
    config.setup_complete = true;
    config.setup_revision = 2;
    config.theme = ThemePreference::Dark;
    config.copy_destination = "/out".to_string();
    config.game_root_path = Some(path("/game"));
    config.script_mods_enabled = true;
    config.backup_before_save = false;
    config.last_copy_dir = Some(path("/copies"));
    let again = AppConfig::load(Some(config.save()));
    assert!(again.setup_complete);
    assert_eq!(again.setup_revision, 2);
    assert_eq!(again.theme.as_str(), "Dark");
    assert_eq!(again.copy_destination, "/out");
    assert_eq!(again.game_root_path, Some(path("/game")));
    assert!(again.addons_enabled);
    assert!(again.script_mods_enabled);
    assert!(!again.backup_before_save);
    assert_eq!(again.last_copy_dir, Some(path("/copies")));
    assert_eq!(again.last_asset_dir, None);
}

#[test]
fn the_last_update_of_the_script_hook_counts() {
    let text = "A=1\nautoloadscripts = maybe\nB=2";
    let twice = update_scripthook_ini(&update_scripthook_ini(text, true), false);
    assert_eq!(twice, update_scripthook_ini(text, false));
    assert_eq!(twice, "A=1\nAutoLoadScripts=false\nB=2\n");
}

#[test]
fn equal_keys_keep_their_order() {
    let key = |rank: u64, text: &str| SortKey { rank, text: text.chars().collect() };
    let keys = vec![key(1, "b"), key(0, "z"), key(1, "a"), key(1, "b"), key(0, "z")];
    assert_eq!(sorted_order(&keys), vec![1, 4, 2, 0, 3]);
}

fn job(content_kind: ArchiveContentKind) -> OpenEntryJob {
    OpenEntryJob {
        asset_id: "dlc".to_string(),
        archive_path: path("/m/dlc.rpf"),
        entry_path: "dlc.rpf\\data\\peds.ymt".to_string(),
        content_kind,
    }
}

#[test]
fn an_import_gives_the_asset() {
    let asset = Path::new("/m/car.ydr");
    let plan = import_asset_plan(&tools(), asset, 7).ok();
    let draft = match plan {
        Some(plan) => imported_draft(plan, asset, 4, Ok(Vec::new())),
        None => panic!("the asset is imported"),
    };
    assert_eq!(draft.id, "car_7");
    assert_eq!(draft.source_path, path("/m/car.ydr"));
    assert_eq!(draft.folder_id, 4);
    assert!(draft.kind == AssetKind::Ydr);
    assert_eq!(draft.xml_path, Some(path("/app/.workspace/imports/car_7/current/car.ydr.xml")));
    assert!(draft.archive_tree.is_none());

    let archive = Path::new("/m/dlc.rpf");
    let tree = RpfTreeNode {
        name: "dlc.rpf".to_string(),
        path: "dlc.rpf".to_string(),
        display_path: "dlc.rpf".to_string(),
        kind: RpfTreeNodeKind::Package,
        content_kind: ArchiveContentKind::Package,
        children: Vec::new(),
    };
    let draft = match import_asset_plan(&tools(), archive, 8) {
        Ok(plan) => imported_draft(plan, archive, 0, Err(tree)),
        Err(message) => panic!("{}", message),
    };
    assert_eq!(draft.id, "dlc_8");
    assert!(draft.kind == AssetKind::Rpf);
    assert!(draft.xml_path.is_none());
    assert!(draft.textures.is_empty());
    assert_eq!(draft.archive_tree.map(|tree| tree.name), Some("dlc.rpf".to_string()));
}

#[test]
fn entries_are_opened_by_their_content() {
    match open_entry_plan(&tools(), &job(ArchiveContentKind::TextureAsset), 1) {
        OpenPlan::Textures(plan) => {
            assert_eq!(plan.title, "peds.ymt");
            let draft = exported_entry_draft(plan, &job(ArchiveContentKind::TextureAsset), Vec::new());
            assert_eq!(draft.entry_path, "dlc.rpf\\data\\peds.ymt");
            assert_eq!(draft.title, "peds.ymt");
        }
        _ => panic!("the textures are exported"),
    }
    match open_entry_plan(&tools(), &job(ArchiveContentKind::XmlText), 1) {
        OpenPlan::Text { kind, plan } => {
            assert!(kind == ArchiveTextSourceKind::RawText);
            assert_eq!(exported_text_path(&plan, kind, "xml=/t/x.xml"), Ok(plan.source_path.clone()));
        }
        _ => panic!("the text is exported"),
    }
    match open_entry_plan(&tools(), &job(ArchiveContentKind::ConvertedXml), 1) {
        OpenPlan::Text { kind, plan } => {
            assert!(kind == ArchiveTextSourceKind::YmtXml);
            assert_eq!(exported_text_path(&plan, kind, "xml=/t/x.xml"), Ok(path("/t/x.xml")));
            assert_eq!(
                exported_text_path(&plan, kind, "nothing"),
                Err("Expected xml=... in helper output".to_string())
            );
            let entry = job(ArchiveContentKind::ConvertedXml);
            let draft = exported_text_draft(plan, &entry, kind, path("/t/x.xml"), "<a/>".to_string());
            assert_eq!(draft.source_path, path("/t/x.xml"));
            assert_eq!(draft.original_text, "<a/>");
            assert!(draft.source_kind == ArchiveTextSourceKind::YmtXml);
        }
        _ => panic!("the text is converted"),
    }
    match open_entry_plan(&tools(), &job(ArchiveContentKind::File), 1) {
        OpenPlan::Unsupported(message) => assert_eq!(message, "Not supported."),
        _ => panic!("the file is not supported"),
    }
}

#[test]
fn a_stray_return_on_the_replaced_line_does_no_harm() {
    let text = "A=1\nAutoLoadScripts=1\r\r\nB=2";
    let twice = update_scripthook_ini(&update_scripthook_ini(text, true), false);
    assert_eq!(twice, update_scripthook_ini(text, false));
}
