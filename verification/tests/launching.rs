//! Starting the game, getting the tools, and the setup.

use gtav_texture_importer::codewalker::{
    check_codewalker_updates, download_codewalker, Download, DownloadStep, HelperBuild, UpdateCheck,
};
use gtav_texture_importer::launcher::{
    cached_vulkan_archive_path, dll_overrides, temp_work_dir, validate_game_directory,
    vulkan_runtime_cache_marker, vulkan_runtime_ready, wine_environment, wine_prefix,
    DependencyStatus, LauncherAction, LauncherDependencyStatus, LauncherError, LauncherReply,
    LauncherVariables, PrepareResult, Tool, VulkanCacheStatus, VulkanStatus,
};
use gtav_texture_importer::operations::{
    cache_vulkan_runtime, cached_message, ensure_runtime_dependencies, launch_game_prepared,
    prepare_environment, started_message,
};
use gtav_texture_importer::paths::PathSet;
use gtav_texture_importer::programs::{ProgramEnd, StepReply, ToolAction, ToolCommand};
use gtav_texture_importer::setup::{
    action_enabled, next_enabled, setup_page, SetupStatus, SetupStep, ToolAnswers, ToolPaths,
};
use std::path::{Path, PathBuf};

fn path(text: &str) -> PathBuf {
    PathBuf::from(text)
}

fn variables() -> LauncherVariables {
    LauncherVariables {
        syswine: Some("mywine".to_string()),
        wineboot: None,
        wineserver: None,
        winetricks: None,
        tar: None,
        bash: None,
        winearch: None,
        large_address_aware: None,
        winedebug: Some("-all".to_string()),
        dxvk_enable_nvapi: None,
        lc_numeric: None,
        dll_overrides: None,
    }
}

fn exited(success: bool, stderr: &str) -> LauncherReply {
    LauncherReply::Exited { success, code: Some(if success { 0 } else { 3 }), stderr: stderr.to_string() }
}

#[test]
fn tools_are_named_by_the_environment() {
    let variables = variables();
    assert_eq!(variables.binary(Tool::Wine), "mywine");
    assert_eq!(variables.binary(Tool::Wineboot), "wineboot");
    assert_eq!(Tool::Winetricks.name(), "winetricks");
    let found = vec!["mywine".to_string(), "tar".to_string()];
    let status = LauncherDependencyStatus::detect(&variables, &found);
    assert!(status.wine_available && status.tar_available);
    assert!(!status.wineboot_available && !status.bash_available);
}

#[test]
fn states_have_labels() {
    assert_eq!(VulkanCacheStatus::CachedNow.as_label(), "cached");
    assert_eq!(VulkanStatus::NotConfigured.as_label(), "not configured");
    assert!(VulkanStatus::ConfiguredNow.is_configured());
    assert!(!VulkanStatus::NotConfigured.is_configured());
    assert_eq!(DependencyStatus::AlreadyInstalled.as_label(), "already installed");
}

#[test]
fn the_launcher_has_its_files() {
    let workspace = Path::new("/w");
    assert_eq!(cached_vulkan_archive_path(workspace), path("/w/launcher/cache/vulkan.tar.xz"));
    assert_eq!(vulkan_runtime_cache_marker(workspace), path("/w/launcher/cache/vulkan-runtime.v1"));
    assert_eq!(wine_prefix(workspace), path("/w/launcher/prefix"));
    let mut files = PathSet::new();
    files.insert(cached_vulkan_archive_path(workspace));
    assert!(!vulkan_runtime_ready(workspace, &files));
    files.insert(vulkan_runtime_cache_marker(workspace));
    assert!(vulkan_runtime_ready(workspace, &files));
    assert_eq!(temp_work_dir(Path::new("/tmp"), "x", 7, 99), path("/tmp/x-7-99"));
}

#[test]
fn a_game_folder_holds_the_game() {
    let game = Path::new("/g");
    let mut folders = PathSet::new();
    let mut files = PathSet::new();
    match validate_game_directory(game, &folders, &files) {
        Err(error) => assert_eq!(error.describe(), "Game directory does not exist: /g"),
        Ok(()) => panic!("the folder is missing"),
    }
    folders.insert(path("/g"));
    match validate_game_directory(game, &folders, &files) {
        Err(error) => assert_eq!(error.describe(), "PlayGTAV.exe not found in: /g"),
        Ok(()) => panic!("the game is missing"),
    }
    files.insert(path("/g/PlayGTAV.exe"));
    assert!(validate_game_directory(game, &folders, &files).is_ok());
}

#[test]
fn troubles_are_described() {
    let io = LauncherError::Io { context: "a".to_string(), source: "b".to_string() };
    assert_eq!(io.describe(), "a: b");
    assert_eq!(io.source().as_deref(), Some("b"));
    let spawn = LauncherError::Spawn { context: "a".to_string(), source: "b".to_string() };
    assert_eq!(spawn.describe(), "Failed to launch game process (a): b");
    let failed = LauncherError::CommandFailed {
        context: "c".to_string(),
        code: Some(-2),
        stderr: String::new(),
    };
    assert_eq!(failed.describe(), "Command failed (c), exit code Some(-2)");
    assert!(failed.source().is_none());
    let told = LauncherError::CommandFailed {
        context: "c".to_string(),
        code: None,
        stderr: "no".to_string(),
    };
    assert_eq!(told.describe(), "Command failed (c), exit code None: no");
    assert_eq!(
        LauncherError::MissingBinary("wine").describe(),
        "Required launcher binary is missing: wine"
    );
    assert_eq!(
        LauncherError::MissingSetupScript(path("/s")).describe(),
        "Vulkan setup script not found: /s"
    );
}

#[test]
fn wine_gets_its_environment() {
    let pairs = wine_environment(Path::new("/p"), VulkanStatus::NotConfigured, &variables());
    assert_eq!(pairs.len(), 7);
    assert_eq!(pairs[0], ("WINEPREFIX".to_string(), "/p".to_string()));
    assert_eq!(pairs[1], ("WINEARCH".to_string(), "win64".to_string()));
    assert_eq!(pairs[3], ("WINEDEBUG".to_string(), "-all".to_string()));
    assert_eq!(pairs[6].0, "WINEDLLOVERRIDES");
    assert_eq!(pairs[6].1, dll_overrides(VulkanStatus::NotConfigured));
    assert!(dll_overrides(VulkanStatus::ConfiguredNow).ends_with("d3d12,d3d12core=n"));
}

#[test]
fn a_cached_runtime_is_not_copied_again() {
    let mut caching = cache_vulkan_runtime(Path::new("/w"), None);
    match caching.action() {
        Some(LauncherAction::IsFile(file)) => {
            assert_eq!(file, cached_vulkan_archive_path(Path::new("/w")))
        }
        _ => panic!("the archive is looked for"),
    }
    caching.advance(LauncherReply::Yes);
    caching.advance(LauncherReply::Yes);
    assert!(caching.action().is_none());
    assert!(matches!(caching.result(), Some(Ok(VulkanCacheStatus::AlreadyCached))));
}

#[test]
fn a_given_archive_is_cached() {
    let mut caching = cache_vulkan_runtime(Path::new("/w"), Some(path("/v.tar.xz")));
    caching.advance(LauncherReply::No);
    caching.advance(LauncherReply::Yes);
    match caching.action() {
        Some(LauncherAction::CreateDirectory(folder)) => {
            assert_eq!(folder, path("/w/launcher/cache"))
        }
        _ => panic!("the folder is created"),
    }
    caching.advance(LauncherReply::Done);
    match caching.action() {
        Some(LauncherAction::CopyFile { from, to }) => {
            assert_eq!(from, path("/v.tar.xz"));
            assert_eq!(to, cached_vulkan_archive_path(Path::new("/w")));
        }
        _ => panic!("the archive is copied"),
    }
    caching.advance(LauncherReply::Failed("full".to_string()));
    match caching.result() {
        Some(Err(error)) => assert_eq!(
            error.describe(),
            "Failed to copy Vulkan runtime archive from /v.tar.xz to \
             /w/launcher/cache/vulkan.tar.xz: full"
        ),
        _ => panic!("the copy failed"),
    }
}

#[test]
fn a_runtime_that_is_nowhere_is_missing() {
    let mut caching = cache_vulkan_runtime(Path::new("/w"), None);
    caching.advance(LauncherReply::No);
    caching.advance(LauncherReply::No);
    match caching.result() {
        Some(Err(error)) => assert_eq!(
            error.describe(),
            "Cached Vulkan runtime archive not found: /w/launcher/cache/vulkan.tar.xz"
        ),
        _ => panic!("the archive is missing"),
    }
}

#[test]
fn a_prepared_prefix_is_used_as_it_is() {
    let mut preparation = prepare_environment(Path::new("/w"), path("/tmp/s"), variables());
    match preparation.action() {
        Some(LauncherAction::HasBinary(binary)) => assert_eq!(binary, "mywine"),
        _ => panic!("wine is looked for"),
    }
    for _ in 0..6 {
        preparation.advance(LauncherReply::Yes);
    }
    match preparation.result() {
        Some(Ok(result)) => {
            assert_eq!(result.prefix, path("/w/launcher/prefix"));
            assert!(matches!(result.vulkan_status, VulkanStatus::AlreadyConfigured));
        }
        _ => panic!("the prefix is ready"),
    }
}

#[test]
fn a_missing_wine_is_reported() {
    let mut preparation = prepare_environment(Path::new("/w"), path("/tmp/s"), variables());
    preparation.advance(LauncherReply::No);
    match preparation.result() {
        Some(Err(error)) => {
            assert_eq!(error.describe(), "Required launcher binary is missing: wine")
        }
        _ => panic!("wine is missing"),
    }
}

#[test]
fn a_failed_script_leaves_no_scratch_folder() {
    let mut preparation = prepare_environment(Path::new("/w"), path("/tmp/s"), variables());
    for _ in 0..3 {
        preparation.advance(LauncherReply::Yes);
    }
    preparation.advance(LauncherReply::No);
    preparation.advance(LauncherReply::Yes);
    preparation.advance(LauncherReply::No);
    for _ in 0..3 {
        preparation.advance(LauncherReply::Yes);
    }
    preparation.advance(LauncherReply::Done);
    match preparation.action() {
        Some(LauncherAction::Run(command)) => {
            assert_eq!(command.binary, "tar");
            assert_eq!(
                command.args,
                vec!["-xf", "/w/launcher/cache/vulkan.tar.xz", "-C", "/tmp/s"]
            );
        }
        _ => panic!("the archive is extracted"),
    }
    preparation.advance(exited(true, ""));
    preparation.advance(LauncherReply::Yes);
    preparation.advance(exited(false, " broken \n"));
    match preparation.action() {
        Some(LauncherAction::RemoveDirectory(folder)) => assert_eq!(folder, path("/tmp/s")),
        _ => panic!("the scratch folder is removed"),
    }
    preparation.advance(LauncherReply::Done);
    match preparation.result() {
        Some(Err(error)) => assert_eq!(
            error.describe(),
            "Command failed (run Vulkan setup script), exit code Some(3): broken"
        ),
        _ => panic!("the script failed"),
    }
}

fn prepared() -> PrepareResult {
    PrepareResult { prefix: path("/p"), vulkan_status: VulkanStatus::ConfiguredNow }
}

#[test]
fn dependencies_are_installed_one_after_the_other() {
    let mut installation = ensure_runtime_dependencies(&prepared(), variables());
    installation.advance(LauncherReply::Yes);
    installation.advance(LauncherReply::No);
    let mut verbs = Vec::new();
    while let Some(LauncherAction::Run(command)) = installation.action() {
        assert_eq!(command.binary, "winetricks");
        verbs.push(command.args.join(" "));
        installation.advance(exited(true, ""));
    }
    assert_eq!(
        verbs,
        vec![
            "-q remove_mono",
            "-q winxp dotnet40 dotnet452",
            "-q winxp dotnet40 dotnet48",
            "-q win10",
            "-q ucrtbase2019 vcrun2019",
            "-q d3dx11_43"
        ]
    );
    match installation.action() {
        Some(LauncherAction::WriteFile { path: marker, text }) => {
            assert_eq!(marker, path("/p/runtime-deps.v1"));
            assert_eq!(text, "runtime dependencies installed");
        }
        _ => panic!("the marker is written last"),
    }
    installation.advance(LauncherReply::Done);
    assert!(matches!(installation.result(), Some(Ok(DependencyStatus::InstalledNow))));
}

#[test]
fn installed_dependencies_are_kept() {
    let mut installation = ensure_runtime_dependencies(&prepared(), variables());
    installation.advance(LauncherReply::Yes);
    installation.advance(LauncherReply::Yes);
    assert!(matches!(installation.result(), Some(Ok(DependencyStatus::AlreadyInstalled))));
}

#[test]
fn the_game_is_started_in_its_folder() {
    let mut launch = launch_game_prepared(Path::new("/g"), &prepared(), variables());
    for _ in 0..3 {
        launch.advance(LauncherReply::Yes);
    }
    match launch.action() {
        Some(LauncherAction::Spawn { command, directory }) => {
            assert_eq!(command.binary, "mywine");
            assert_eq!(command.args, vec!["PlayGTAV.exe"]);
            assert_eq!(directory, path("/g"));
        }
        _ => panic!("the game is started"),
    }
    launch.advance(LauncherReply::Failed("no".to_string()));
    match launch.result() {
        Some(Err(error)) => assert_eq!(
            error.describe(),
            "Failed to launch game process (mywine PlayGTAV.exe (cwd: /g)): no"
        ),
        _ => panic!("the start failed"),
    }
}

#[test]
fn the_start_is_told() {
    let message = started_message(DependencyStatus::InstalledNow, VulkanStatus::ConfiguredNow);
    assert!(message.contains("installed"));
    assert!(message.contains("configured"));
}

#[test]
fn equal_revisions_end_the_check() {
    let mut check = check_codewalker_updates();
    check = check.after(StepReply::Done(String::new()));
    check = check.after(StepReply::Yes);
    check = check.after(StepReply::Yes);
    check = check.after(StepReply::Done(String::new()));
    check = check.after(StepReply::Done("abc".to_string()));
    check = check.after(StepReply::Done("abc".to_string()));
    match check {
        UpdateCheck::Finished(Ok(message)) => {
            assert_eq!(message, "CodeWalker is already up to date.")
        }
        _ => panic!("there is nothing to do"),
    }
}

#[test]
fn other_revisions_are_pulled_and_built() {
    let check = UpdateCheck::Remote("abc".to_string());
    let check = check.after(StepReply::Done("abd".to_string()));
    assert!(matches!(check, UpdateCheck::Pull));
    let check = check.after(StepReply::Done(String::new()));
    assert!(matches!(check, UpdateCheck::Build));
    match check.after(StepReply::Failed("no sdk".to_string())) {
        UpdateCheck::Finished(Err(message)) => assert_eq!(message, "no sdk"),
        _ => panic!("the build failed"),
    }
}

#[test]
fn a_missing_source_ends_the_check() {
    match UpdateCheck::Present.after(StepReply::No) {
        UpdateCheck::Finished(Err(message)) => {
            assert_eq!(message, "CodeWalker source is missing. Run the setup wizard first.")
        }
        _ => panic!("the source is missing"),
    }
    match UpdateCheck::Checkout.after(StepReply::No) {
        UpdateCheck::Finished(Ok(message)) => assert!(message.contains("not a git checkout")),
        _ => panic!("there is no checkout"),
    }
}

#[test]
fn a_present_source_is_not_downloaded() {
    let download = download_codewalker();
    let download = download.after(StepReply::Done(String::new()));
    let download = download.after(StepReply::Done(String::new()));
    match download.after(StepReply::Yes) {
        Download::Finished(result) => assert_eq!(result, Ok(())),
        Download::At(_) => panic!("the source is there"),
    }
}

#[test]
fn a_broken_source_is_removed_first() {
    let download = Download::At(DownloadStep::Present).after(StepReply::No);
    let download = download.after(StepReply::Yes);
    assert!(matches!(download, Download::At(DownloadStep::Remove)));
    let download = download.after(StepReply::Done(String::new()));
    assert!(matches!(download, Download::At(DownloadStep::Clone)));
    assert!(matches!(
        download.after(StepReply::Done(String::new())),
        Download::Finished(Ok(()))
    ));
}

fn words(command: &ToolCommand) -> String {
    let mut all = vec![command.program.to_string()];
    all.extend(command.arguments.iter().map(|argument| argument.display().to_string()));
    all.join(" ")
}

fn run_of(action: Option<ToolAction>) -> ToolCommand {
    match action {
        Some(ToolAction::Run(command)) => command,
        _ => panic!("a program is run"),
    }
}

fn ended(success: bool, stdout: &str, stderr: &str) -> Option<ProgramEnd> {
    Some(ProgramEnd {
        success,
        stdout: stdout.to_string(),
        stderr: stderr.to_string(),
        status: "exit status: 1".to_string(),
    })
}

fn failed(reply: StepReply) -> String {
    match reply {
        StepReply::Failed(message) => message,
        _ => panic!("the step failed"),
    }
}

#[test]
fn the_source_is_cloned_from_its_home() {
    let tools = ToolPaths::discover(Path::new("/app"));
    let clone = run_of(Download::At(DownloadStep::Clone).action(&tools));
    assert_eq!(
        words(&clone),
        "git clone --depth 1 https://github.com/dexyfex/CodeWalker /app/external/CodeWalker"
    );
    assert!(clone.directory.is_none());
    assert_eq!(failed(clone.judge(&None)), "Failed to start git clone for CodeWalker");
    assert_eq!(
        failed(clone.judge(&ended(false, "", " no net\n"))),
        "git clone CodeWalker failed: no net"
    );
    let reply = clone.judge(&ended(true, "cloned", ""));
    assert!(matches!(
        Download::At(DownloadStep::Clone).after(reply),
        Download::Finished(Ok(()))
    ));
    assert_eq!(words(&run_of(download_codewalker().action(&tools))), "git --version");
    assert!(matches!(
        Download::At(DownloadStep::Remove).action(&tools),
        Some(ToolAction::RemoveFolder(folder)) if folder == path("/app/external/CodeWalker")
    ));
    assert!(matches!(
        Download::At(DownloadStep::CreateFolder).action(&tools),
        Some(ToolAction::CreateFolder(folder)) if folder == path("/app/external")
    ));
    assert!(Download::Finished(Ok(())).action(&tools).is_none());
}

#[test]
fn updates_are_fetched_and_pulled() {
    let tools = ToolPaths::discover(Path::new("/app"));
    assert_eq!(
        words(&run_of(UpdateCheck::Fetch.action(&tools))),
        "git -C /app/external/CodeWalker fetch origin master"
    );
    assert_eq!(
        words(&run_of(UpdateCheck::Pull.action(&tools))),
        "git -C /app/external/CodeWalker pull --ff-only origin master"
    );
    let local = run_of(UpdateCheck::Local.action(&tools));
    assert_eq!(words(&local), "git -C /app/external/CodeWalker rev-parse HEAD");
    assert!(matches!(
        local.judge(&ended(true, " abc\n", "")),
        StepReply::Done(revision) if revision == "abc"
    ));
    assert_eq!(
        failed(local.judge(&ended(false, "", ""))),
        "git -C /app/external/CodeWalker rev-parse HEAD failed"
    );
    assert_eq!(
        words(&run_of(UpdateCheck::Remote(String::new()).action(&tools))),
        "git -C /app/external/CodeWalker rev-parse origin/master"
    );
    assert!(matches!(
        UpdateCheck::Checkout.action(&tools),
        Some(ToolAction::Exists(folder)) if folder == path("/app/external/CodeWalker/.git")
    ));
    assert!(matches!(UpdateCheck::Build.action(&tools), Some(ToolAction::BuildHelper)));
}

#[test]
fn the_helper_is_built_in_its_folder() {
    let tools = ToolPaths::discover(Path::new("/app"));
    let source = "/app/external/CwAssetTool/CwAssetTool.csproj";
    match tools.build_cwassettool().after(&tools, StepReply::No) {
        HelperBuild::Finished(Err(message)) => {
            assert_eq!(message, format!("CwAssetTool source was not found at {}", source))
        }
        _ => panic!("the source is missing"),
    }
    let build = tools.build_cwassettool().after(&tools, StepReply::Yes);
    let command = run_of(build.action(&tools));
    assert_eq!(words(&command), format!("dotnet build -c Release {}", source));
    assert_eq!(command.directory, Some(path("/app/external/CwAssetTool")));
    let build = build.after(&tools, command.judge(&ended(true, "", "")));
    assert!(matches!(build, HelperBuild::Binary));
    assert!(matches!(
        HelperBuild::Binary.after(&tools, StepReply::No),
        HelperBuild::Finished(Err(_))
    ));
    assert!(matches!(build.after(&tools, StepReply::Yes), HelperBuild::Finished(Ok(()))));
}

fn nothing() -> LauncherDependencyStatus {
    LauncherDependencyStatus {
        wine_available: false,
        wineboot_available: false,
        wineserver_available: false,
        winetricks_available: false,
        bash_available: false,
        tar_available: false,
    }
}

#[test]
fn the_setup_finds_files_and_programs() {
    let tools = ToolPaths::discover(Path::new("/app"));
    let mut files = PathSet::new();
    files.insert(tools.cwassettool_project.clone());
    files.insert(tools.codewalker_project());
    let answers = ToolAnswers { git: true, dotnet: false, magick: true };
    let status = SetupStatus::detect(&tools, &files, answers, nothing());
    assert!(status.cwassettool_source && status.codewalker_source && status.git_available);
    assert!(!status.cwassettool_binary && !status.dotnet_available && !status.wine_available);
    assert!(!status.setup_ready());
    assert!(next_enabled(SetupStep::ExternalTools, &status, &nothing(), false));
    assert!(!next_enabled(SetupStep::SystemDependencies, &status, &nothing(), false));
    assert!(action_enabled(SetupStep::BuildHelper, &status, false));
    assert!(!action_enabled(SetupStep::Ready, &status, true));
}

#[test]
fn the_steps_of_the_setup_follow_each_other() {
    assert!(SetupStep::Welcome.previous().is_none());
    assert!(SetupStep::Ready.next().is_none());
    let mut step = SetupStep::Welcome;
    let mut count = 1;
    while let Some(next) = step.next() {
        assert!(next.previous() == Some(step));
        step = next;
        count += 1;
    }
    assert_eq!(count, 5);
    assert_eq!(SetupStep::Ready.title(), "Ready");
    assert!(SetupStep::BuildHelper.next() == Some(SetupStep::Ready));
    assert!(SetupStep::Ready.previous() == Some(SetupStep::BuildHelper));
    assert!(SetupStep::GameFolder.next() == Some(SetupStep::Ready));
    assert!(SetupStep::GameFolder.previous() == Some(SetupStep::BuildHelper));
}

#[test]
fn the_setup_page_tells_what_is_missing() {
    let tools = ToolPaths::discover(Path::new("/app"));
    let answers = ToolAnswers { git: true, dotnet: false, magick: false };
    let status = SetupStatus::detect(&tools, &PathSet::new(), answers, nothing());
    let page = setup_page(
        SetupStep::SystemDependencies,
        &status,
        &nothing(),
        &tools,
        &None,
        &None,
    );
    assert_eq!(page.title, SetupStep::SystemDependencies.title());
    let labels: Vec<String> = page.rows.iter().map(|row| row.label()).collect();
    assert!(labels.iter().any(|label| label.ends_with(": OK")));
    assert!(labels.iter().any(|label| label.ends_with(": Missing")));
    assert!(page.action_label.is_none());
}

#[test]
fn the_cache_is_told() {
    assert_eq!(cached_message(VulkanCacheStatus::AlreadyCached), "Vulkan runtime already cached.");
}

#[test]
fn the_folders_of_the_program_are_made() {
    let tools = ToolPaths::discover(Path::new("/app"));
    assert_eq!(
        tools.ensure_directories(),
        vec![path("/app/.workspace/imports"), path("/app/builds"), path("/app/external")]
    );
}
