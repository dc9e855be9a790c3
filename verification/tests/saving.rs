//! Saving an asset in place.

use gtav_texture_importer::saving::{SaveAction, SaveReply, SaveStage, Saving};
use gtav_texture_importer::setup::ToolPaths;
use std::path::{Path, PathBuf};

fn path(text: &str) -> PathBuf {
    PathBuf::from(text)
}

fn save(xml: Option<&str>, backup: bool) -> Saving {
    let tools = ToolPaths::discover(Path::new("/app"));
    Saving::begin(&tools, path("/m/a.rpf"), xml.map(PathBuf::from), backup, 5)
}

fn name(action: &SaveAction) -> String {
    match action {
        SaveAction::Nothing => "nothing".to_string(),
        SaveAction::CreateFolder(folder) => format!("create {}", folder.display()),
        SaveAction::IsFile(file) => format!("ask {}", file.display()),
        SaveAction::CopyFile { from, to } => format!("copy {} {}", from.display(), to.display()),
        SaveAction::WriteManifest(file) => format!("manifest {}", file.display()),
        SaveAction::Call(call) => format!("call {}", call.label),
        SaveAction::Rename { from, to } => format!("rename {} {}", from.display(), to.display()),
        SaveAction::RemoveFile(file) => format!("remove {}", file.display()),
        SaveAction::RemoveFolder(folder) => format!("remove folder {}", folder.display()),
    }
}

fn run(mut saving: Saving, answer: impl Fn(&str) -> SaveReply) -> (Vec<String>, Result<(), String>) {
    let mut done = Vec::new();
    while let Some(action) = saving.action() {
        let name = name(&action);
        saving = saving.after(answer(&name));
        done.push(name);
        assert!(done.len() <= 12);
    }
    match saving.stage {
        SaveStage::Finished(result) => (done, result),
        _ => panic!("nothing is left to do"),
    }
}

const TEMP: &str = "/m/.gtav_texture_importer_tmp_5";

#[test]
fn an_archive_is_rebuilt_and_replaced() {
    let (done, result) = run(save(None, true), |name| {
        if name.starts_with("ask") {
            SaveReply::Yes
        } else {
            SaveReply::Done
        }
    });
    assert_eq!(result, Ok(()));
    assert_eq!(
        done,
        vec![
            format!("create {}", TEMP),
            "ask /m/a.rpf".to_string(),
            "copy /m/a.rpf /m/a.rpf.bak".to_string(),
            format!("create {}", TEMP),
            "create /app/.workspace/imports".to_string(),
            "manifest /app/.workspace/imports/rpf_build_5.json".to_string(),
            "call cwassettool build-rpf".to_string(),
            "remove /app/.workspace/imports/rpf_build_5.json".to_string(),
            format!("rename {}/a.rpf /m/a.rpf", TEMP),
            format!("remove folder {}", TEMP),
        ]
    );
}

#[test]
fn an_asset_is_built_from_its_description() {
    let (done, result) = run(save(Some("/s/a.xml"), false), |_| SaveReply::Done);
    assert_eq!(result, Ok(()));
    assert_eq!(done[2], "call cwassettool import");
    assert_eq!(done.len(), 5);
}

#[test]
fn a_failed_build_leaves_the_file_alone() {
    let (done, result) = run(save(None, false), |name| {
        if name.starts_with("call") {
            SaveReply::Failed("cwassettool build-rpf failed: bad".to_string())
        } else {
            SaveReply::Done
        }
    });
    assert_eq!(result, Err("cwassettool build-rpf failed: bad".to_string()));
    assert!(done.iter().all(|name| !name.starts_with("rename")));
    assert_eq!(done.last().map(String::as_str), Some("remove /app/.workspace/imports/rpf_build_5.json"));
}

#[test]
fn a_helper_that_does_not_start_is_reported() {
    let (done, result) = run(save(None, false), |name| {
        if name.starts_with("call") {
            SaveReply::NotStarted
        } else {
            SaveReply::Done
        }
    });
    assert_eq!(result, Err(format!("Failed to build {}/a.rpf", TEMP)));
    assert_eq!(done.last().map(String::as_str), Some("call cwassettool build-rpf"));
}

#[test]
fn a_failed_backup_ends_the_save() {
    let (_, result) = run(save(None, true), |name| {
        if name.starts_with("ask") {
            SaveReply::Yes
        } else if name.starts_with("copy") {
            SaveReply::Failed("full".to_string())
        } else {
            SaveReply::Done
        }
    });
    assert_eq!(result, Err("Failed to create backup /m/a.rpf.bak from /m/a.rpf".to_string()));
}

#[test]
fn a_file_that_is_not_there_needs_no_backup() {
    let (done, _) = run(save(None, true), |name| {
        if name.starts_with("ask") {
            SaveReply::No
        } else {
            SaveReply::Done
        }
    });
    assert!(done.iter().all(|name| !name.starts_with("copy")));
}

#[test]
fn a_file_that_cannot_be_moved_is_copied() {
    let (done, result) = run(save(Some("/s/a.xml"), false), |name| {
        if name.starts_with("rename") {
            SaveReply::Failed("cross-device".to_string())
        } else {
            SaveReply::Done
        }
    });
    assert_eq!(result, Ok(()));
    assert_eq!(done[4], format!("copy {}/a.rpf /m/a.rpf", TEMP));
    assert_eq!(done[5], format!("remove {}/a.rpf", TEMP));
    let (_, result) = run(save(Some("/s/a.xml"), false), |name| {
        if name.starts_with("rename") || name.starts_with("copy") {
            SaveReply::Failed("cross-device".to_string())
        } else {
            SaveReply::Done
        }
    });
    assert_eq!(
        result,
        Err(format!(
            "Failed to replace /m/a.rpf with {}/a.rpf after rename error: cross-device",
            TEMP
        ))
    );
}
