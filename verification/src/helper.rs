//! How the helper is called that reads and writes the assets of the game.

use crate::paths::{self, shown_path, PathBytes};
use std::path::{Path, PathBuf};
use vstd::prelude::*;
use vstd::utf8::encode_utf8;

verus! {

/// A call of the helper: how it is named in messages, its arguments, and what is said where it
/// could not be started.
pub struct HelperCall {
    pub label: &'static str,
    pub arguments: Vec<PathBuf>,
    pub failure: String,
}

/// What a call consists of.
#[verifier::ext_equal]
pub struct CallParts {
    pub label: Seq<char>,
    pub arguments: Seq<Seq<u8>>,
    pub failure: Seq<char>,
}

/// The bytes of paths.
pub open spec fn all_bytes(list: Seq<PathBuf>) -> Seq<Seq<u8>> {
    Seq::new(list.len(), |i: int| list[i].bytes())
}

impl View for HelperCall {
    type V = CallParts;

    open spec fn view(&self) -> CallParts {
        CallParts {
            label: self.label@,
            arguments: all_bytes(self.arguments@),
            failure: self.failure@,
        }
    }
}

/// The message of an export that could not be started.
pub open spec fn export_failure(entry: Seq<char>, archive: Seq<u8>) -> Seq<char> {
    "Failed to export "@ + entry + " from "@ + shown_path(archive)
}

/// The export of an asset into a folder.
pub open spec fn export_of(asset: Seq<u8>, folder: Seq<u8>) -> CallParts {
    CallParts {
        label: "cwassettool export"@,
        arguments: seq![encode_utf8("export"@), asset, folder],
        failure: "Failed to export "@ + shown_path(asset),
    }
}

/// The listing of an archive.
pub open spec fn listing_of(archive: Seq<u8>) -> CallParts {
    CallParts {
        label: "cwassettool list-rpf"@,
        arguments: seq![encode_utf8("list-rpf"@), archive],
        failure: "Failed to inspect "@ + shown_path(archive),
    }
}

/// The export of an entry of an archive with the given command.
pub open spec fn entry_export_of(
    label: Seq<char>,
    command: Seq<char>,
    archive: Seq<u8>,
    entry: Seq<char>,
    target: Seq<u8>,
) -> CallParts {
    CallParts {
        label,
        arguments: seq![encode_utf8(command), archive, encode_utf8(entry), target],
        failure: export_failure(entry, archive),
    }
}

/// The building of an asset from its description.
pub open spec fn build_of(xml: Seq<u8>, output: Seq<u8>) -> CallParts {
    CallParts {
        label: "cwassettool import"@,
        arguments: seq![encode_utf8("import"@), xml, output],
        failure: "Failed to build "@ + shown_path(output),
    }
}

/// The rebuilding of an archive by a list of actions.
pub open spec fn rebuild_of(source: Seq<u8>, output: Seq<u8>, manifest: Seq<u8>) -> CallParts {
    CallParts {
        label: "cwassettool build-rpf"@,
        arguments: seq![encode_utf8("build-rpf"@), source, output, manifest],
        failure: "Failed to build "@ + shown_path(output),
    }
}

fn saying(before: &str, path: &Path) -> (r: String)
    ensures
        r@ == before@ + shown_path(path.bytes()),
{
    let mut out = before.to_owned();
    out.append(paths::shown(path).as_str());
    out
}

/// The export of an asset into a folder.
pub fn export_call(asset: &Path, folder: &Path) -> (r: HelperCall)
    ensures
        r@ == export_of(asset.bytes(), folder.bytes()),
{
    let mut arguments: Vec<PathBuf> = Vec::new();
    arguments.push(paths::path_from("export"));
    arguments.push(asset.to_path_buf());
    arguments.push(folder.to_path_buf());
    let failure = saying("Failed to export ", asset);
    let call = HelperCall { label: "cwassettool export", arguments, failure };
    assert(call@ =~= export_of(asset.bytes(), folder.bytes()));
    call
}

/// The listing of an archive.
pub fn list_call(archive: &Path) -> (r: HelperCall)
    ensures
        r@ == listing_of(archive.bytes()),
{
    let mut arguments: Vec<PathBuf> = Vec::new();
    arguments.push(paths::path_from("list-rpf"));
    arguments.push(archive.to_path_buf());
    let failure = saying("Failed to inspect ", archive);
    let call = HelperCall { label: "cwassettool list-rpf", arguments, failure };
    assert(call@ =~= listing_of(archive.bytes()));
    call
}

/// The export of an entry of an archive with the given command.
pub fn entry_export_call(
    label: &'static str,
    command: &'static str,
    archive: &Path,
    entry: &str,
    target: &Path,
) -> (r: HelperCall)
    ensures
        r@ == entry_export_of(label@, command@, archive.bytes(), entry@, target.bytes()),
{
    let mut arguments: Vec<PathBuf> = Vec::new();
    arguments.push(paths::path_from(command));
    arguments.push(archive.to_path_buf());
    arguments.push(paths::path_from(entry));
    arguments.push(target.to_path_buf());
    let mut failure = "Failed to export ".to_owned();
    failure.append(entry);
    failure.append(" from ");
    failure.append(paths::shown(archive).as_str());
    let call = HelperCall { label, arguments, failure };
    assert(call@ =~= entry_export_of(label@, command@, archive.bytes(), entry@, target.bytes()));
    call
}

/// The building of an asset from its description.
pub fn build_call(xml: &Path, output: &Path) -> (r: HelperCall)
    ensures
        r@ == build_of(xml.bytes(), output.bytes()),
{
    let mut arguments: Vec<PathBuf> = Vec::new();
    arguments.push(paths::path_from("import"));
    arguments.push(xml.to_path_buf());
    arguments.push(output.to_path_buf());
    let failure = saying("Failed to build ", output);
    let call = HelperCall { label: "cwassettool import", arguments, failure };
    assert(call@ =~= build_of(xml.bytes(), output.bytes()));
    call
}

/// The rebuilding of an archive by a list of actions.
pub fn rebuild_call(source: &Path, output: &Path, manifest: &Path) -> (r: HelperCall)
    ensures
        r@ == rebuild_of(source.bytes(), output.bytes(), manifest.bytes()),
{
    let mut arguments: Vec<PathBuf> = Vec::new();
    arguments.push(paths::path_from("build-rpf"));
    arguments.push(source.to_path_buf());
    arguments.push(output.to_path_buf());
    arguments.push(manifest.to_path_buf());
    let failure = saying("Failed to build ", output);
    let call = HelperCall { label: "cwassettool build-rpf", arguments, failure };
    assert(call@ =~= rebuild_of(source.bytes(), output.bytes(), manifest.bytes()));
    call
}

/// Whether a call is made with the given command: it stands first among the arguments, and names the
/// call in messages.
pub open spec fn calls(call: CallParts, command: Seq<char>) -> bool {
    &&& call.arguments.len() > 0 && call.arguments[0] == encode_utf8(command)
    &&& call.label == "cwassettool "@ + command
}

/// Each call gives the helper its command, then what is read, then where the result goes.
pub proof fn calls_name_source_and_target(
    asset: Seq<u8>,
    target: Seq<u8>,
    manifest: Seq<u8>,
    label: Seq<char>,
    command: Seq<char>,
    entry: Seq<char>,
)
    ensures
        calls(export_of(asset, target), "export"@),
        export_of(asset, target).arguments.skip(1) == seq![asset, target],
        calls(listing_of(asset), "list-rpf"@),
        listing_of(asset).arguments.skip(1) == seq![asset],
        calls(build_of(asset, target), "import"@),
        build_of(asset, target).arguments.skip(1) == seq![asset, target],
        calls(rebuild_of(asset, target, manifest), "build-rpf"@),
        rebuild_of(asset, target, manifest).arguments.skip(1) == seq![asset, target, manifest],
        entry_export_of(label, command, asset, entry, target).label == label,
        entry_export_of(label, command, asset, entry, target).arguments == seq![
            encode_utf8(command),
            asset,
            encode_utf8(entry),
            target,
        ],
{
    reveal_strlit("cwassettool ");
    reveal_strlit("export");
    reveal_strlit("cwassettool export");
    reveal_strlit("list-rpf");
    reveal_strlit("cwassettool list-rpf");
    reveal_strlit("import");
    reveal_strlit("cwassettool import");
    reveal_strlit("build-rpf");
    reveal_strlit("cwassettool build-rpf");
    assert("cwassettool export"@ =~= "cwassettool "@ + "export"@);
    assert("cwassettool list-rpf"@ =~= "cwassettool "@ + "list-rpf"@);
    assert("cwassettool import"@ =~= "cwassettool "@ + "import"@);
    assert("cwassettool build-rpf"@ =~= "cwassettool "@ + "build-rpf"@);
}

}
