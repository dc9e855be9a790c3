//! What imports and exports hand over to the application.

use crate::archive::{ArchiveContentKind, ArchiveTextSourceKind, RpfTreeNode};
use crate::assets::{ImportedArchiveEntryDraft, ImportedArchiveTextDraft, ImportedAssetDraft};
use crate::browse::OpenEntryJob;
use crate::outputs::{named_value, parse_named_output_path};
use crate::paths::PathBytes;
use crate::setup::ToolPaths;
use crate::text::lines_of;
use crate::textures::{kind_of, textures_come_out, AssetKind, NodeParts, TextureEntryDraft};
use crate::workspace::{
    entry_planned, export_entry_plan, export_text_plan, import_planned, text_planned, EntryPlan,
    ImportPlan, TextPlan,
};
use std::path::{Path, PathBuf};
use vstd::prelude::*;
use vstd::utf8::encode_utf8;

verus! {

/// Whether what was found belongs to a plan: the tree of an archive to a listing, textures to an
/// export.
pub open spec fn answers_plan(
    plan: ImportPlan,
    found: Result<Vec<TextureEntryDraft>, RpfTreeNode>,
) -> bool {
    plan is List <==> found is Err
}

/// Whether an imported asset is what a plan and what was found by it make of a file.
pub open spec fn drafted(
    plan: ImportPlan,
    asset: Seq<u8>,
    folder_id: u64,
    found: Result<Vec<TextureEntryDraft>, RpfTreeNode>,
    draft: ImportedAssetDraft,
) -> bool {
    &&& draft.source_path.bytes() == asset
    &&& draft.folder_id == folder_id
    &&& match (plan, found) {
        (ImportPlan::List { id, .. }, Err(tree)) => {
            &&& draft.id == id
            &&& draft.kind is Rpf
            &&& draft.xml_path is None
            &&& draft.textures@.len() == 0
            &&& draft.archive_tree == Some(tree)
        },
        (ImportPlan::Export { kind, session, xml_path, .. }, Ok(textures)) => {
            &&& draft.id == session.id
            &&& draft.kind == kind
            &&& draft.xml_path == Some(xml_path)
            &&& draft.textures == textures
            &&& draft.archive_tree is None
        },
        _ => false,
    }
}

/// The imported asset, given the textures that were found by an export or the tree that was found
/// by a listing.
pub fn imported_draft(
    plan: ImportPlan,
    asset_path: &Path,
    folder_id: u64,
    found: Result<Vec<TextureEntryDraft>, RpfTreeNode>,
) -> (r: ImportedAssetDraft)
    requires
        answers_plan(plan, found),
    ensures
        drafted(plan, asset_path.bytes(), folder_id, found, r),
{
    let source_path = asset_path.to_path_buf();
    let (textures, archive_tree) = match found {
        Ok(textures) => (textures, None),
        Err(tree) => (Vec::new(), Some(tree)),
    };
    match plan {
        ImportPlan::List { id, .. } => ImportedAssetDraft {
            id,
            source_path,
            kind: AssetKind::Rpf,
            folder_id,
            xml_path: None,
            textures,
            archive_tree,
        },
        ImportPlan::Export { kind, session, xml_path, .. } => ImportedAssetDraft {
            id: session.id,
            source_path,
            kind,
            folder_id,
            xml_path: Some(xml_path),
            textures,
            archive_tree,
        },
    }
}

/// An imported asset is the file that was asked for, of the kind that its name tells: an archive
/// comes with its tree and without a description, any other asset with its description and at
/// least one texture.
pub proof fn an_import_holds_its_asset(
    plan: ImportPlan,
    imports: Seq<u8>,
    asset: Seq<u8>,
    millis: u64,
    folder_id: u64,
    found: Result<Vec<TextureEntryDraft>, RpfTreeNode>,
    document: Result<Seq<NodeParts>, Seq<char>>,
    draft: ImportedAssetDraft,
)
    requires
        import_planned(Ok(plan), imports, asset, millis),
        plan matches ImportPlan::Export { session, xml_path, .. } ==> (found matches Ok(textures)
            && textures_come_out(
            Ok(textures),
            document,
            xml_path.bytes(),
            session.working_dir.bytes(),
            session.preview_dir.bytes(),
            true,
        )),
        drafted(plan, asset, folder_id, found, draft),
    ensures
        draft.source_path.bytes() == asset,
        draft.folder_id == folder_id,
        kind_of(asset) == Some(draft.kind),
        draft.kind is Rpf <==> draft.archive_tree is Some,
        draft.kind is Rpf <==> draft.xml_path is None,
        !(draft.kind is Rpf) ==> draft.textures@.len() > 0,
{
}

/// How an entry of an archive is opened.
pub enum OpenPlan {
    Textures(EntryPlan),
    Text { kind: ArchiveTextSourceKind, plan: TextPlan },
    Unsupported(&'static str),
}

/// Whether an entry is opened as its content asks for.
pub open spec fn open_planned(
    r: OpenPlan,
    imports: Seq<u8>,
    archive: Seq<u8>,
    entry: Seq<char>,
    kind: ArchiveContentKind,
    millis: u64,
) -> bool {
    match kind {
        ArchiveContentKind::TextureAsset => r matches OpenPlan::Textures(plan) && entry_planned(
            plan,
            imports,
            archive,
            entry,
            millis,
        ),
        ArchiveContentKind::XmlText => r matches OpenPlan::Text { kind: source, plan }
            && source is RawText && text_planned(plan, imports, archive, entry, source, millis),
        ArchiveContentKind::ConvertedXml => r matches OpenPlan::Text { kind: source, plan }
            && source is YmtXml && text_planned(plan, imports, archive, entry, source, millis),
        _ => r matches OpenPlan::Unsupported(message) && message@ == "Not supported."@,
    }
}

/// How an entry of an archive is opened at the given time.
pub fn open_entry_plan(tools: &ToolPaths, job: &OpenEntryJob, millis: u64) -> (r: OpenPlan)
    ensures
        open_planned(
            r,
            tools.imports(),
            job.archive_path.bytes(),
            job.entry_path@,
            job.content_kind,
            millis,
        ),
{
    let archive = job.archive_path.as_path();
    let entry = job.entry_path.as_str();
    match job.content_kind {
        ArchiveContentKind::TextureAsset => OpenPlan::Textures(
            export_entry_plan(tools, archive, entry, millis),
        ),
        ArchiveContentKind::XmlText => {
            let kind = ArchiveTextSourceKind::RawText;
            OpenPlan::Text { kind, plan: export_text_plan(tools, archive, entry, kind, millis) }
        },
        ArchiveContentKind::ConvertedXml => {
            let kind = ArchiveTextSourceKind::YmtXml;
            OpenPlan::Text { kind, plan: export_text_plan(tools, archive, entry, kind, millis) }
        },
        _ => OpenPlan::Unsupported("Not supported."),
    }
}

/// An entry whose textures were exported.
pub fn exported_entry_draft(plan: EntryPlan, job: &OpenEntryJob, textures: Vec<TextureEntryDraft>) -> (r:
    ImportedArchiveEntryDraft)
    ensures
        r.entry_path == job.entry_path,
        r.title == plan.title,
        r.xml_path == plan.xml_path,
        r.textures == textures,
{
    ImportedArchiveEntryDraft {
        entry_path: job.entry_path.clone(),
        title: plan.title,
        xml_path: plan.xml_path,
        textures,
    }
}

/// Where a text was exported to: a raw text to the file that was asked for, a converted one to the
/// file that the helper printed.
pub fn exported_text_path(plan: &TextPlan, kind: ArchiveTextSourceKind, printed: &str) -> (r: Result<
    PathBuf,
    String,
>)
    ensures
        match kind {
            ArchiveTextSourceKind::RawText => r == Ok::<PathBuf, String>(plan.source_path),
            ArchiveTextSourceKind::YmtXml => match named_value(lines_of(printed@), "xml="@) {
                Some(value) => r matches Ok(path) && path.bytes() == encode_utf8(value),
                None => r matches Err(message) && message@
                    == "Expected xml=... in helper output"@,
            },
        },
{
    match kind {
        ArchiveTextSourceKind::RawText => Ok(plan.source_path.clone()),
        ArchiveTextSourceKind::YmtXml => {
            proof {
                reveal_strlit("xml");
                reveal_strlit("=");
                reveal_strlit("xml=");
                reveal_strlit("Expected ");
                reveal_strlit("=... in helper output");
                reveal_strlit("Expected xml=... in helper output");
                assert("xml"@ + "="@ =~= "xml="@);
                assert("Expected "@ + "xml"@ + "=... in helper output"@
                    =~= "Expected xml=... in helper output"@);
            }
            parse_named_output_path(printed, "xml")
        },
    }
}

/// A text that was exported, with what it holds once the names of its hashes stand in it.
pub fn exported_text_draft(
    plan: TextPlan,
    job: &OpenEntryJob,
    kind: ArchiveTextSourceKind,
    source_path: PathBuf,
    text: String,
) -> (r: ImportedArchiveTextDraft)
    ensures
        r.entry_path == job.entry_path,
        r.title == plan.title,
        r.source_path == source_path,
        r.original_text == text,
        r.source_kind == kind,
{
    ImportedArchiveTextDraft {
        entry_path: job.entry_path.clone(),
        title: plan.title,
        source_path,
        original_text: text,
        source_kind: kind,
    }
}

}
