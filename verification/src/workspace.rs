//! Where imported files are worked on, and how they are built and saved.

use crate::archive::ArchiveTextSourceKind;
use crate::assets::{ArchiveEntryOpenOutcome, ImportedArchiveEntryDraft};
use crate::helper::{
    entry_export_call, entry_export_of, export_call, export_of, list_call, listing_of, HelperCall,
};
use crate::outputs::{complaint, sanitize_for_path, sanitized};
use crate::paths::{
    self, extended_bytes, file_name_text, file_stem_text, join_bytes, parent_bytes, renamed_bytes,
    shown_path, PathBytes,
};
use crate::setup::ToolPaths;
use crate::text::{
    self, begins, cut_last, decimal, decimals_are_distinct, drop_trailing, ends, last_segment,
    lower, occurs, occurs_at, texts, the_last_cut_comes_last, CharClass,
};
use crate::textures::{
    kind_of, size_text, textures_come_out, the_compression_keeps_the_format, AssetKind, NodeParts,
    PixelFormat, TextureEntryDraft, TextureFormat,
};
use std::path::{Path, PathBuf};
use vstd::prelude::*;
use vstd::utf8::encode_utf8;

verus! {

/// The name of a session: a safe name and the time.
pub open spec fn session_name(name: Seq<char>, millis: u64) -> Seq<char> {
    sanitized(name) + "_"@ + decimal(millis as nat)
}

fn session_id(name: &str, millis: u64) -> (r: String)
    ensures
        r@ == session_name(name@, millis),
{
    let mut id = sanitize_for_path(name);
    id.append("_");
    id.append(text::show(millis).as_str());
    id
}

/// The folders in which an exported asset is worked on.
pub struct Session {
    pub id: String,
    pub session_dir: PathBuf,
    pub template_dir: PathBuf,
    pub working_dir: PathBuf,
    pub preview_dir: PathBuf,
}

impl Session {
    /// Whether this is the session with the given name below the given folder.
    pub open spec fn lies_in(self, imports: Seq<u8>, id: Seq<char>) -> bool {
        &&& self.id@ == id
        &&& self.session_dir.bytes() == join_bytes(imports, id)
        &&& self.template_dir.bytes() == join_bytes(join_bytes(imports, id), "template"@)
        &&& self.working_dir.bytes() == join_bytes(join_bytes(imports, id), "current"@)
        &&& self.preview_dir.bytes() == join_bytes(join_bytes(imports, id), "previews"@)
    }
}

fn session(tools: &ToolPaths, id: String) -> (r: Session)
    ensures
        r.lies_in(tools.imports(), id@),
{
    let session_dir = paths::join(tools.imports_dir().as_path(), id.as_str());
    let template_dir = paths::join(session_dir.as_path(), "template");
    let working_dir = paths::join(session_dir.as_path(), "current");
    let preview_dir = paths::join(session_dir.as_path(), "previews");
    Session { id, session_dir, template_dir, working_dir, preview_dir }
}

/// How an asset is imported: the tree of an archive is listed, other assets are exported.
pub enum ImportPlan {
    List { id: String, call: HelperCall },
    Export { kind: AssetKind, session: Session, xml_path: PathBuf, call: HelperCall },
}

/// The text of an optional name, empty where there is none.
pub open spec fn or_empty(name: Option<Seq<char>>) -> Seq<char> {
    match name {
        Some(n) => n,
        None => Seq::empty(),
    }
}

/// Whether an asset is imported as it should be, at the given time.
pub open spec fn import_planned(
    r: Result<ImportPlan, String>,
    imports: Seq<u8>,
    asset: Seq<u8>,
    millis: u64,
) -> bool {
    let id = session_name(or_empty(file_stem_text(asset)), millis);
    match (kind_of(asset), file_name_text(asset)) {
        (None, _) => complaint(r) == Some(
            "Only .ydr, .yft, .ytd, and .rpf files are supported for import"@,
        ),
        (Some(AssetKind::Rpf), _) => r matches Ok(ImportPlan::List { id: given, call }) && given@
            == id && call@ == listing_of(asset),
        (Some(_), None) => complaint(r) == Some("Asset path does not contain a file name"@),
        (Some(k), Some(name)) => r matches Ok(
            ImportPlan::Export { kind, session, xml_path, call },
        ) && kind == k && session.lies_in(imports, id) && xml_path.bytes() == join_bytes(
            session.working_dir.bytes(),
            name + ".xml"@,
        ) && call@ == export_of(asset, session.template_dir.bytes()),
    }
}

/// How an asset is imported at the given time.
pub fn import_asset_plan(tools: &ToolPaths, asset_path: &Path, millis: u64) -> (r: Result<
    ImportPlan,
    String,
>)
    ensures
        import_planned(r, tools.imports(), asset_path.bytes(), millis),
{
    let kind = match AssetKind::from_path(asset_path) {
        Some(kind) => kind,
        None => {
            return Err("Only .ydr, .yft, .ytd, and .rpf files are supported for import".to_owned());
        },
    };
    let stem = match paths::file_stem(asset_path) {
        Some(stem) => stem,
        None => String::new(),
    };
    let id = session_id(stem.as_str(), millis);
    if kind == AssetKind::Rpf {
        return Ok(ImportPlan::List { id, call: list_call(asset_path) });
    }
    let mut xml_name = match paths::file_name(asset_path) {
        Some(name) => name,
        None => {
            return Err("Asset path does not contain a file name".to_owned());
        },
    };
    xml_name.append(".xml");
    let session = session(tools, id);
    let xml_path = paths::join(session.working_dir.as_path(), xml_name.as_str());
    let call = export_call(asset_path, session.template_dir.as_path());
    Ok(ImportPlan::Export { kind, session, xml_path, call })
}

/// How the textures of an entry are exported from an archive.
pub struct EntryPlan {
    pub title: String,
    pub session: Session,
    pub xml_path: PathBuf,
    pub call: HelperCall,
}

/// Whether the textures of an entry are exported as they should be, at the given time.
pub open spec fn entry_planned(
    r: EntryPlan,
    imports: Seq<u8>,
    archive: Seq<u8>,
    entry: Seq<char>,
    millis: u64,
) -> bool {
    let name = last_segment(entry, '\\');
    &&& r.title@ == name
    &&& r.session.lies_in(imports, session_name(name, millis))
    &&& r.xml_path.bytes() == join_bytes(r.session.working_dir.bytes(), name + ".xml"@)
    &&& r.call@ == entry_export_of(
        "cwassettool export-rpf-entry"@,
        "export-rpf-entry"@,
        archive,
        entry,
        r.session.template_dir.bytes(),
    )
}

/// How the textures of an entry are exported from an archive at the given time.
pub fn export_entry_plan(tools: &ToolPaths, archive: &Path, entry_path: &str, millis: u64) -> (r:
    EntryPlan)
    ensures
        entry_planned(r, tools.imports(), archive.bytes(), entry_path@, millis),
{
    let title = text::after_last(entry_path, '\\');
    let session = session(tools, session_id(title.as_str(), millis));
    let mut xml_name = title.clone();
    xml_name.append(".xml");
    let xml_path = paths::join(session.working_dir.as_path(), xml_name.as_str());
    let call = entry_export_call(
        "cwassettool export-rpf-entry",
        "export-rpf-entry",
        archive,
        entry_path,
        session.template_dir.as_path(),
    );
    EntryPlan { title, session, xml_path, call }
}

/// Whether opening an entry with textures came to what it should.
pub open spec fn opened_as(
    result: Result<ImportedArchiveEntryDraft, String>,
    r: Result<ArchiveEntryOpenOutcome, String>,
) -> bool {
    match result {
        Ok(draft) => r == Ok::<ArchiveEntryOpenOutcome, String>(
            ArchiveEntryOpenOutcome::TextureAsset(draft),
        ),
        Err(error) => if occurs(error@, "No DDS textures were found"@) {
            r matches Ok(ArchiveEntryOpenOutcome::Unsupported(message)) && message@
                == "Not supported."@
        } else {
            r == Err::<ArchiveEntryOpenOutcome, String>(error)
        },
    }
}

/// What opening an entry with textures comes to: an entry without textures is not supported.
pub fn texture_entry_outcome(result: Result<ImportedArchiveEntryDraft, String>) -> (r: Result<
    ArchiveEntryOpenOutcome,
    String,
>)
    ensures
        opened_as(result, r),
{
    match result {
        Ok(draft) => Ok(ArchiveEntryOpenOutcome::TextureAsset(draft)),
        Err(error) => if text::contains(error.as_str(), "No DDS textures were found") {
            Ok(ArchiveEntryOpenOutcome::Unsupported("Not supported.".to_owned()))
        } else {
            Err(error)
        },
    }
}

/// How a text is exported from an archive; `source_path` is where a raw text goes.
pub struct TextPlan {
    pub title: String,
    pub session_dir: PathBuf,
    pub source_path: PathBuf,
    pub call: HelperCall,
}

/// Whether a text is exported as it should be, at the given time.
pub open spec fn text_planned(
    r: TextPlan,
    imports: Seq<u8>,
    archive: Seq<u8>,
    entry: Seq<char>,
    kind: ArchiveTextSourceKind,
    millis: u64,
) -> bool {
    let name = last_segment(entry, '\\');
    &&& r.title@ == name
    &&& r.session_dir.bytes() == join_bytes(
        imports,
        session_name(drop_trailing(name, CharClass::DotOrSpace), millis),
    )
    &&& r.source_path.bytes() == join_bytes(r.session_dir.bytes(), name)
    &&& r.call@ == match kind {
        ArchiveTextSourceKind::RawText => entry_export_of(
            "cwassettool export-rpf-raw-entry"@,
            "export-rpf-raw-entry"@,
            archive,
            entry,
            r.source_path.bytes(),
        ),
        ArchiveTextSourceKind::YmtXml => entry_export_of(
            "cwassettool export-rpf-ymt-entry"@,
            "export-rpf-ymt-entry"@,
            archive,
            entry,
            r.session_dir.bytes(),
        ),
    }
}

/// How a text is exported from an archive at the given time: as it is, or converted.
pub fn export_text_plan(
    tools: &ToolPaths,
    archive: &Path,
    entry_path: &str,
    kind: ArchiveTextSourceKind,
    millis: u64,
) -> (r: TextPlan)
    ensures
        text_planned(r, tools.imports(), archive.bytes(), entry_path@, kind, millis),
{
    let title = text::after_last(entry_path, '\\');
    let name = text::trim_end_class(title.as_str(), CharClass::DotOrSpace);
    let id = session_id(name.as_str(), millis);
    let session_dir = paths::join(tools.imports_dir().as_path(), id.as_str());
    let source_path = paths::join(session_dir.as_path(), title.as_str());
    let call = match kind {
        ArchiveTextSourceKind::RawText => entry_export_call(
            "cwassettool export-rpf-raw-entry",
            "export-rpf-raw-entry",
            archive,
            entry_path,
            source_path.as_path(),
        ),
        ArchiveTextSourceKind::YmtXml => entry_export_call(
            "cwassettool export-rpf-ymt-entry",
            "export-rpf-ymt-entry",
            archive,
            entry_path,
            session_dir.as_path(),
        ),
    };
    TextPlan { title, session_dir, source_path, call }
}

/// Where a file for an archive is staged.
pub struct StagingPlan {
    pub session_dir: PathBuf,
    pub staged_path: PathBuf,
}

/// Where a file for an archive is staged at the given time.
pub fn stage_archive_source_file(tools: &ToolPaths, file_name: &str, millis: u64) -> (r:
    StagingPlan)
    ensures
        r.session_dir.bytes() == join_bytes(
            tools.imports(),
            "archive_stage_"@ + sanitized(file_name@) + "_"@ + decimal(millis as nat),
        ),
        r.staged_path.bytes() == join_bytes(r.session_dir.bytes(), file_name@),
{
    let mut name = "archive_stage_".to_owned();
    name.append(sanitize_for_path(file_name).as_str());
    name.append("_");
    name.append(text::show(millis).as_str());
    let session_dir = paths::join(tools.imports_dir().as_path(), name.as_str());
    let staged_path = paths::join(session_dir.as_path(), file_name);
    StagingPlan { session_dir, staged_path }
}

/// The file that tells the helper how an archive is rebuilt.
pub fn manifest_path(tools: &ToolPaths, millis: u64) -> (r: PathBuf)
    ensures
        r.bytes() == join_bytes(
            tools.imports(),
            "rpf_build_"@ + decimal(millis as nat) + ".json"@,
        ),
{
    let mut name = "rpf_build_".to_owned();
    name.append(text::show(millis).as_str());
    name.append(".json");
    paths::join(tools.imports_dir().as_path(), name.as_str())
}

/// The backup of a file: beside it, under its name with a further extension.
pub open spec fn backup_of(source: Seq<u8>) -> Option<Seq<u8>> {
    match file_name_text(source) {
        Some(name) => Some(renamed_bytes(source, name + ".bak"@)),
        None => None,
    }
}

/// The backup of a file.
pub fn backup_path_for(source_path: &Path) -> (r: Result<PathBuf, String>)
    ensures
        match (r, backup_of(source_path.bytes())) {
            (Ok(path), Some(backup)) => path.bytes() == backup,
            (Err(message), None) => message@ == "Asset path does not contain a file name"@,
            _ => false,
        },
{
    match paths::file_name(source_path) {
        Some(name) => {
            let mut backup = name;
            backup.append(".bak");
            Ok(paths::with_file_name(source_path, backup.as_str()))
        },
        None => Err("Asset path does not contain a file name".to_owned()),
    }
}

/// Where a file is built before it takes the place of the old one.
pub open spec fn temporary_path(source: Seq<u8>, millis: u64) -> Seq<u8> {
    let name = match file_name_text(source) {
        Some(n) => n,
        None => "save_"@ + decimal(millis as nat),
    };
    let folder = match parent_bytes(source) {
        Some(parent) => parent,
        None => encode_utf8("."@),
    };
    join_bytes(
        join_bytes(folder, ".gtav_texture_importer_tmp_"@ + decimal(millis as nat)),
        name,
    )
}

/// Where a file is built before it takes the place of the old one.
pub fn temporary_save_path(source_path: &Path, millis: u64) -> (r: PathBuf)
    ensures
        r.bytes() == temporary_path(source_path.bytes(), millis),
{
    let name = match paths::file_name(source_path) {
        Some(name) => name,
        None => {
            let mut name = "save_".to_owned();
            name.append(text::show(millis).as_str());
            name
        },
    };
    let mut temp_dir = ".gtav_texture_importer_tmp_".to_owned();
    temp_dir.append(text::show(millis).as_str());
    let folder = match paths::parent(source_path) {
        Some(parent) => parent,
        None => paths::path_from("."),
    };
    let directory = paths::join(folder.as_path(), temp_dir.as_str());
    paths::join(directory.as_path(), name.as_str())
}

/// The arguments behind the input picture with which ImageMagick writes a texture.
pub open spec fn dds_arguments(
    dds_path: Seq<u8>,
    format: PixelFormat,
    compression: Seq<char>,
    mips: u32,
    width: u32,
    height: u32,
) -> Seq<Seq<char>> {
    let flattening = seq!["-background"@, "white"@, "-alpha"@, "remove"@, "-alpha"@, "off"@];
    let writing = seq![
        "-colorspace"@,
        "sRGB"@,
        "-type"@,
        "TrueColor"@,
        "-resize"@,
        size_text(width, height) + "!"@,
        "-define"@,
        "dds:compression="@ + compression,
        "-define"@,
        "dds:mipmaps="@ + decimal(mips as nat),
        "DDS:"@ + shown_path(dds_path),
    ];
    if format.alpha() {
        writing
    } else {
        flattening + writing
    }
}

/// The arguments behind the input picture with which ImageMagick writes a texture.
pub fn convert_png_to_dds(
    dds_path: &Path,
    format: &TextureFormat,
    mip_levels: u32,
    target_width: u32,
    target_height: u32,
) -> (r: Result<Vec<String>, String>)
    ensures
        match (r, format@.compression()) {
            (Ok(args), Some(compression)) => texts(args@) == dds_arguments(
                dds_path.bytes(),
                format@,
                compression,
                mip_levels,
                target_width,
                target_height,
            ),
            (Err(message), None) => message@ == "Unsupported output format "@ + format@.label(),
            _ => false,
        },
{
    let compression = match format.magick_compression() {
        Some(name) => name,
        None => {
            let mut message = "Unsupported output format ".to_owned();
            message.append(format.label());
            return Err(message);
        },
    };
    let mut args: Vec<String> = Vec::new();
    if !format.supports_alpha() {
        args.push("-background".to_owned());
        args.push("white".to_owned());
        args.push("-alpha".to_owned());
        args.push("remove".to_owned());
        args.push("-alpha".to_owned());
        args.push("off".to_owned());
    }
    args.push("-colorspace".to_owned());
    args.push("sRGB".to_owned());
    args.push("-type".to_owned());
    args.push("TrueColor".to_owned());
    args.push("-resize".to_owned());
    let mut size = text::show(target_width as u64);
    size.append("x");
    size.append(text::show(target_height as u64).as_str());
    size.append("!");
    args.push(size);
    args.push("-define".to_owned());
    let mut define = "dds:compression=".to_owned();
    define.append(compression);
    args.push(define);
    args.push("-define".to_owned());
    let mut mipmaps = "dds:mipmaps=".to_owned();
    mipmaps.append(text::show(mip_levels as u64).as_str());
    args.push(mipmaps);
    let mut output = "DDS:".to_owned();
    output.append(paths::shown(dds_path).as_str());
    args.push(output);
    assert(texts(args@) =~= dds_arguments(
        dds_path.bytes(),
        format@,
        compression@,
        mip_levels,
        target_width,
        target_height,
    ));
    Ok(args)
}

/// The picture from which a texture is written.
pub fn temporary_png(dds_path: &Path) -> (r: PathBuf)
    ensures
        r.bytes() == extended_bytes(dds_path.bytes(), "tmp.png"@),
{
    proof {
        reveal_strlit("tmp.png");
    }
    paths::with_extension(dds_path, "tmp.png")
}

/// The output with which ImageMagick writes a preview.
pub fn preview_output(preview_png_path: &Path) -> (r: String)
    ensures
        r@ == "png32:"@ + shown_path(preview_png_path.bytes()),
{
    let mut out = "png32:".to_owned();
    out.append(paths::shown(preview_png_path).as_str());
    out
}

/// Sessions of one name that begin at different times are told apart by their names.
pub proof fn sessions_differ_by_their_time(name: Seq<char>, a: u64, b: u64)
    ensures
        session_name(name, a) == session_name(name, b) ==> a == b,
        begins(session_name(name, a), sanitized(name)),
{
    decimals_are_distinct(a as nat, b as nat);
    let front = sanitized(name) + "_"@;
    let first = session_name(name, a);
    let second = session_name(name, b);
    assert(first.skip(front.len() as int) =~= decimal(a as nat));
    assert(second.skip(front.len() as int) =~= decimal(b as nat));
    assert(first.subrange(0, sanitized(name).len() as int) =~= sanitized(name));
}

/// Every file of a kind that can be opened is imported: an archive is listed, another file is exported
/// into the template folder of its session, and its description is looked for in the working folder
/// under its own name. Other files are refused.
pub proof fn every_known_file_is_imported(
    r: Result<ImportPlan, String>,
    imports: Seq<u8>,
    asset: Seq<u8>,
    millis: u64,
)
    requires
        import_planned(r, imports, asset, millis),
    ensures
        kind_of(asset) is None ==> r is Err,
        kind_of(asset) == Some(AssetKind::Rpf) <==> (r matches Ok(plan) && plan is List),
        kind_of(asset) is Some && file_name_text(asset) is Some ==> r is Ok,
        r matches Ok(ImportPlan::List { id, call }) ==> call@.arguments.len() == 2
            && call@.arguments[1] == asset && begins(
            id@,
            sanitized(or_empty(file_stem_text(asset))),
        ),
        r matches Ok(ImportPlan::Export { kind, session, xml_path, call }) ==> {
            &&& kind_of(asset) == Some(kind)
            &&& call@.arguments.len() == 3 && call@.arguments[1] == asset && call@.arguments[2]
                == session.template_dir.bytes()
            &&& file_name_text(asset) matches Some(name) && xml_path.bytes() == join_bytes(
                session.working_dir.bytes(),
                name + ".xml"@,
            )
            &&& session.session_dir.bytes() == join_bytes(imports, session.id@)
            &&& begins(session.id@, sanitized(or_empty(file_stem_text(asset))))
        },
{
    sessions_differ_by_their_time(or_empty(file_stem_text(asset)), millis, millis);
}

/// An entry is exported out of its archive under its own path into the folder of its session; what it
/// is called is the last part of that path.
pub proof fn an_entry_is_exported_by_its_path(
    r: EntryPlan,
    imports: Seq<u8>,
    archive: Seq<u8>,
    folder: Seq<char>,
    name: Seq<char>,
    millis: u64,
)
    requires
        !name.contains('\\'),
        entry_planned(r, imports, archive, folder.push('\\') + name, millis),
    ensures
        r.title@ == name,
        r.call@.arguments == seq![
            encode_utf8("export-rpf-entry"@),
            archive,
            encode_utf8(folder.push('\\') + name),
            r.session.template_dir.bytes(),
        ],
        r.xml_path.bytes() == join_bytes(r.session.working_dir.bytes(), name + ".xml"@),
        r.session.session_dir.bytes() == join_bytes(imports, r.session.id@),
{
    lemma_last_segment(folder, name);
}

proof fn lemma_last_segment(folder: Seq<char>, name: Seq<char>)
    requires
        !name.contains('\\'),
    ensures
        last_segment(folder.push('\\') + name, '\\') == name,
{
    let whole = folder.push('\\') + name;
    assert(whole[folder.len() as int] == '\\');
    the_last_cut_comes_last(whole, '\\');
    if let Some((before, after)) = cut_last(whole, '\\') {
        if before.len() < folder.len() {
            assert(after[folder.len() - before.len() - 1] == '\\');
        } else if before.len() > folder.len() {
            assert(whole[before.len() as int] == '\\');
            assert(name[before.len() - folder.len() - 1] == '\\');
        }
        assert(after =~= whole.skip(before.len() as int + 1));
        assert(name =~= whole.skip(folder.len() as int + 1));
    }
}

/// A text is exported under its own path: a raw one to the file that was asked for, which has the
/// name of the entry, and one to be converted into the folder of its session.
pub proof fn a_text_is_exported_by_its_kind(
    r: TextPlan,
    imports: Seq<u8>,
    archive: Seq<u8>,
    folder: Seq<char>,
    name: Seq<char>,
    kind: ArchiveTextSourceKind,
    millis: u64,
)
    requires
        !name.contains('\\'),
        text_planned(r, imports, archive, folder.push('\\') + name, kind, millis),
    ensures
        r.title@ == name,
        r.source_path.bytes() == join_bytes(r.session_dir.bytes(), name),
        kind is RawText ==> r.call@.arguments == seq![
            encode_utf8("export-rpf-raw-entry"@),
            archive,
            encode_utf8(folder.push('\\') + name),
            r.source_path.bytes(),
        ],
        kind is YmtXml ==> r.call@.arguments == seq![
            encode_utf8("export-rpf-ymt-entry"@),
            archive,
            encode_utf8(folder.push('\\') + name),
            r.session_dir.bytes(),
        ],
{
    lemma_last_segment(folder, name);
}

/// A file without textures is recognised by what reading its description says of it, and is told as
/// not supported; any other failure is handed on, and so are textures.
pub proof fn a_file_without_textures_is_not_supported(
    parsed: Result<Seq<NodeParts>, Seq<char>>,
    read: Result<Vec<TextureEntryDraft>, String>,
    xml_path: Seq<u8>,
    working: Seq<u8>,
    previews: Seq<u8>,
    result: Result<ImportedArchiveEntryDraft, String>,
    r: Result<ArchiveEntryOpenOutcome, String>,
)
    requires
        textures_come_out(read, parsed, xml_path, working, previews, true),
        result matches Err(error) ==> (read matches Err(why) && why == error),
        opened_as(result, r),
    ensures
        result matches Ok(draft) ==> r == Ok::<ArchiveEntryOpenOutcome, String>(
            ArchiveEntryOpenOutcome::TextureAsset(draft),
        ),
        result is Err && parsed is Ok ==> (r matches Ok(ArchiveEntryOpenOutcome::Unsupported(_))),
        result matches Err(error) ==> parsed is Err ==> r == Err::<ArchiveEntryOpenOutcome, String>(
            error,
        ),
{
    reveal_strlit("No DDS textures were found");
    reveal_strlit("No DDS textures were found in ");
    reveal_strlit("Failed to parse exported XML");
    let phrase = "No DDS textures were found"@;
    if let Err(error) = result {
        if parsed is Ok {
            assert(error@.subrange(0, phrase.len() as int) =~= phrase);
            assert(occurs_at(error@, phrase, 0));
        } else {
            assert forall|i: int| !(#[trigger] occurs_at(error@, phrase, i)) by {
                if occurs_at(error@, phrase, i) {
                    let found = error@.subrange(i, i + phrase.len());
                    assert(found[0] == 'N');
                    assert(error@[i] == 'N');
                    assert(error@.len() == 28 && phrase.len() == 26);
                    assert(0 <= i <= 2);
                }
            }
        }
    }
}

/// Whether an argument stands directly behind another.
pub open spec fn follows(args: Seq<Seq<char>>, option: Seq<char>, value: Seq<char>) -> bool {
    exists|i: int| 0 <= i < args.len() - 1 && #[trigger] args[i] == option && args[i + 1] == value
}

/// A texture is written in its own format, with the mip levels and the size that it had, to its own
/// file; the picture is laid on white exactly where the format keeps no alpha channel.
pub proof fn a_texture_is_written_as_it_was(
    dds_path: Seq<u8>,
    format: PixelFormat,
    mips: u32,
    width: u32,
    height: u32,
)
    requires
        format.writable(),
    ensures
        ({
            let args = dds_arguments(
                dds_path,
                format,
                format.compression()->0,
                mips,
                width,
                height,
            );
            &&& format.label().skip(7).take(3) == "DXT"@ ==> follows(
                args,
                "-define"@,
                "dds:compression="@ + lower(format.label().skip(7)),
            )
            &&& format.label().skip(7).take(3) != "DXT"@ ==> follows(
                args,
                "-define"@,
                "dds:compression=none"@,
            )
            &&& follows(args, "-define"@, "dds:mipmaps="@ + decimal(mips as nat))
            &&& follows(
                args,
                "-resize"@,
                decimal(width as nat) + "x"@ + decimal(height as nat) + "!"@,
            )
            &&& args.last() == "DDS:"@ + shown_path(dds_path)
            &&& !format.alpha() ==> follows(args, "-background"@, "white"@) && follows(
                args,
                "-alpha"@,
                "remove"@,
            )
            &&& format.alpha() ==> !args.contains("-alpha"@) && !args.contains("-background"@)
        }),
{
    the_compression_keeps_the_format(format, format);
    let compression = format.compression()->0;
    let args = dds_arguments(dds_path, format, compression, mips, width, height);
    let n = args.len() as int;
    reveal_strlit("dds:compression=none");
    reveal_strlit("dds:compression=");
    reveal_strlit("none");
    assert("dds:compression="@ + "none"@ =~= "dds:compression=none"@);
    assert(args[n - 5] == "-define"@ && args[n - 4] == "dds:compression="@ + compression);
    assert(args[n - 3] == "-define"@ && args[n - 2] == "dds:mipmaps="@ + decimal(mips as nat));
    assert(args[n - 7] == "-resize"@ && args[n - 6] == size_text(width, height) + "!"@);
    if !format.alpha() {
        assert(args[0] == "-background"@ && args[1] == "white"@);
        assert(args[2] == "-alpha"@ && args[3] == "remove"@);
    } else {
        lemma_no_flattening(dds_path, compression, mips, width, height, args);
    }
}

proof fn lemma_no_flattening(
    dds_path: Seq<u8>,
    compression: Seq<char>,
    mips: u32,
    width: u32,
    height: u32,
    args: Seq<Seq<char>>,
)
    requires
        args == dds_arguments(dds_path, PixelFormat::Dxt5, compression, mips, width, height),
    ensures
        !args.contains("-alpha"@),
        !args.contains("-background"@),
{
    reveal_strlit("-alpha");
    reveal_strlit("-background");
    reveal_strlit("-colorspace");
    reveal_strlit("sRGB");
    reveal_strlit("-type");
    reveal_strlit("TrueColor");
    reveal_strlit("-resize");
    reveal_strlit("-define");
    reveal_strlit("dds:compression=");
    reveal_strlit("dds:mipmaps=");
    reveal_strlit("DDS:");
    decimals_are_distinct(width as nat, width as nat);
    crate::text::decimals_end_in_the_remainder(width as nat);
    assert forall|i: int| 0 <= i < args.len() implies #[trigger] args[i] != "-alpha"@ && args[i]
        != "-background"@ by {
        let first = args[i][0];
        assert("-alpha"@[1] == 'a' && "-background"@[1] == 'b');
        assert("-alpha"@[0] == '-' && "-background"@[0] == '-');
        if i == 0 {
            assert(args[i][1] == 'c');
        } else if i == 2 {
            assert(args[i][1] == 't');
        } else if i == 4 {
            assert(args[i][1] == 'r');
        } else if i == 6 || i == 8 {
            assert(args[i][1] == 'd');
        } else if i == 5 {
            assert(args[i][0] == decimal(width as nat)[0]);
        } else if i == 1 {
            assert(first == 's');
        } else if i == 3 {
            assert(first == 'T');
        } else if i == 7 || i == 9 {
            assert(first == 'd');
        } else {
            assert(first == 'D');
        }
    }
}

/// A file is built beside the one that it replaces, in a folder of its own for the time, under the
/// same name.
pub proof fn a_file_is_built_beside_the_old_one(source: Seq<u8>, a: u64)
    requires
        file_name_text(source) is Some,
        parent_bytes(source) is Some,
    ensures
        exists|folder: Seq<char>|
            {
                &&& temporary_path(source, a) == #[trigger] join_bytes(
                    join_bytes(parent_bytes(source)->0, folder),
                    file_name_text(source)->0,
                )
                &&& ends(folder, decimal(a as nat))
                &&& folder.len() > 0 && folder[0] == '.'
            },
{
    reveal_strlit(".gtav_texture_importer_tmp_");
    let folder = ".gtav_texture_importer_tmp_"@ + decimal(a as nat);
    assert(folder.subrange(folder.len() - decimal(a as nat).len(), folder.len() as int) =~= decimal(
        a as nat,
    ));
    assert(folder[0] == '.');
    assert(temporary_path(source, a) == join_bytes(
        join_bytes(parent_bytes(source)->0, folder),
        file_name_text(source)->0,
    ));
}

/// A backup is named like the file that it is a copy of, with one more ending, by which it is told from
/// an asset; every file with a name has one.
pub proof fn a_backup_is_told_by_its_ending(source: Seq<u8>)
    ensures
        backup_of(source) is Some <==> file_name_text(source) is Some,
        file_name_text(source) matches Some(own) ==> exists|name: Seq<char>|
            backup_of(source) == Some(#[trigger] renamed_bytes(source, name)) && begins(name, own)
                && ends(name, ".bak"@) && name.len() == own.len() + 4,
{
    reveal_strlit(".bak");
    if let Some(own) = file_name_text(source) {
        let name = own + ".bak"@;
        assert(backup_of(source) == Some(renamed_bytes(source, name)));
        assert(name.subrange(0, own.len() as int) =~= own);
        assert(name.subrange(name.len() - 4, name.len() as int) =~= ".bak"@);
    }
}

}
