//! Textures of an asset: their formats, and how they are found in an exported description.

use crate::nesting::{open_at_most, DEEPEST_NESTING};
use crate::outputs::{complaint, sanitize_for_path, sanitized};
use crate::paths::{
    self, extension_text, file_name_text, join_bytes, shown_path, PathBytes,
};
use crate::text::{self, decimal, ends, lower, opt_text, trimmed};
use std::path::{Path, PathBuf};
use vstd::prelude::*;

verus! {

/// The kinds of files that can be opened.
#[derive(Clone, Copy, PartialEq, Eq, Structural)]
pub enum AssetKind {
    Ydr,
    Yft,
    Ytd,
    Rpf,
}

/// The kind of a file with the given extension.
pub open spec fn kind_of_extension(extension: Option<Seq<char>>) -> Option<AssetKind> {
    match extension {
        None => None,
        Some(e) => if lower(e) == "ydr"@ {
            Some(AssetKind::Ydr)
        } else if lower(e) == "yft"@ {
            Some(AssetKind::Yft)
        } else if lower(e) == "ytd"@ {
            Some(AssetKind::Ytd)
        } else if lower(e) == "rpf"@ {
            Some(AssetKind::Rpf)
        } else {
            None
        },
    }
}

/// The kind of a file.
pub open spec fn kind_of(path: Seq<u8>) -> Option<AssetKind> {
    kind_of_extension(extension_text(path))
}

impl AssetKind {
    /// The kind of a file, by its extension.
    pub fn from_path(path: &Path) -> (r: Option<AssetKind>)
        ensures
            r == kind_of(path.bytes()),
    {
        match paths::extension(path) {
            None => None,
            Some(extension) => AssetKind::from_extension(extension.as_str()),
        }
    }

    /// The kind of a file with the given extension.
    pub fn from_extension(extension: &str) -> (r: Option<AssetKind>)
        ensures
            r == kind_of_extension(Some(extension@)),
    {
        let lowered = text::to_lower(extension);
        if text::same_text(lowered.as_str(), "ydr") {
            Some(AssetKind::Ydr)
        } else if text::same_text(lowered.as_str(), "yft") {
            Some(AssetKind::Yft)
        } else if text::same_text(lowered.as_str(), "ytd") {
            Some(AssetKind::Ytd)
        } else if text::same_text(lowered.as_str(), "rpf") {
            Some(AssetKind::Rpf)
        } else {
            None
        }
    }

    pub open spec fn label_text(self) -> Seq<char> {
        match self {
            AssetKind::Ydr => "YDR"@,
            AssetKind::Yft => "YFT"@,
            AssetKind::Ytd => "YTD"@,
            AssetKind::Rpf => "RPF"@,
        }
    }

    pub fn label(self) -> (r: &'static str)
        ensures
            r@ == self.label_text(),
    {
        match self {
            AssetKind::Ydr => "YDR",
            AssetKind::Yft => "YFT",
            AssetKind::Ytd => "YTD",
            AssetKind::Rpf => "RPF",
        }
    }
}

/// Whether a file of the mods folder is shown: a file that can be opened and is no backup.
pub open spec fn shown_as_asset(path: Seq<u8>) -> bool {
    kind_of(path) is Some && !(file_name_text(path) matches Some(name) && ends(name, ".bak"@))
}

/// Whether a file of the mods folder is shown.
pub fn is_supported_mod_asset_path(path: &Path) -> (r: bool)
    ensures
        r == shown_as_asset(path.bytes()),
{
    if let Some(name) = paths::file_name(path) {
        if text::ends_with(name.as_str(), ".bak") {
            return false;
        }
    }
    AssetKind::from_path(path).is_some()
}

/// The pixel format of a texture.
pub enum TextureFormat {
    Dxt1,
    Dxt5,
    A8R8G8B8,
    X8R8G8B8,
    Unknown(String),
}

/// What a pixel format holds.
pub enum PixelFormat {
    Dxt1,
    Dxt5,
    A8R8G8B8,
    X8R8G8B8,
    Unknown(Seq<char>),
}

impl View for TextureFormat {
    type V = PixelFormat;

    open spec fn view(&self) -> PixelFormat {
        match *self {
            TextureFormat::Dxt1 => PixelFormat::Dxt1,
            TextureFormat::Dxt5 => PixelFormat::Dxt5,
            TextureFormat::A8R8G8B8 => PixelFormat::A8R8G8B8,
            TextureFormat::X8R8G8B8 => PixelFormat::X8R8G8B8,
            TextureFormat::Unknown(label) => PixelFormat::Unknown(label@),
        }
    }
}

impl Clone for TextureFormat {
    fn clone(&self) -> (r: Self)
        ensures
            r == *self,
    {
        match self {
            TextureFormat::Dxt1 => TextureFormat::Dxt1,
            TextureFormat::Dxt5 => TextureFormat::Dxt5,
            TextureFormat::A8R8G8B8 => TextureFormat::A8R8G8B8,
            TextureFormat::X8R8G8B8 => TextureFormat::X8R8G8B8,
            TextureFormat::Unknown(label) => TextureFormat::Unknown(label.clone()),
        }
    }
}

/// The format that a label names.
pub open spec fn format_of(label: Seq<char>) -> PixelFormat {
    if label == "D3DFMT_DXT1"@ {
        PixelFormat::Dxt1
    } else if label == "D3DFMT_DXT5"@ {
        PixelFormat::Dxt5
    } else if label == "D3DFMT_A8R8G8B8"@ {
        PixelFormat::A8R8G8B8
    } else if label == "D3DFMT_X8R8G8B8"@ {
        PixelFormat::X8R8G8B8
    } else {
        PixelFormat::Unknown(label)
    }
}

impl PixelFormat {
    pub open spec fn label(self) -> Seq<char> {
        match self {
            PixelFormat::Dxt1 => "D3DFMT_DXT1"@,
            PixelFormat::Dxt5 => "D3DFMT_DXT5"@,
            PixelFormat::A8R8G8B8 => "D3DFMT_A8R8G8B8"@,
            PixelFormat::X8R8G8B8 => "D3DFMT_X8R8G8B8"@,
            PixelFormat::Unknown(label) => label,
        }
    }

    /// Whether the format has an alpha channel that is kept.
    pub open spec fn alpha(self) -> bool {
        self is Dxt5 || self is A8R8G8B8
    }

    /// How ImageMagick is told to compress the format.
    pub open spec fn compression(self) -> Option<Seq<char>> {
        match self {
            PixelFormat::Dxt1 => Some("dxt1"@),
            PixelFormat::Dxt5 => Some("dxt5"@),
            PixelFormat::A8R8G8B8 => Some("none"@),
            PixelFormat::X8R8G8B8 => Some("none"@),
            PixelFormat::Unknown(_) => None,
        }
    }

    /// Whether textures of the format can be written.
    pub open spec fn writable(self) -> bool {
        !(self is Unknown)
    }
}

impl TextureFormat {
    pub fn from_label(label: &str) -> (r: TextureFormat)
        ensures
            r@ == format_of(label@),
    {
        if text::same_text(label, "D3DFMT_DXT1") {
            TextureFormat::Dxt1
        } else if text::same_text(label, "D3DFMT_DXT5") {
            TextureFormat::Dxt5
        } else if text::same_text(label, "D3DFMT_A8R8G8B8") {
            TextureFormat::A8R8G8B8
        } else if text::same_text(label, "D3DFMT_X8R8G8B8") {
            TextureFormat::X8R8G8B8
        } else {
            TextureFormat::Unknown(label.to_owned())
        }
    }

    pub fn label(&self) -> (r: &str)
        ensures
            r@ == self@.label(),
    {
        match self {
            TextureFormat::Dxt1 => "D3DFMT_DXT1",
            TextureFormat::Dxt5 => "D3DFMT_DXT5",
            TextureFormat::A8R8G8B8 => "D3DFMT_A8R8G8B8",
            TextureFormat::X8R8G8B8 => "D3DFMT_X8R8G8B8",
            TextureFormat::Unknown(label) => label.as_str(),
        }
    }

    pub fn supports_alpha(&self) -> (r: bool)
        ensures
            r == self@.alpha(),
    {
        match self {
            TextureFormat::Dxt5 => true,
            TextureFormat::A8R8G8B8 => true,
            _ => false,
        }
    }

    pub fn magick_compression(&self) -> (r: Option<&'static str>)
        ensures
            match r {
                Some(name) => self@.compression() == Some(name@),
                None => self@.compression() is None,
            },
    {
        match self {
            TextureFormat::Dxt1 => Some("dxt1"),
            TextureFormat::Dxt5 => Some("dxt5"),
            TextureFormat::A8R8G8B8 => Some("none"),
            TextureFormat::X8R8G8B8 => Some("none"),
            TextureFormat::Unknown(_) => None,
        }
    }

    pub fn supported_for_write(&self) -> (r: bool)
        ensures
            r == self@.writable(),
    {
        self.magick_compression().is_some()
    }
}

/// The label of a format that was found by a label is that label.
pub proof fn labels_are_read_back(label: Seq<char>)
    ensures
        format_of(label).label() == label,
{
}

/// Each known format is found again by its label.
pub proof fn known_formats_are_found_again(format: PixelFormat)
    requires
        format.writable(),
    ensures
        format_of(format.label()) == format,
{
    reveal_strlit("D3DFMT_DXT1");
    reveal_strlit("D3DFMT_DXT5");
    reveal_strlit("D3DFMT_A8R8G8B8");
    reveal_strlit("D3DFMT_X8R8G8B8");
    assert("D3DFMT_DXT1"@[10] == '1' && "D3DFMT_DXT5"@[10] == '5');
    assert("D3DFMT_A8R8G8B8"@[7] == 'A' && "D3DFMT_X8R8G8B8"@[7] == 'X');
    assert("D3DFMT_DXT1"@.len() == 11 && "D3DFMT_A8R8G8B8"@.len() == 15);
    assert("D3DFMT_DXT5"@.len() == 11 && "D3DFMT_X8R8G8B8"@.len() == 15);
}

/// A format can be written exactly when there is a compression for it.
pub proof fn writable_formats_have_a_compression(format: PixelFormat)
    ensures
        format.writable() <==> format.compression() is Some,
{
}

/// A texture of an opened asset; `preview_texture` refers to the picture that is shown.
pub struct TextureEntry {
    pub name: String,
    pub file_name: String,
    pub width: u32,
    pub height: u32,
    pub mips: u32,
    pub format: TextureFormat,
    pub usage: String,
    pub dds_path: PathBuf,
    pub preview_png_path: PathBuf,
    pub preview_texture: Option<u64>,
    pub preview_loading: bool,
    pub modified: bool,
}

/// A texture as it was found.
pub struct TextureEntryDraft {
    pub name: String,
    pub file_name: String,
    pub width: u32,
    pub height: u32,
    pub mips: u32,
    pub format: TextureFormat,
    pub usage: String,
    pub dds_path: PathBuf,
    pub preview_png_path: PathBuf,
}

/// The texture of an opened asset that a draft becomes.
pub open spec fn entry_of(draft: TextureEntryDraft) -> TextureEntry {
    TextureEntry {
        name: draft.name,
        file_name: draft.file_name,
        width: draft.width,
        height: draft.height,
        mips: draft.mips,
        format: draft.format,
        usage: draft.usage,
        dds_path: draft.dds_path,
        preview_png_path: draft.preview_png_path,
        preview_texture: None,
        preview_loading: false,
        modified: false,
    }
}

/// The textures that drafts become.
pub open spec fn entries_of(drafts: Seq<TextureEntryDraft>) -> Seq<TextureEntry> {
    Seq::new(drafts.len(), |i: int| entry_of(drafts[i]))
}

/// The textures that drafts become: none is loaded, shown or modified yet.
pub fn texture_entries(drafts: Vec<TextureEntryDraft>) -> (r: Vec<TextureEntry>)
    ensures
        r@ == entries_of(drafts@),
{
    let mut out: Vec<TextureEntry> = Vec::new();
    for draft in it: drafts
        invariant
            it.seq() == drafts@,
            out@ == entries_of(drafts@).take(it.index() as int),
    {
        out.push(
            TextureEntry {
                name: draft.name,
                file_name: draft.file_name,
                width: draft.width,
                height: draft.height,
                mips: draft.mips,
                format: draft.format,
                usage: draft.usage,
                dds_path: draft.dds_path,
                preview_png_path: draft.preview_png_path,
                preview_texture: None,
                preview_loading: false,
                modified: false,
            },
        );
        assert(out@ =~= entries_of(drafts@).take(it.index() + 1));
    }
    assert(entries_of(drafts@).take(drafts@.len() as int) =~= entries_of(drafts@));
    out
}

/// A size in pixels as it is shown.
pub open spec fn size_text(width: u32, height: u32) -> Seq<char> {
    decimal(width as nat) + "x"@ + decimal(height as nat)
}

impl TextureEntry {
    pub fn width_height_label(&self) -> (r: String)
        ensures
            r@ == size_text(self.width, self.height),
    {
        let mut out = text::show(self.width as u64);
        out.append("x");
        out.append(text::show(self.height as u64).as_str());
        out
    }
}

/// An attribute of an element.
pub struct XmlAttribute {
    pub namespace: Option<String>,
    pub name: String,
    pub value: String,
}

/// A child of a node, with what it says itself.
pub struct XmlChild {
    pub element: bool,
    pub name: String,
    pub text: Option<String>,
    pub attributes: Vec<XmlAttribute>,
}

/// A node of a document, with its children.
pub struct XmlNode {
    pub element: bool,
    pub name: String,
    pub children: Vec<XmlChild>,
}

/// What an attribute holds.
pub struct AttributeParts {
    pub namespace: Option<Seq<char>>,
    pub name: Seq<char>,
    pub value: Seq<char>,
}

/// What a child holds.
pub struct ChildParts {
    pub element: bool,
    pub name: Seq<char>,
    pub text: Option<Seq<char>>,
    pub attributes: Seq<AttributeParts>,
}

/// What a node holds.
pub struct NodeParts {
    pub element: bool,
    pub name: Seq<char>,
    pub children: Seq<ChildParts>,
}

impl View for XmlAttribute {
    type V = AttributeParts;

    open spec fn view(&self) -> AttributeParts {
        AttributeParts {
            namespace: opt_text(self.namespace),
            name: self.name@,
            value: self.value@,
        }
    }
}

/// What the attributes of a list hold.
pub open spec fn attribute_parts(list: Seq<XmlAttribute>) -> Seq<AttributeParts> {
    Seq::new(list.len(), |i: int| list[i]@)
}

impl View for XmlChild {
    type V = ChildParts;

    open spec fn view(&self) -> ChildParts {
        ChildParts {
            element: self.element,
            name: self.name@,
            text: opt_text(self.text),
            attributes: attribute_parts(self.attributes@),
        }
    }
}

/// What the children of a list hold.
pub open spec fn child_parts(list: Seq<XmlChild>) -> Seq<ChildParts> {
    Seq::new(list.len(), |i: int| list[i]@)
}

impl View for XmlNode {
    type V = NodeParts;

    open spec fn view(&self) -> NodeParts {
        NodeParts {
            element: self.element,
            name: self.name@,
            children: child_parts(self.children@),
        }
    }
}

/// What the nodes of a list hold.
pub open spec fn node_parts(list: Seq<XmlNode>) -> Seq<NodeParts> {
    Seq::new(list.len(), |i: int| list[i]@)
}

/// What reading a document gave.
pub open spec fn document_parts(r: Result<Vec<XmlNode>, String>) -> Result<
    Seq<NodeParts>,
    Seq<char>,
> {
    match r {
        Ok(nodes) => Ok(node_parts(nodes@)),
        Err(message) => Err(message@),
    }
}

/// What `roxmltree::Document::parse` finds in a text: the nodes in document order, or a message.
pub uninterp spec fn parsed_xml(text: Seq<char>) -> Result<Seq<NodeParts>, Seq<char>>;

/// `roxmltree::Document::parse` reads a document. Its nodes come in document order, each with
/// its local name and its children; the text of a child is that of its first text node. What it
/// finds is a function of the text. It calls itself once for each element that is open, up to the
/// first mistake in the text, so the nesting has a limit.
#[verifier::external_body]
pub(crate) fn parse_xml(text: &str) -> (r: Result<Vec<XmlNode>, String>)
    requires
        open_at_most(text@, DEEPEST_NESTING as nat),
    ensures
        document_parts(r) == parsed_xml(text@),
{
    let document = roxmltree::Document::parse(text).map_err(|error| error.to_string())?;
    Ok(document.descendants().map(|node| XmlNode {
        element: node.is_element(),
        name: node.tag_name().name().to_owned(),
        children: node.children().map(|child| XmlChild {
            element: child.is_element(),
            name: child.tag_name().name().to_owned(),
            text: child.text().map(str::to_owned),
            attributes: child.attributes().map(|a| XmlAttribute {
                namespace: a.namespace().map(str::to_owned),
                name: a.name().to_owned(),
                value: a.value().to_owned(),
            }).collect(),
        }).collect(),
    }).collect())
}

/// The first child element with the given name.
pub open spec fn child_named(children: Seq<ChildParts>, tag: Seq<char>) -> Option<ChildParts>
    decreases children.len(),
{
    if children.len() == 0 {
        None
    } else if children[0].element && children[0].name == tag {
        Some(children[0])
    } else {
        child_named(children.skip(1), tag)
    }
}

/// The first attribute with the given name and no namespace.
pub open spec fn attribute_named(attributes: Seq<AttributeParts>, name: Seq<char>) -> Option<
    Seq<char>,
>
    decreases attributes.len(),
{
    if attributes.len() == 0 {
        None
    } else if attributes[0].namespace is None && attributes[0].name == name {
        Some(attributes[0].value)
    } else {
        attribute_named(attributes.skip(1), name)
    }
}

/// The text of a child, without the white space around it.
pub open spec fn child_text_of(node: NodeParts, tag: Seq<char>) -> Option<Seq<char>> {
    match child_named(node.children, tag) {
        Some(child) => match child.text {
            Some(text) => Some(trimmed(text)),
            None => None,
        },
        None => None,
    }
}

/// Whether each character is a decimal digit.
pub open spec fn all_digits(s: Seq<char>) -> bool {
    forall|i: int| 0 <= i < s.len() ==> '0' <= #[trigger] s[i] <= '9'
}

/// The value of a decimal number.
pub open spec fn digits_value(s: Seq<char>) -> nat
    decreases s.len(),
{
    if s.len() == 0 {
        0
    } else {
        digits_value(s.drop_last()) * 10 + (s.last() as u32 - 48) as nat
    }
}

/// The number that a text stands for: digits, with or without a plus sign before them, as far
/// as the value fits in 32 bits.
pub open spec fn number_of(s: Seq<char>) -> Option<u32> {
    let digits = if s.len() > 0 && s[0] == '+' {
        s.skip(1)
    } else {
        s
    };
    if digits.len() > 0 && all_digits(digits) && digits_value(digits) <= u32::MAX {
        Some(digits_value(digits) as u32)
    } else {
        None
    }
}

/// The number in the `value` attribute of a child.
pub open spec fn child_number_of(node: NodeParts, tag: Seq<char>) -> Option<u32> {
    match child_named(node.children, tag) {
        Some(child) => match attribute_named(child.attributes, "value"@) {
            Some(value) => number_of(value),
            None => None,
        },
        None => None,
    }
}

/// A file name without the extensions `.dds` at its end.
pub open spec fn without_dds(s: Seq<char>) -> Seq<char>
    decreases s.len(),
{
    if s.len() >= 4 && s.skip(s.len() - 4) == ".dds"@ {
        without_dds(s.take(s.len() - 4))
    } else {
        s
    }
}

/// What a draft holds.
pub struct DraftParts {
    pub name: Seq<char>,
    pub file_name: Seq<char>,
    pub width: u32,
    pub height: u32,
    pub mips: u32,
    pub format: PixelFormat,
    pub usage: Seq<char>,
    pub dds_path: Seq<u8>,
    pub preview_png_path: Seq<u8>,
}

impl View for TextureEntryDraft {
    type V = DraftParts;

    open spec fn view(&self) -> DraftParts {
        DraftParts {
            name: self.name@,
            file_name: self.file_name@,
            width: self.width,
            height: self.height,
            mips: self.mips,
            format: self.format@,
            usage: self.usage@,
            dds_path: self.dds_path.bytes(),
            preview_png_path: self.preview_png_path.bytes(),
        }
    }
}

/// What the drafts of a list hold.
pub open spec fn draft_parts(list: Seq<TextureEntryDraft>) -> Seq<DraftParts> {
    Seq::new(list.len(), |i: int| list[i]@)
}

/// The name of the preview of the texture in the item with the given number.
pub open spec fn preview_name(index: nat, file_name: Seq<char>) -> Seq<char> {
    decimal(index) + "_"@ + sanitized(without_dds(file_name)) + ".png"@
}

/// The texture that an item describes: one with a DDS file and all of its measures.
pub open spec fn draft_of(
    node: NodeParts,
    index: nat,
    working: Seq<u8>,
    previews: Seq<u8>,
) -> Option<DraftParts> {
    match (
        child_text_of(node, "FileName"@),
        child_text_of(node, "Name"@),
        child_number_of(node, "Width"@),
        child_number_of(node, "Height"@),
        child_number_of(node, "MipLevels"@),
        child_text_of(node, "Format"@),
    ) {
        (Some(file_name), Some(name), Some(width), Some(height), Some(mips), Some(format)) => if ends(
            lower(file_name),
            ".dds"@,
        ) {
            Some(
                DraftParts {
                    name,
                    file_name,
                    width,
                    height,
                    mips,
                    format: format_of(format),
                    usage: match child_text_of(node, "Usage"@) {
                        Some(usage) => usage,
                        None => "UNKNOWN"@,
                    },
                    dds_path: join_bytes(working, file_name),
                    preview_png_path: join_bytes(previews, preview_name(index, file_name)),
                },
            )
        } else {
            None
        },
        _ => None,
    }
}

/// Whether a node is an item of a list.
pub open spec fn is_item(node: NodeParts) -> bool {
    node.element && node.name == "Item"@
}

/// How many of the nodes are items.
pub open spec fn item_count(nodes: Seq<NodeParts>) -> nat
    decreases nodes.len(),
{
    if nodes.len() == 0 {
        0
    } else {
        item_count(nodes.drop_last()) + if is_item(nodes.last()) {
            1nat
        } else {
            0nat
        }
    }
}

/// The textures that the items among the nodes describe, in order; the items are numbered from
/// zero, those without a texture included.
pub open spec fn drafts_of(nodes: Seq<NodeParts>, working: Seq<u8>, previews: Seq<u8>) -> Seq<
    DraftParts,
>
    decreases nodes.len(),
{
    if nodes.len() == 0 {
        Seq::empty()
    } else {
        let front = nodes.drop_last();
        let before = drafts_of(front, working, previews);
        match draft_of(nodes.last(), item_count(front), working, previews) {
            Some(draft) if is_item(nodes.last()) => before.push(draft),
            _ => before,
        }
    }
}

fn find_child<'a>(node: &'a XmlNode, tag: &str) -> (r: Option<&'a XmlChild>)
    ensures
        match r {
            Some(child) => child_named(node@.children, tag@) == Some(child@),
            None => child_named(node@.children, tag@) is None,
        },
{
    let ghost all = node@.children;
    let mut i: usize = 0;
    assert(all.skip(0) =~= all);
    while i < node.children.len()
        invariant
            all == child_parts(node.children@),
            0 <= i <= node.children@.len(),
            child_named(all, tag@) == child_named(all.skip(i as int), tag@),
            all == node@.children,
        decreases node.children@.len() - i,
    {
        proof {
            assert(all.skip(i as int)[0] == node.children@[i as int]@);
            assert(all.skip(i as int).skip(1) =~= all.skip(i + 1));
        }
        let child = &node.children[i];
        if child.element && text::same_text(child.name.as_str(), tag) {
            return Some(child);
        }
        i += 1;
    }
    None
}

/// The text of a child, without the white space around it.
pub fn child_text(node: &XmlNode, tag_name: &str) -> (r: Option<String>)
    ensures
        opt_text(r) == child_text_of(node@, tag_name@),
{
    match find_child(node, tag_name) {
        Some(child) => match &child.text {
            Some(text) => Some(text::trim(text.as_str())),
            None => None,
        },
        None => None,
    }
}

proof fn lemma_digits_grow(s: Seq<char>, n: int)
    requires
        0 <= n <= s.len(),
    ensures
        digits_value(s.take(n)) <= digits_value(s),
    decreases s.len() - n,
{
    if n < s.len() {
        lemma_digits_grow(s, n + 1);
        assert(s.take(n + 1).drop_last() =~= s.take(n));
    } else {
        assert(s.take(n) =~= s);
    }
}

/// The number that a text stands for.
pub fn parse_number(s: &str) -> (r: Option<u32>)
    ensures
        r == number_of(s@),
{
    let v = text::chars_of(s);
    let mut start: usize = 0;
    if v.len() > 0 && v[0] == '+' {
        start = 1;
    }
    let ghost digits = v@.skip(start as int);
    assert(start == 0 ==> digits =~= v@);
    if start >= v.len() {
        return None;
    }
    let mut value: u64 = 0;
    let mut i: usize = start;
    while i < v.len()
        invariant
            v@ == s@,
            start <= 1,
            start == 1 <==> (v@.len() > 0 && v@[0] == '+'),
            start < v@.len(),
            digits == if v@.len() > 0 && v@[0] == '+' {
                v@.skip(1)
            } else {
                v@
            },
            digits == v@.skip(start as int),
            start <= i <= v@.len(),
            value <= u32::MAX,
            value == digits_value(digits.take(i - start)),
            forall|j: int| 0 <= j < i - start ==> '0' <= #[trigger] digits[j] <= '9',
        decreases v@.len() - i,
    {
        let c = v[i];
        proof {
            assert(digits[i - start] == c);
            assert(digits.take(i - start + 1).drop_last() =~= digits.take(i - start));
        }
        if c < '0' || c > '9' {
            return None;
        }
        value = value * 10 + (c as u32 - 48) as u64;
        if value > u32::MAX as u64 {
            proof {
                lemma_digits_grow(digits, i - start + 1);
            }
            return None;
        }
        i += 1;
    }
    assert(digits.take(digits.len() as int) =~= digits);
    Some(value as u32)
}

/// The number in the `value` attribute of a child.
pub fn child_value_u32(node: &XmlNode, tag_name: &str) -> (r: Option<u32>)
    ensures
        r == child_number_of(node@, tag_name@),
{
    match find_child(node, tag_name) {
        Some(child) => {
            let ghost all = child@.attributes;
            let mut i: usize = 0;
            assert(all.skip(0) =~= all);
            while i < child.attributes.len()
                invariant
                    all == attribute_parts(child.attributes@),
                    all == child@.attributes,
                    child_named(node@.children, tag_name@) == Some(child@),
                    0 <= i <= child.attributes@.len(),
                    attribute_named(all, "value"@) == attribute_named(
                        all.skip(i as int),
                        "value"@,
                    ),
                decreases child.attributes@.len() - i,
            {
                proof {
                    assert(all.skip(i as int)[0] == child.attributes@[i as int]@);
                    assert(all.skip(i as int).skip(1) =~= all.skip(i + 1));
                }
                let attribute = &child.attributes[i];
                if attribute.namespace.is_none() && text::same_text(
                    attribute.name.as_str(),
                    "value",
                ) {
                    return parse_number(attribute.value.as_str());
                }
                i += 1;
            }
            None
        },
        None => None,
    }
}

fn strip_dds(s: &str) -> (r: String)
    ensures
        r@ == without_dds(s@),
{
    let v = text::chars_of(s);
    let mark = text::chars_of(".dds");
    proof {
        reveal_strlit(".dds");
        assert(v@.take(v@.len() as int) =~= v@);
    }
    let mut to: usize = v.len();
    while to >= 4 && text::stands_at(&v, &mark, to - 4)
        invariant
            v@ == s@,
            mark@ == ".dds"@,
            mark@.len() == 4,
            0 <= to <= v@.len(),
            without_dds(v@) == without_dds(v@.take(to as int)),
        decreases to,
    {
        proof {
            let now = v@.take(to as int);
            assert(now.skip(to - 4) =~= v@.subrange(to - 4, to as int));
            assert(now.take(to - 4) =~= v@.take(to - 4));
        }
        to -= 4;
    }
    proof {
        let now = v@.take(to as int);
        if to >= 4 {
            assert(now.skip(to - 4) =~= v@.subrange(to - 4, to as int));
        }
        assert(without_dds(now) == now);
        assert(now =~= v@.subrange(0, to as int));
    }
    text::from_range(&v, 0, to)
}

fn texture_of(node: &XmlNode, index: u64, working_dir: &Path, preview_dir: &Path) -> (r: Option<
    TextureEntryDraft,
>)
    ensures
        match r {
            Some(draft) => draft_of(
                node@,
                index as nat,
                working_dir.bytes(),
                preview_dir.bytes(),
            ) == Some(draft@),
            None => draft_of(node@, index as nat, working_dir.bytes(), preview_dir.bytes()) is None,
        },
{
    let file_name = match child_text(node, "FileName") {
        Some(file_name) => file_name,
        None => {
            return None;
        },
    };
    if !text::ends_with(text::to_lower(file_name.as_str()).as_str(), ".dds") {
        return None;
    }
    let name = match child_text(node, "Name") {
        Some(name) => name,
        None => {
            return None;
        },
    };
    let width: u32 = match child_value_u32(node, "Width") {
        Some(width) => width,
        None => {
            return None;
        },
    };
    let height: u32 = match child_value_u32(node, "Height") {
        Some(height) => height,
        None => {
            return None;
        },
    };
    let mips: u32 = match child_value_u32(node, "MipLevels") {
        Some(mips) => mips,
        None => {
            return None;
        },
    };
    let format = match child_text(node, "Format") {
        Some(label) => TextureFormat::from_label(label.as_str()),
        None => {
            return None;
        },
    };
    let usage = text::value_or(&child_text(node, "Usage"), "UNKNOWN");
    let mut preview = text::show(index);
    preview.append("_");
    preview.append(sanitize_for_path(strip_dds(file_name.as_str()).as_str()).as_str());
    preview.append(".png");
    let dds_path = paths::join(working_dir, file_name.as_str());
    let preview_png_path = paths::join(preview_dir, preview.as_str());
    Some(
        TextureEntryDraft {
            name,
            file_name,
            width,
            height,
            mips,
            format,
            usage,
            dds_path,
            preview_png_path,
        },
    )
}

/// The textures that the nodes of an exported description name.
pub fn textures_in(nodes: &Vec<XmlNode>, working_dir: &Path, preview_dir: &Path) -> (r: Vec<
    TextureEntryDraft,
>)
    ensures
        draft_parts(r@) == drafts_of(
            node_parts(nodes@),
            working_dir.bytes(),
            preview_dir.bytes(),
        ),
{
    let mut out: Vec<TextureEntryDraft> = Vec::new();
    let mut items: u64 = 0;
    let ghost all = node_parts(nodes@);
    let mut i: usize = 0;
    while i < nodes.len()
        invariant
            all == node_parts(nodes@),
            0 <= i <= nodes@.len(),
            items <= i,
            items == item_count(all.take(i as int)),
            draft_parts(out@) == drafts_of(
                all.take(i as int),
                working_dir.bytes(),
                preview_dir.bytes(),
            ),
        decreases nodes@.len() - i,
    {
        let ghost before = draft_parts(out@);
        proof {
            assert(all.take(i + 1).drop_last() =~= all.take(i as int));
            assert(all.take(i + 1).last() == nodes@[i as int]@);
        }
        let node = &nodes[i];
        if node.element && text::same_text(node.name.as_str(), "Item") {
            if let Some(draft) = texture_of(node, items, working_dir, preview_dir) {
                out.push(draft);
                assert(draft_parts(out@) =~= before.push(draft@));
            }
            items += 1;
        }
        i += 1;
    }
    assert(all.take(all.len() as int) =~= all);
    out
}

/// Whether reading an exported description gives what it should: the textures of the parsed
/// nodes, or the message of why there are none.
pub open spec fn textures_come_out(
    r: Result<Vec<TextureEntryDraft>, String>,
    parsed: Result<Seq<NodeParts>, Seq<char>>,
    xml_path: Seq<u8>,
    working: Seq<u8>,
    previews: Seq<u8>,
    require_textures: bool,
) -> bool {
    match parsed {
        Err(_) => complaint(r) == Some("Failed to parse exported XML"@),
        Ok(nodes) => if require_textures && drafts_of(nodes, working, previews).len() == 0 {
            complaint(r) == Some("No DDS textures were found in "@ + shown_path(xml_path))
        } else {
            r matches Ok(drafts) && draft_parts(drafts@) == drafts_of(nodes, working, previews)
        },
    }
}

/// The textures of an exported description, given what parsing it gave.
pub fn textures_of_document(
    parsed: Result<Vec<XmlNode>, String>,
    xml_path: &Path,
    working_dir: &Path,
    preview_dir: &Path,
    require_textures: bool,
) -> (r: Result<Vec<TextureEntryDraft>, String>)
    ensures
        textures_come_out(
            r,
            document_parts(parsed),
            xml_path.bytes(),
            working_dir.bytes(),
            preview_dir.bytes(),
            require_textures,
        ),
{
    match parsed {
        Err(_) => Err("Failed to parse exported XML".to_owned()),
        Ok(nodes) => {
            let drafts = textures_in(&nodes, working_dir, preview_dir);
            if require_textures && drafts.len() == 0 {
                let mut message = "No DDS textures were found in ".to_owned();
                message.append(paths::shown(xml_path).as_str());
                Err(message)
            } else {
                Ok(drafts)
            }
        },
    }
}

/// The textures of an exported description with the given text.
pub fn parse_textures_from_xml(
    xml: &str,
    xml_path: &Path,
    working_dir: &Path,
    preview_dir: &Path,
    require_textures: bool,
) -> (r: Result<Vec<TextureEntryDraft>, String>)
    requires
        open_at_most(xml@, DEEPEST_NESTING as nat),
    ensures
        textures_come_out(
            r,
            parsed_xml(xml@),
            xml_path.bytes(),
            working_dir.bytes(),
            preview_dir.bytes(),
            require_textures,
        ),
{
    textures_of_document(parse_xml(xml), xml_path, working_dir, preview_dir, require_textures)
}

/// There are never more textures than items, and each texture has a DDS file.
pub proof fn textures_come_from_items(nodes: Seq<NodeParts>, working: Seq<u8>, previews: Seq<u8>)
    ensures
        drafts_of(nodes, working, previews).len() <= item_count(nodes),
        forall|i: int|
            0 <= i < drafts_of(nodes, working, previews).len() ==> ends(
                lower((#[trigger] drafts_of(nodes, working, previews)[i]).file_name),
                ".dds"@,
            ),
    decreases nodes.len(),
{
    if nodes.len() > 0 {
        textures_come_from_items(nodes.drop_last(), working, previews);
    }
}

/// An extension names a kind of file exactly when it is the label of the kind, in capitals or not.
pub proof fn kinds_are_named_by_their_labels(extension: Seq<char>, kind: AssetKind)
    ensures
        kind_of_extension(Some(extension)) == Some(kind) <==> lower(extension) == lower(
            kind.label_text(),
        ),
        kind_of_extension(None) is None,
{
    reveal_strlit("YDR");
    reveal_strlit("YFT");
    reveal_strlit("YTD");
    reveal_strlit("RPF");
    reveal_strlit("ydr");
    reveal_strlit("yft");
    reveal_strlit("ytd");
    reveal_strlit("rpf");
    assert(lower("YDR"@) =~= "ydr"@);
    assert(lower("YFT"@) =~= "yft"@);
    assert(lower("YTD"@) =~= "ytd"@);
    assert(lower("RPF"@) =~= "rpf"@);
    assert("ydr"@[1] == 'd' && "yft"@[1] == 'f' && "ytd"@[1] == 't' && "rpf"@[1] == 'p');
}

/// A backup is never shown, and every other file that can be opened is.
pub proof fn backups_are_not_shown(path: Seq<u8>)
    ensures
        file_name_text(path) matches Some(name) && ends(name, ".bak"@) ==> !shown_as_asset(path),
        kind_of(path) is None ==> !shown_as_asset(path),
        kind_of(path) is Some && !shown_as_asset(path) ==> (file_name_text(path) matches Some(name)
            && ends(name, ".bak"@)),
{
}

/// A format is compressed under its own name: a block format under the label without its prefix,
/// in lower case, and any other that can be written not at all. So no two block formats share a
/// compression, and one that keeps the alpha channel is never written as DXT1.
pub proof fn the_compression_keeps_the_format(format: PixelFormat, other: PixelFormat)
    requires
        format.writable(),
        other.writable(),
    ensures
        format.label().len() >= 7 && format.label().take(7) == "D3DFMT_"@,
        format.label().skip(7).take(3) == "DXT"@ ==> format.compression() == Some(
            lower(format.label().skip(7)),
        ),
        format.label().skip(7).take(3) != "DXT"@ ==> format.compression() == Some("none"@),
        format.compression() == other.compression() && format.compression() != Some("none"@)
            ==> format == other,
        format.alpha() ==> format.compression() != Some("dxt1"@),
{
    lemma_format_names();
}

/// The alpha channel is kept by the formats that have one: DXT5, and the one whose channels begin
/// with alpha.
pub proof fn alpha_follows_from_the_label(format: PixelFormat)
    ensures
        format.alpha() <==> format.writable() && (format.label()[7] == 'A' || format.label().skip(7)
            == "DXT5"@),
{
    lemma_format_names();
}

proof fn lemma_format_names()
    ensures
        "D3DFMT_DXT1"@.len() == 11 && "D3DFMT_DXT5"@.len() == 11,
        "D3DFMT_A8R8G8B8"@.len() == 15 && "D3DFMT_X8R8G8B8"@.len() == 15,
        "D3DFMT_DXT1"@.take(7) == "D3DFMT_"@ && "D3DFMT_DXT5"@.take(7) == "D3DFMT_"@,
        "D3DFMT_A8R8G8B8"@.take(7) == "D3DFMT_"@ && "D3DFMT_X8R8G8B8"@.take(7) == "D3DFMT_"@,
        "D3DFMT_DXT1"@.skip(7).take(3) == "DXT"@ && "D3DFMT_DXT5"@.skip(7).take(3) == "DXT"@,
        "D3DFMT_A8R8G8B8"@.skip(7).take(3) != "DXT"@,
        "D3DFMT_X8R8G8B8"@.skip(7).take(3) != "DXT"@,
        lower("D3DFMT_DXT1"@.skip(7)) == "dxt1"@,
        lower("D3DFMT_DXT5"@.skip(7)) == "dxt5"@,
        "dxt1"@ != "dxt5"@ && "dxt1"@ != "none"@ && "dxt5"@ != "none"@,
        "D3DFMT_DXT1"@.skip(7) != "DXT5"@ && "D3DFMT_DXT5"@.skip(7) == "DXT5"@,
        "D3DFMT_A8R8G8B8"@[7] == 'A' && "D3DFMT_X8R8G8B8"@[7] == 'X',
        "D3DFMT_DXT1"@[7] == 'D' && "D3DFMT_DXT5"@[7] == 'D',
        "D3DFMT_X8R8G8B8"@.skip(7) != "DXT5"@,
{
    reveal_strlit("D3DFMT_");
    reveal_strlit("D3DFMT_DXT1");
    reveal_strlit("D3DFMT_DXT5");
    reveal_strlit("D3DFMT_A8R8G8B8");
    reveal_strlit("D3DFMT_X8R8G8B8");
    reveal_strlit("DXT");
    reveal_strlit("DXT5");
    reveal_strlit("dxt1");
    reveal_strlit("dxt5");
    reveal_strlit("none");
    assert("D3DFMT_A8R8G8B8"@.skip(7).take(3)[0] == 'A' && "DXT"@[0] == 'D');
    assert("D3DFMT_X8R8G8B8"@.skip(7).take(3)[0] == 'X');
    assert("dxt1"@[3] == '1' && "dxt5"@[3] == '5' && "none"@[0] == 'n' && "dxt1"@[0] == 'd');
    assert("dxt5"@[0] == 'd');
    assert("D3DFMT_DXT1"@.skip(7)[3] == '1' && "DXT5"@[3] == '5');
    assert("D3DFMT_X8R8G8B8"@.skip(7).len() == 8 && "DXT5"@.len() == 4);
    assert(lower("D3DFMT_DXT1"@.skip(7)) =~= "dxt1"@);
    assert(lower("D3DFMT_DXT5"@.skip(7)) =~= "dxt5"@);
}

/// A texture of an opened asset is what was found of it, with no picture and no change yet.
pub proof fn drafts_become_unchanged_textures(drafts: Seq<TextureEntryDraft>, i: int)
    requires
        0 <= i < drafts.len(),
    ensures
        entries_of(drafts).len() == drafts.len(),
        ({
            let entry = entries_of(drafts)[i];
            &&& !entry.modified && !entry.preview_loading && entry.preview_texture is None
            &&& entry.name == drafts[i].name && entry.file_name == drafts[i].file_name
            &&& entry.width == drafts[i].width && entry.height == drafts[i].height
            &&& entry.mips == drafts[i].mips && entry.format == drafts[i].format
            &&& entry.usage == drafts[i].usage && entry.dds_path == drafts[i].dds_path
            &&& entry.preview_png_path == drafts[i].preview_png_path
        }),
{
}

proof fn lemma_digits_of(n: nat)
    ensures
        all_digits(decimal(n)),
        digits_value(decimal(n)) == n,
        decimal(n).len() > 0,
    decreases n,
{
    let s = decimal(n);
    if n >= 10 {
        lemma_digits_of(n / 10);
        assert(s.drop_last() =~= decimal(n / 10));
        assert forall|i: int| 0 <= i < s.len() implies '0' <= #[trigger] s[i] <= '9' by {
            if i < s.len() - 1 {
                assert(s[i] == decimal(n / 10)[i]);
            }
        }
    } else {
        assert(s.drop_last() =~= Seq::<char>::empty());
        assert(digits_value(s.drop_last()) == 0);
    }
    assert(s.last() as u32 == 48 + n % 10);
}

/// A number in decimal notation is read back as that number, with or without a plus sign, as far as
/// it fits in 32 bits; a text with any other character is no number.
pub proof fn decimals_are_read_back(n: nat, s: Seq<char>, i: int)
    ensures
        number_of(decimal(n)) == if n <= u32::MAX {
            Some(n as u32)
        } else {
            None
        },
        number_of(seq!['+'] + decimal(n)) == number_of(decimal(n)),
        number_of(Seq::empty()) is None,
        0 <= i < s.len() && !('0' <= s[i] <= '9') && (i > 0 || s[i] != '+') ==> number_of(
            s,
        ) is None,
{
    lemma_digits_of(n);
    let d = decimal(n);
    assert('0' <= d[0] <= '9');
    assert((seq!['+'] + d).skip(1) =~= d);
    if 0 <= i < s.len() && !('0' <= s[i] <= '9') && (i > 0 || s[i] != '+') {
        if s[0] == '+' {
            assert(s.skip(1)[i - 1] == s[i]);
        }
    }
}

/// Whether the first child element of a node with the given name is that at position `i`.
pub open spec fn first_with(node: NodeParts, tag: Seq<char>, i: int) -> bool {
    &&& 0 <= i < node.children.len()
    &&& node.children[i].element && node.children[i].name == tag
    &&& forall|j: int|
        0 <= j < i ==> !((#[trigger] node.children[j]).element && node.children[j].name == tag)
}

/// Whether a node says the given text under a name.
pub open spec fn says(node: NodeParts, tag: Seq<char>, text: Seq<char>) -> bool {
    exists|i: int| #[trigger]
        first_with(node, tag, i) && (node.children[i].text matches Some(raw) && trimmed(raw)
            == text)
}

/// Whether a node gives the given number under a name.
pub open spec fn measures(node: NodeParts, tag: Seq<char>, n: u32) -> bool {
    exists|i: int, k: int|
        {
            &&& #[trigger] first_with(node, tag, i)
            &&& #[trigger] names_value(node.children[i].attributes, k)
            &&& number_of(node.children[i].attributes[k].value) == Some(n)
        }
}

/// Whether the first attribute `value` without a namespace is that at position `k`.
pub open spec fn names_value(attributes: Seq<AttributeParts>, k: int) -> bool {
    &&& 0 <= k < attributes.len()
    &&& attributes[k].namespace is None && attributes[k].name == "value"@
    &&& forall|j: int|
        0 <= j < k ==> !((#[trigger] attributes[j]).namespace is None && attributes[j].name
            == "value"@)
}

proof fn lemma_child_named(children: Seq<ChildParts>, tag: Seq<char>) -> (i: int)
    ensures
        match child_named(children, tag) {
            Some(child) => 0 <= i < children.len() && children[i] == child && child.element
                && child.name == tag && forall|j: int|
                0 <= j < i ==> !((#[trigger] children[j]).element && children[j].name == tag),
            None => forall|j: int|
                0 <= j < children.len() ==> !((#[trigger] children[j]).element && children[j].name
                    == tag),
        },
    decreases children.len(),
{
    if children.len() == 0 {
        0
    } else if children[0].element && children[0].name == tag {
        0
    } else {
        let rest = children.skip(1);
        let i = lemma_child_named(rest, tag);
        assert forall|j: int| 1 <= j < children.len() implies #[trigger] children[j] == rest[j
            - 1] by {}
        i + 1
    }
}

proof fn lemma_attribute_named(attributes: Seq<AttributeParts>, name: Seq<char>) -> (i: int)
    ensures
        match attribute_named(attributes, name) {
            Some(value) => 0 <= i < attributes.len() && attributes[i].value == value
                && attributes[i].namespace is None && attributes[i].name == name && forall|j: int|
                0 <= j < i ==> !((#[trigger] attributes[j]).namespace is None && attributes[j].name
                    == name),
            None => forall|j: int|
                0 <= j < attributes.len() ==> !((#[trigger] attributes[j]).namespace is None
                    && attributes[j].name == name),
        },
    decreases attributes.len(),
{
    if attributes.len() == 0 {
        0
    } else if attributes[0].namespace is None && attributes[0].name == name {
        0
    } else {
        let rest = attributes.skip(1);
        let i = lemma_attribute_named(rest, name);
        assert forall|j: int| 1 <= j < attributes.len() implies #[trigger] attributes[j] == rest[j
            - 1] by {}
        i + 1
    }
}

proof fn lemma_says(node: NodeParts, tag: Seq<char>, text: Seq<char>)
    ensures
        says(node, tag, text) <==> child_text_of(node, tag) == Some(text),
{
    let i = lemma_child_named(node.children, tag);
    if child_named(node.children, tag) is Some {
        assert(first_with(node, tag, i));
        assert forall|k: int| #[trigger] first_with(node, tag, k) implies k == i by {
            if k < i {
                assert(node.children[k].element);
            } else if i < k {
                assert(node.children[i].element);
            }
        }
    } else {
        assert forall|k: int| !(#[trigger] first_with(node, tag, k)) by {
            if first_with(node, tag, k) {
                assert(node.children[k].element);
            }
        }
    }
}

proof fn lemma_measures(node: NodeParts, tag: Seq<char>, n: u32)
    ensures
        measures(node, tag, n) <==> child_number_of(node, tag) == Some(n),
{
    let i = lemma_child_named(node.children, tag);
    if child_named(node.children, tag) is Some {
        assert(first_with(node, tag, i));
        assert forall|k: int| #[trigger] first_with(node, tag, k) implies k == i by {
            if k < i {
                assert(node.children[k].element);
            } else if i < k {
                assert(node.children[i].element);
            }
        }
        let list = node.children[i].attributes;
        let k = lemma_attribute_named(list, "value"@);
        if attribute_named(list, "value"@) is Some {
            assert(names_value(list, k));
            assert forall|m: int| #[trigger] names_value(list, m) implies m == k by {
                if m < k {
                    assert(list[m].namespace is None);
                } else if k < m {
                    assert(list[k].namespace is None);
                }
            }
        } else {
            assert forall|m: int| !(#[trigger] names_value(list, m)) by {
                if names_value(list, m) {
                    assert(list[m].namespace is None);
                }
            }
        }
    } else {
        assert forall|k: int| !(#[trigger] first_with(node, tag, k)) by {
            if first_with(node, tag, k) {
                assert(node.children[k].element);
            }
        }
    }
}

/// An item describes a texture exactly when it names a DDS file, a name, a width, a height, a number
/// of mip levels and a format. The texture is what the item says of it; its file lies in the working
/// folder.
pub proof fn a_texture_is_what_its_item_says(
    node: NodeParts,
    index: nat,
    working: Seq<u8>,
    previews: Seq<u8>,
    file_name: Seq<char>,
    name: Seq<char>,
    width: u32,
    height: u32,
    mips: u32,
    format: Seq<char>,
)
    ensures
        says(node, "FileName"@, file_name) && ends(lower(file_name), ".dds"@) && says(
            node,
            "Name"@,
            name,
        ) && measures(node, "Width"@, width) && measures(node, "Height"@, height) && measures(
            node,
            "MipLevels"@,
            mips,
        ) && says(node, "Format"@, format) ==> draft_of(node, index, working, previews) is Some,
        draft_of(node, index, working, previews) matches Some(draft) ==> {
            &&& says(node, "FileName"@, draft.file_name)
            &&& ends(lower(draft.file_name), ".dds"@)
            &&& says(node, "Name"@, draft.name)
            &&& measures(node, "Width"@, draft.width)
            &&& measures(node, "Height"@, draft.height)
            &&& measures(node, "MipLevels"@, draft.mips)
            &&& says(node, "Format"@, draft.format.label())
            &&& forall|known: PixelFormat| #[trigger]
                known.writable() && known.label() == draft.format.label() ==> draft.format == known
            &&& says(node, "Usage"@, draft.usage) || draft.usage == "UNKNOWN"@
            &&& forall|usage: Seq<char>| #[trigger]
                says(node, "Usage"@, usage) ==> draft.usage == usage
            &&& draft.dds_path == join_bytes(working, draft.file_name)
            &&& draft.preview_png_path == join_bytes(previews, preview_name(index, draft.file_name))
        },
{
    lemma_says(node, "FileName"@, file_name);
    lemma_says(node, "Name"@, name);
    lemma_says(node, "Format"@, format);
    lemma_measures(node, "Width"@, width);
    lemma_measures(node, "Height"@, height);
    lemma_measures(node, "MipLevels"@, mips);
    if let Some(draft) = draft_of(node, index, working, previews) {
        lemma_says(node, "FileName"@, draft.file_name);
        lemma_says(node, "Name"@, draft.name);
        lemma_says(node, "Format"@, draft.format.label());
        lemma_says(node, "Usage"@, draft.usage);
        lemma_measures(node, "Width"@, draft.width);
        lemma_measures(node, "Height"@, draft.height);
        lemma_measures(node, "MipLevels"@, draft.mips);
        labels_are_read_back(child_text_of(node, "Format"@)->0);
        assert forall|known: PixelFormat| #[trigger]
            known.writable() && known.label() == draft.format.label() implies draft.format
            == known by {
            known_formats_are_found_again(known);
        }
        assert forall|usage: Seq<char>| #[trigger] says(node, "Usage"@, usage) implies draft.usage
            == usage by {
            lemma_says(node, "Usage"@, usage);
        }
    }
}

/// The number of the item at a position: how many items stand before it.
pub open spec fn items_before(nodes: Seq<NodeParts>, i: int) -> nat {
    nodes.take(i).filter(|node: NodeParts| node.element && node.name == "Item"@).len()
}

/// The texture that the node at a position describes, where it is an item that describes one.
pub open spec fn described(
    nodes: Seq<NodeParts>,
    i: int,
    working: Seq<u8>,
    previews: Seq<u8>,
) -> Option<DraftParts> {
    if nodes[i].element && nodes[i].name == "Item"@ {
        draft_of(nodes[i], items_before(nodes, i), working, previews)
    } else {
        None
    }
}

/// The positions below `n`.
pub open spec fn places(n: int) -> Seq<int> {
    Seq::new(n as nat, |i: int| i)
}

proof fn lemma_item_count(nodes: Seq<NodeParts>)
    ensures
        item_count(nodes) == nodes.filter(
            |node: NodeParts| node.element && node.name == "Item"@,
        ).len(),
    decreases nodes.len(),
{
    reveal(Seq::filter);
    if nodes.len() > 0 {
        lemma_item_count(nodes.drop_last());
    }
}

proof fn lemma_described(
    nodes: Seq<NodeParts>,
    n: int,
    working: Seq<u8>,
    previews: Seq<u8>,
)
    requires
        0 <= n <= nodes.len(),
    ensures
        drafts_of(nodes.take(n), working, previews) == places(n).filter_map(
            |i: int| described(nodes, i, working, previews),
        ),
    decreases n,
{
    reveal(Seq::filter_map);
    if n > 0 {
        lemma_described(nodes, n - 1, working, previews);
        let front = nodes.take(n).drop_last();
        assert(front =~= nodes.take(n - 1));
        assert(nodes.take(n).last() == nodes[n - 1]);
        assert(places(n).drop_last() =~= places(n - 1));
        assert(places(n).last() == n - 1);
        lemma_item_count(front);
    }
}

/// The textures of a document are those that its items describe, one for each such item and in the
/// order of the items; none is left out and none is added.
pub proof fn every_described_texture_is_listed(
    nodes: Seq<NodeParts>,
    working: Seq<u8>,
    previews: Seq<u8>,
)
    ensures
        drafts_of(nodes, working, previews) == places(nodes.len() as int).filter_map(
            |i: int| described(nodes, i, working, previews),
        ),
        forall|i: int|
            0 <= i < nodes.len() && (#[trigger] described(nodes, i, working, previews)) is Some
                ==> drafts_of(nodes, working, previews).contains(
                described(nodes, i, working, previews)->0,
            ),
        drafts_of(nodes, working, previews).len() == places(nodes.len() as int).filter(
            |i: int| described(nodes, i, working, previews) is Some,
        ).len(),
{
    let n = nodes.len() as int;
    lemma_described(nodes, n, working, previews);
    assert(nodes.take(n) =~= nodes);
    lemma_listed(nodes, n, working, previews);
}

proof fn lemma_listed(nodes: Seq<NodeParts>, n: int, working: Seq<u8>, previews: Seq<u8>)
    requires
        0 <= n <= nodes.len(),
    ensures
        ({
            let all = places(n).filter_map(|i: int| described(nodes, i, working, previews));
            &&& all.len() == places(n).filter(
                |i: int| described(nodes, i, working, previews) is Some,
            ).len()
            &&& forall|i: int|
                0 <= i < n && (#[trigger] described(nodes, i, working, previews)) is Some
                    ==> all.contains(described(nodes, i, working, previews)->0)
        }),
    decreases n,
{
    reveal(Seq::filter_map);
    reveal(Seq::filter);
    if n > 0 {
        lemma_listed(nodes, n - 1, working, previews);
        assert(places(n).drop_last() =~= places(n - 1));
        let before = places(n - 1).filter_map(|i: int| described(nodes, i, working, previews));
        let all = places(n).filter_map(|i: int| described(nodes, i, working, previews));
        if let Some(draft) = described(nodes, n - 1, working, previews) {
            assert(all == before + seq![draft]);
            assert(all.last() == draft);
        }
        assert forall|i: int|
            0 <= i < n && (#[trigger] described(nodes, i, working, previews)) is Some implies all.contains(
            described(nodes, i, working, previews)->0,
        ) by {
            if i < n - 1 {
                let k = before.index_of(described(nodes, i, working, previews)->0);
                assert(all[k] == before[k]);
            }
        }
    }
}

/// The name without its extensions is what stands before them: it does not end in `.dds`, and what
/// was taken off is `.dds` again and again.
pub proof fn only_dds_is_taken_off(s: Seq<char>)
    ensures
        !ends(without_dds(s), ".dds"@),
        without_dds(s + ".dds"@) == without_dds(s),
        !ends(s, ".dds"@) ==> without_dds(s) == s,
    decreases s.len(),
{
    reveal_strlit(".dds");
    let longer = s + ".dds"@;
    assert(longer.skip(longer.len() - 4) =~= ".dds"@);
    assert(longer.take(longer.len() - 4) =~= s);
    if s.len() >= 4 {
        assert(s.skip(s.len() - 4) =~= s.subrange(s.len() - 4, s.len() as int));
        if s.skip(s.len() - 4) == ".dds"@ {
            only_dds_is_taken_off(s.take(s.len() - 4));
        }
    }
}

/// The previews of two textures never share a name, whatever their files are called.
pub proof fn previews_do_not_collide(a: nat, first: Seq<char>, b: nat, second: Seq<char>)
    ensures
        preview_name(a, first) == preview_name(b, second) ==> a == b,
        ends(preview_name(a, first), ".png"@),
{
    reveal_strlit("_");
    let one = preview_name(a, first);
    let other = preview_name(b, second);
    lemma_digits_of(a);
    lemma_digits_of(b);
    let m = decimal(a).len() as int;
    let n = decimal(b).len() as int;
    assert(one[m] == '_' && other[n] == '_');
    assert(one.take(m) =~= decimal(a));
    assert(other.take(n) =~= decimal(b));
    if one == other {
        if m < n {
            assert(other[m] == decimal(b)[m]);
        }
        if n < m {
            assert(one[n] == decimal(a)[n]);
        }
        assert(decimal(a) == decimal(b));
    }
    assert(one.subrange(one.len() - ".png"@.len(), one.len() as int) =~= ".png"@);
}

/// A document that was parsed gives all its textures. Having none is an error only where some are wanted,
/// and is told by the file then; a document that was not parsed is always one.
pub proof fn textures_are_missed_only_where_wanted(
    r: Result<Vec<TextureEntryDraft>, String>,
    parsed: Result<Seq<NodeParts>, Seq<char>>,
    xml_path: Seq<u8>,
    working: Seq<u8>,
    previews: Seq<u8>,
    require_textures: bool,
)
    requires
        textures_come_out(r, parsed, xml_path, working, previews, require_textures),
    ensures
        parsed is Err ==> r is Err,
        parsed is Ok && !require_textures ==> r is Ok,
        parsed matches Ok(nodes) ==> (r is Err <==> require_textures && drafts_of(
            nodes,
            working,
            previews,
        ).len() == 0),
        parsed matches Ok(nodes) ==> (r matches Ok(drafts) ==> drafts@.len() == drafts_of(
            nodes,
            working,
            previews,
        ).len()),
        parsed is Ok ==> (r matches Err(why) ==> ends(why@, shown_path(xml_path))),
{
    if parsed is Ok {
        if let Ok(drafts) = r {
            assert(draft_parts(drafts@).len() == drafts@.len());
        }
        if let Err(why) = r {
            let file = shown_path(xml_path);
            assert(why@.subrange(why@.len() - file.len(), why@.len() as int) =~= file);
        }
    }
}

}
