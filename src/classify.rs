//! What a file of a directory is to the pipeline.
use vstd::prelude::*;
use crate::config::JxlArgs;
use crate::text::{lower_of, lowercase};

verus! {

/// A source format that the encoder converts.
#[derive(PartialEq, Eq, Structural, Clone, Copy, Debug)]
pub enum ImageKind {
    Png,
    Jpeg,
}

/// What a file's extension says of it.
#[derive(PartialEq, Eq, Structural, Clone, Copy, Debug)]
pub enum ExtensionClass {
    /// `jpg`, `jpeg` or `png`: a raster image whose header decides its format.
    Raster,
    /// `jxl`: already in the target format.
    Target,
    /// Anything else: not an image.
    Other,
}

/// What the pipeline does with a file.
#[derive(PartialEq, Eq, Structural, Clone, Copy, Debug)]
pub enum FileKind {
    /// Convert it with the encoder flags of this format.
    Convertible(ImageKind),
    /// Keep it as it is and pack it with the outputs.
    AlreadyTarget,
    /// Leave it alone: not an image, or an image the encoder is not given.
    Unsupported,
}

pub open spec fn ext_jpg() -> Seq<char> {
    seq!['j', 'p', 'g']
}

pub open spec fn ext_jpeg() -> Seq<char> {
    seq!['j', 'p', 'e', 'g']
}

pub open spec fn ext_png() -> Seq<char> {
    seq!['p', 'n', 'g']
}

pub open spec fn ext_jxl() -> Seq<char> {
    seq!['j', 'x', 'l']
}

pub open spec fn ext_zip() -> Seq<char> {
    seq!['z', 'i', 'p']
}

/// The class of an extension that is already in lower case.
pub open spec fn class_of_lowered(e: Seq<char>) -> ExtensionClass {
    if e == ext_jpg() || e == ext_png() || e == ext_jpeg() {
        ExtensionClass::Raster
    } else if e == ext_jxl() {
        ExtensionClass::Target
    } else {
        ExtensionClass::Other
    }
}

/// The class of an extension that is already in lower case.
pub fn extension_class_lowered(lowered: &String) -> (r: ExtensionClass)
    ensures
        r == class_of_lowered(lowered@),
{
    proof {
        reveal_strlit("jpg");
        reveal_strlit("png");
        reveal_strlit("jpeg");
        reveal_strlit("jxl");
        assert("jpg"@ =~= ext_jpg());
        assert("png"@ =~= ext_png());
        assert("jpeg"@ =~= ext_jpeg());
        assert("jxl"@ =~= ext_jxl());
    }
    if *lowered == String::from_str("jpg") || *lowered == String::from_str("png")
        || *lowered == String::from_str("jpeg") {
        ExtensionClass::Raster
    } else if *lowered == String::from_str("jxl") {
        ExtensionClass::Target
    } else {
        ExtensionClass::Other
    }
}

/// The class of a file's extension (empty when the file has none), compared
/// without regard to case.
pub fn extension_class(ext: &str) -> (r: ExtensionClass)
    ensures
        r == class_of_lowered(lower_of(ext@)),
{
    let lowered = lowercase(ext);
    extension_class_lowered(&lowered)
}

/// Whether a file with this extension is an archive of the pipeline, which is
/// never treated as an input.
pub fn is_archive_extension(ext: &str) -> (r: bool)
    ensures
        r == (ext@ == ext_zip()),
{
    proof {
        reveal_strlit("zip");
        assert("zip"@ =~= ext_zip());
    }
    String::from_str(ext) == String::from_str("zip")
}

/// What the pipeline does with a file, from the class of its extension and the
/// format that its header shows (`None` when the header is of no format the
/// encoder is given). The header is only consulted for raster extensions.
pub open spec fn kind_of(class: ExtensionClass, sniffed: Option<ImageKind>) -> FileKind {
    match class {
        ExtensionClass::Raster => match sniffed {
            Some(k) => FileKind::Convertible(k),
            None => FileKind::Unsupported,
        },
        ExtensionClass::Target => FileKind::AlreadyTarget,
        ExtensionClass::Other => FileKind::Unsupported,
    }
}

/// What the pipeline does with a file; see `kind_of`.
pub fn classify(class: ExtensionClass, sniffed: Option<ImageKind>) -> (r: FileKind)
    ensures
        r == kind_of(class, sniffed),
{
    match class {
        ExtensionClass::Raster => match sniffed {
            Some(k) => FileKind::Convertible(k),
            None => FileKind::Unsupported,
        },
        ExtensionClass::Target => FileKind::AlreadyTarget,
        ExtensionClass::Other => FileKind::Unsupported,
    }
}

/// The encoder flags for a source of this format.
pub fn encoder_flags(settings: &JxlArgs, kind: ImageKind) -> (r: &Vec<String>)
    ensures
        kind == ImageKind::Png ==> r == &settings.png_args,
        kind == ImageKind::Jpeg ==> r == &settings.jpg_args,
{
    match kind {
        ImageKind::Png => &settings.png_args,
        ImageKind::Jpeg => &settings.jpg_args,
    }
}

} // verus!
