use jxl_zipper::classify::{
    classify, encoder_flags, extension_class, is_archive_extension, ExtensionClass, FileKind,
    ImageKind,
};
use jxl_zipper::config::JxlArgs;

#[test]
fn raster_extensions_ignore_case() {
    assert_eq!(extension_class("jpg"), ExtensionClass::Raster);
    assert_eq!(extension_class("JPEG"), ExtensionClass::Raster);
    assert_eq!(extension_class("Png"), ExtensionClass::Raster);
    assert_eq!(extension_class("JXL"), ExtensionClass::Target);
    assert_eq!(extension_class("txt"), ExtensionClass::Other);
    assert_eq!(extension_class(""), ExtensionClass::Other);
    assert_eq!(extension_class("gif"), ExtensionClass::Other);
}

#[test]
fn archives_are_recognised_by_extension() {
    assert!(is_archive_extension("zip"));
    assert!(!is_archive_extension("jpg"));
    assert!(!is_archive_extension("zipx"));
}

#[test]
fn header_decides_for_raster_files() {
    assert_eq!(
        classify(ExtensionClass::Raster, Some(ImageKind::Png)),
        FileKind::Convertible(ImageKind::Png)
    );
    assert_eq!(
        classify(ExtensionClass::Raster, Some(ImageKind::Jpeg)),
        FileKind::Convertible(ImageKind::Jpeg)
    );
    assert_eq!(classify(ExtensionClass::Raster, None), FileKind::Unsupported);
    assert_eq!(classify(ExtensionClass::Target, None), FileKind::AlreadyTarget);
    assert_eq!(classify(ExtensionClass::Other, Some(ImageKind::Png)), FileKind::Unsupported);
}

#[test]
fn each_format_gets_its_own_flags() {
    let args = JxlArgs::fallback();
    assert_eq!(encoder_flags(&args, ImageKind::Png), &vec!["--distance=0".to_string(), "--effort=7".to_string()]);
    assert_eq!(encoder_flags(&args, ImageKind::Jpeg).len(), 3);
    assert_eq!(encoder_flags(&args, ImageKind::Jpeg)[2], "--lossless_jpeg=1");
}
