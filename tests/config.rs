use jxl_zipper::config::{JxlArgs, DEFAULT_SETTINGS_TEXT};

fn strings(v: &[&str]) -> Vec<String> {
    v.iter().map(|s| s.to_string()).collect()
}

#[test]
fn default_settings_pack_and_delete_nothing() {
    let d = JxlArgs::default();
    assert!(!d.delete_folder && !d.delete_source_image && d.make_zip);
    assert!(!d.dont_use_trashcan_just_delete);
    assert!(d.png_args.is_empty() && d.jpg_args.is_empty());
    assert!(!d.is_usable());
}

#[test]
fn default_text_reads_back_as_fallback() {
    let parsed = JxlArgs::parse(DEFAULT_SETTINGS_TEXT);
    let fallback = JxlArgs::fallback();
    assert_eq!(parsed.delete_folder, fallback.delete_folder);
    assert_eq!(parsed.delete_source_image, fallback.delete_source_image);
    assert_eq!(parsed.make_zip, fallback.make_zip);
    assert_eq!(parsed.dont_use_trashcan_just_delete, fallback.dont_use_trashcan_just_delete);
    assert_eq!(parsed.png_args, fallback.png_args);
    assert_eq!(parsed.jpg_args, fallback.jpg_args);
    assert!(parsed.is_usable());
}

#[test]
fn parse_trims_lines_and_items_and_ignores_case() {
    let text = "  delete_folder=TRUE \r\ndelete_source_image=True\nmake_zip=False\n\
                dont_use_trashcan_just_delete=true\npng_args=[ --a=1 , --b ]\njpg_args=[--c]\n";
    let a = JxlArgs::parse(text);
    assert!(a.delete_folder && a.delete_source_image && !a.make_zip);
    assert!(a.dont_use_trashcan_just_delete);
    assert_eq!(a.png_args, strings(&["--a=1", "--b"]));
    assert_eq!(a.jpg_args, strings(&["--c"]));
}

#[test]
fn parse_keeps_defaults_for_other_values_and_lines() {
    let a = JxlArgs::parse("delete_folder=yes\nmake_zip=true\n# comment\nunknown=1");
    assert!(!a.delete_folder);
    assert!(a.make_zip);
    assert!(a.png_args.is_empty());
    let empty = JxlArgs::parse("");
    assert!(empty.make_zip && !empty.is_usable());
}

#[test]
fn later_list_replaces_earlier_one() {
    let a = JxlArgs::parse("png_args=[--x]\npng_args=[[--y,--z]]");
    assert_eq!(a.png_args, strings(&["--y", "--z"]));
    let e = JxlArgs::parse("jpg_args=[]");
    assert_eq!(e.jpg_args, strings(&[""]));
}
