use jxl_zipper::input::path_from_input;
use jxl_zipper::timing::split_millis;

#[test]
fn quoted_paths_lose_their_quotes() {
    assert_eq!(path_from_input("\"C:\\My Photos\\2019\"\r\n"), "C:\\My Photos\\2019");
    assert_eq!(path_from_input("'/home/a b/pics'\n"), "/home/a b/pics");
    assert_eq!(path_from_input("  /plain/path \n"), "/plain/path");
    assert_eq!(path_from_input("\"\"'x'"), "x");
}

#[test]
fn millis_split_into_clock_parts() {
    assert_eq!(split_millis(0), (0, 0, 0, 0));
    assert_eq!(split_millis(3_723_004), (1, 2, 3, 4));
    assert_eq!(split_millis(90_061_001), (25, 1, 1, 1));
}
