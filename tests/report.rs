use derp_shell::report::{cd_report, command_output, expand_home, pwd_report, CdFailure};
use derp_shell::text::{parse_i32, split_str, trim_str};

#[test]
fn cd_to_missing_path_reports_it() {
    assert_eq!(
        cd_report("/nonexistent-path", Some(CdFailure::NotFound)),
        Some("/nonexistent-path: No such file or directory".to_string())
    );
    assert_eq!(
        cd_report("/etc/passwd", Some(CdFailure::Other("Not a directory (os error 20)".to_string()))),
        Some("Error in CD: Not a directory (os error 20)".to_string())
    );
    assert_eq!(cd_report("/tmp", None), None);
}

#[test]
fn cd_home_marker() {
    assert_eq!(expand_home("~", Some("/home/user")), Some("/home/user".to_string()));
    assert_eq!(expand_home("~/src", Some("/home/user")), Some("/home/user/src".to_string()));
    assert_eq!(expand_home("/tmp/~x", Some("/home/user")), Some("/tmp/~x".to_string()));
    assert_eq!(expand_home("~", None), None);
    assert_eq!(expand_home("/tmp", None), Some("/tmp".to_string()));
}

#[test]
fn pwd_reports_the_directory() {
    let first = pwd_report(Ok("/home/user".to_string()));
    let second = pwd_report(Ok("/home/user".to_string()));
    assert_eq!(first, "/home/user");
    assert_eq!(first, second);
    assert_eq!(pwd_report(Err("gone".to_string())), "Error PWD: gone");
}

#[test]
fn captured_output_is_trimmed() {
    assert_eq!(command_output("/bin/echo", Some(b"hi\n".to_vec())), "hi");
    assert_eq!(command_output("/bin/echo", Some(b"  a b \r\n\n".to_vec())), "  a b");
    assert_eq!(command_output("/bin/echo", Some(vec![0x68, 0xff, 0x0a])), "h\u{fffd}");
    assert_eq!(command_output("/bin/echo", Some(Vec::new())), "");
    assert_eq!(command_output("/x/tool", None), "/x/tool: failed to run with output!");
}

#[test]
fn text_helpers() {
    assert_eq!(trim_str("\t x y \u{3000}"), "x y");
    assert_eq!(split_str("a::b", ':'), vec!["a".to_string(), String::new(), "b".to_string()]);
    assert_eq!(parse_i32("17"), Some(17));
    assert_eq!(parse_i32("+5"), Some(5));
    assert_eq!(parse_i32("-2147483648"), Some(i32::MIN));
    assert_eq!(parse_i32("2147483648"), None);
    assert_eq!(parse_i32("-"), None);
    assert_eq!(parse_i32("1x"), None);
    assert_eq!(parse_i32(""), None);
}
