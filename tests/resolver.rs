use derp_shell::resolver::{
    first_found, pick_form, resolve, search_candidates_of, search_dirs_of, try_get_command_in_path,
};

fn strings(v: &[&str]) -> Vec<String> {
    v.iter().map(|s| s.to_string()).collect()
}

#[test]
fn search_dirs_normalise_trailing_separator() {
    assert_eq!(search_dirs_of("/a:/b"), strings(&["/a", "/b/"]));
    assert_eq!(search_dirs_of("/a:/b///"), strings(&["/a", "/b/"]));
    assert_eq!(search_dirs_of(""), strings(&["/"]));
    assert_eq!(search_dirs_of("/a/:/b"), strings(&["/a/", "/b/"]));
}

#[test]
fn earlier_directory_wins() {
    let candidates = search_candidates_of("/a:/b", "cmd");
    assert_eq!(candidates, strings(&["/acmd", "/a/cmd", "/b/cmd", "/b//cmd"]));
    let found = vec![false, true, true, false];
    assert_eq!(first_found(&candidates, &found), Some("/a/cmd".to_string()));
    let only_b = vec![false, false, true, true];
    assert_eq!(first_found(&candidates, &only_b), Some("/b/cmd".to_string()));
    assert_eq!(first_found(&candidates, &vec![false; 4]), None);
    assert_eq!(first_found(&candidates, &vec![]), None);
}

#[test]
fn probes_the_file_system() {
    assert_eq!(try_get_command_in_path("/bin/", "echo"), Some("/bin/echo".to_string()));
    assert_eq!(try_get_command_in_path("/bin", "echo"), Some("/bin/echo".to_string()));
    assert_eq!(try_get_command_in_path("/bin", "zzzznotacommand"), None);
    assert_eq!(try_get_command_in_path("/", "bin"), None);
    assert_eq!(resolve(Some("/zzzz-missing:/bin"), "echo"), Some("/bin/echo".to_string()));
    assert_eq!(resolve(None, "echo"), None);
    assert_eq!(resolve(Some(""), "zzzznotacommand"), None);
}

#[test]
fn direct_form_wins_over_joined_form() {
    let direct = || "/bin/echo".to_string();
    let joined = || "/bin//echo".to_string();
    assert_eq!(pick_form(direct(), true, joined(), true), Some("/bin/echo".to_string()));
    assert_eq!(pick_form(direct(), true, joined(), false), Some("/bin/echo".to_string()));
    assert_eq!(pick_form(direct(), false, joined(), true), Some("/bin//echo".to_string()));
    assert_eq!(pick_form(direct(), false, joined(), false), None);
}
