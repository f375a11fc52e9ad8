use nt::config::expand_leading_tilde_literal;

#[test]
fn expands_when_literal_starts_with_tilde_slash() {
    let expanded = expand_leading_tilde_literal("~/notes/log.txt", "/home/testuser");
    assert_eq!(expanded, "/home/testuser/notes/log.txt");
}

#[test]
fn expands_root_home_directory_when_literal_is_just_tilde_slash() {
    let expanded = expand_leading_tilde_literal("~/", "/home/testuser");
    assert_eq!(expanded, "/home/testuser");
}

#[test]
fn leaves_user_form_unchanged() {
    let expanded = expand_leading_tilde_literal("~other/file.txt", "/home/testuser");
    assert_eq!(expanded, "~other/file.txt");
}

#[test]
fn leaves_relative_path_unchanged() {
    let expanded = expand_leading_tilde_literal("relative/file.txt", "/home/testuser");
    assert_eq!(expanded, "relative/file.txt");
}

#[test]
fn leaves_absolute_path_unchanged() {
    let expanded = expand_leading_tilde_literal("/var/log/syslog", "/home/testuser");
    assert_eq!(expanded, "/var/log/syslog");
}
