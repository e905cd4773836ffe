use ferroclaw::prompt::expand_tilde;

#[test]
fn expand_tilde_with_tilde_prefix() {
    let result = expand_tilde("~/Documents/file.txt", Some("/home/testuser"));
    assert_eq!(result, "/home/testuser/Documents/file.txt");
}

#[test]
fn expand_tilde_without_tilde_prefix() {
    let result = expand_tilde("/absolute/path/file.txt", Some("/home/testuser"));
    assert_eq!(result, "/absolute/path/file.txt");
}

#[test]
fn expand_tilde_relative_path() {
    let result = expand_tilde("relative/path", None);
    assert_eq!(result, "relative/path");
}

#[test]
fn expand_tilde_without_home_uses_current_directory() {
    assert_eq!(expand_tilde("~/notes.md", None), "./notes.md");
}

#[test]
fn expand_tilde_bare_tilde_is_unchanged() {
    assert_eq!(expand_tilde("~", Some("/home/u")), "~");
    assert_eq!(expand_tilde("~user/x", Some("/home/u")), "~user/x");
}
