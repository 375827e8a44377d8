use byo_tools::{binary_candidates, cd_target, echo_line, is_builtin, split_path_list, type_message};

#[test]
fn path_list_splits_at_colons() {
    assert_eq!(split_path_list("/usr/bin:/bin"), vec!["/usr/bin".to_string(), "/bin".to_string()]);
    assert_eq!(split_path_list(""), vec!["".to_string()]);
    assert_eq!(split_path_list("a::b:"), vec!["a", "", "b", ""].into_iter().map(String::from).collect::<Vec<_>>());
}

#[test]
fn candidates_follow_path_order() {
    assert_eq!(
        binary_candidates("/usr/local/bin:/usr/bin/", "ls"),
        vec!["/usr/local/bin/ls".to_string(), "/usr/bin/ls".to_string()]
    );
}

#[test]
fn builtin_names() {
    for n in ["echo", "exit", "type", "pwd", "cd"] {
        assert!(is_builtin(n));
    }
    assert!(!is_builtin("ls"));
    assert!(!is_builtin("echo "));
}

#[test]
fn echo_joins_with_spaces() {
    assert_eq!(echo_line(&vec!["hello".to_string(), "world".to_string()]), "hello world");
    assert_eq!(echo_line(&vec![]), "");
}

#[test]
fn type_messages() {
    assert_eq!(type_message("echo", None), "echo is a shell builtin");
    assert_eq!(type_message("ls", Some("/bin/ls")), "ls is /bin/ls");
    assert_eq!(type_message("nope", None), "nope: not found");
}

#[test]
fn cd_targets() {
    assert_eq!(cd_target("./", "/home/u", "/tmp"), None);
    assert_eq!(cd_target("~", "/home/u", "/tmp"), Some("/home/u".to_string()));
    assert_eq!(cd_target("/usr", "/home/u", "/tmp"), Some("/usr".to_string()));
    assert_eq!(cd_target("~/docs", "/home/u", "/tmp"), Some("/docs".to_string()));
    assert_eq!(cd_target("~docs", "/home/u", "/tmp"), Some("/home/u/docs".to_string()));
    assert_eq!(cd_target("src", "/home/u", "/tmp"), Some("/tmp/src".to_string()));
}
