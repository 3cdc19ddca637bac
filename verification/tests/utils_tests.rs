use easytex::utils::{
    hex_tail, is_editable_project_file, is_valid_entrypoint, is_valid_project_name, rand_hex_string,
    safe_path, safe_project_file, confine_project_dir, confine_project_file,
};

#[test]
fn test_is_valid_project_name() {
    let long_name = "a".repeat(257);
    let cases = vec![
        ("valid", true),
        ("valid-name", true),
        ("valid_name", true),
        ("valid123", true),
        ("invalid name", false),
        ("../etc/passwd", false),
        ("etc/passwd", false),
        ("", false),
        (long_name.as_str(), false),
        ("project#1", false),
        ("project$2", false),
        ("project!", false),
        (".", false),
        ("..", false),
        ("_start", true),
        ("-start", true),
        ("123", true),
        ("a-b_c", true),
        ("a--b", true),
        ("a__b", true),
        ("a.", false),
        (".a", false),
        (" ", false),
        ("\t", false),
        ("\n", false),
    ];
    for (input, expected) in cases {
        assert_eq!(is_valid_project_name(input), expected, "Failed for: {}", input);
    }
}

#[test]
fn test_is_valid_entrypoint() {
    let cases = vec![
        ("main.tex", true),
        ("chapter1.tex", true),
        ("main", false),
        ("main.txt", false),
        ("main.tex; rm -rf /", false),
        ("../main.tex", false),
        ("/main.tex", false),
        ("main.tex\0", false),
        ("main.tex.pdf", false),
        ("sub/main.tex", false),
        ("MAIN.TEX", false),
        (".tex", false),
        ("a.tex.tex", true),
        ("a.b.tex", true),
        ("a..tex", false),
        (" main.tex", false),
        ("main.tex ", false),
        ("main.tex\n", false),
        ("main.tex\r", false),
        ("main\t.tex", false),
    ];
    for (input, expected) in cases {
        assert_eq!(is_valid_entrypoint(input), expected, "Failed for: {}", input);
    }
}

#[test]
fn project_names_count_bytes_not_characters() {
    assert!(is_valid_project_name(&"a".repeat(256)));
    assert!(!is_valid_project_name(&"a".repeat(257)));
    // 128 two-byte letters make 256 bytes; one more is too long.
    assert!(is_valid_project_name(&"é".repeat(128)));
    assert!(!is_valid_project_name(&"é".repeat(129)));
}

#[test]
fn entrypoints_longer_than_256_bytes_are_refused() {
    let ok = format!("{}.tex", "a".repeat(252));
    let too_long = format!("{}.tex", "a".repeat(253));
    assert!(is_valid_entrypoint(&ok));
    assert!(!is_valid_entrypoint(&too_long));
}

#[test]
fn editable_project_files() {
    assert!(is_editable_project_file("main.tex"));
    assert!(is_editable_project_file("chapters/intro.tex"));
    assert!(is_editable_project_file("refs.BIB"));
    assert!(is_editable_project_file("notes.md"));
    assert!(is_editable_project_file("figure.svg"));
    assert!(!is_editable_project_file(""));
    assert!(!is_editable_project_file("../main.tex"));
    assert!(!is_editable_project_file("/tmp/main.tex"));
    assert!(!is_editable_project_file(".env"));
    assert!(!is_editable_project_file("build/output.sh"));
    assert!(!is_editable_project_file("chapters\\intro.tex"));
    assert!(!is_editable_project_file("C:/tmp/main.tex"));
    assert!(!is_editable_project_file("main.tex:evil"));
    assert!(!is_editable_project_file("//server/share/main.tex"));
    assert!(!is_editable_project_file("chapters//intro.tex"));
    assert!(!is_editable_project_file("chapters/.hidden.tex"));
    assert!(!is_editable_project_file("chapters/"));
    assert!(!is_editable_project_file("Makefile"));
    assert!(!is_editable_project_file("image.png"));
}

#[test]
fn test_safe_path() {
    // The root must exist; "/" holds "tmp" on every Unix system.
    let cases = vec![
        ("tmp", true),
        ("../passwd", false),
        ("/etc/passwd", false),
        ("invalid-name!", false),
        ("", false),
    ];
    for (name, is_ok) in cases {
        let res = safe_path("/", name);
        if is_ok {
            assert!(res.is_some(), "Should be safe: {}", name);
        } else {
            assert!(res.is_none(), "Should be unsafe: {}", name);
        }
    }
    // A project that does not exist yet resolves next to the others.
    assert_eq!(
        safe_path("/tmp", "easytex-no-such-project-0"),
        Some("/tmp/easytex-no-such-project-0".to_string())
    );
    // A missing root resolves nothing.
    assert!(safe_path("/no/such/root/for/easytex", "demo").is_none());
}

#[test]
fn test_safe_project_file() {
    // "/" exists and holds "tmp", so "tmp" plays the part of a sub-directory.
    assert_eq!(safe_project_file("/", "main.tex"), Some("/main.tex".to_string()));
    assert!(safe_project_file("/", "tmp/intro.tex").is_some());
    assert!(safe_project_file("/", "../main.tex").is_none());
    assert!(safe_project_file("/", "/tmp/main.tex").is_none());
    assert!(safe_project_file("/", ".env").is_none());
    // Editable, but its directory ("/build") does not exist.
    assert!(safe_project_file("/", "build/generated.tex").is_none());
    assert!(safe_project_file("/", "build/output.sh").is_none());
    assert!(safe_project_file("/", r"tmp\intro.tex").is_none());
    assert!(safe_project_file("/", "C:/tmp/main.tex").is_none());
    assert!(safe_project_file("/", "main.tex:evil").is_none());
    assert!(safe_project_file("/", "//server/share/main.tex").is_none());
    // The directory of the file must exist.
    assert!(safe_project_file("/", "no-such-dir-for-easytex/intro.tex").is_none());
}

#[test]
fn confining_a_project_file() {
    assert_eq!(
        confine_project_file("chapters/a.tex", Some("/srv/p"), Some("/srv/p/chapters")),
        Some("/srv/p/chapters/a.tex".to_string())
    );
    // A directory that resolves outside the project (a symbolic link) is refused.
    assert_eq!(confine_project_file("chapters/a.tex", Some("/srv/p"), Some("/etc")), None);
    assert_eq!(confine_project_file("chapters/a.tex", None, Some("/srv/p")), None);
    assert_eq!(confine_project_file("chapters/a.tex", Some("/srv/p"), None), None);
    assert_eq!(confine_project_file("../a.tex", Some("/srv/p"), Some("/srv/p")), None);
    // Component-wise: "/srv/pp" is not inside "/srv/p".
    assert_eq!(confine_project_file("a.tex", Some("/srv/p"), Some("/srv/pp")), None);
}

#[test]
fn confining_a_project_directory() {
    assert_eq!(
        confine_project_dir("demo", Some("/srv"), Some("/srv/demo"), None),
        Some("/srv/demo".to_string())
    );
    // A project that is a link out of the root is refused.
    assert_eq!(confine_project_dir("demo", Some("/srv"), Some("/etc"), None), None);
    // A project not created yet resolves through its parent.
    assert_eq!(
        confine_project_dir("demo", Some("/srv"), None, Some("/srv")),
        Some("/srv/demo".to_string())
    );
    assert_eq!(confine_project_dir("demo", Some("/srv"), None, Some("/var")), None);
    assert_eq!(confine_project_dir("demo", Some("/srv"), None, None), None);
    assert_eq!(confine_project_dir("bad name", Some("/srv"), Some("/srv/x"), None), None);
    assert_eq!(confine_project_dir("demo", None, Some("/srv/demo"), None), None);
}

#[test]
fn hex_tails() {
    assert_eq!(hex_tail(0xabcdef, 12), "000000abcdef");
    assert_eq!(hex_tail(0x1234_5678_9abc_def0, 6), "bcdef0");
    assert_eq!(hex_tail(0, 4), "0000");
    assert_eq!(hex_tail(255, 0), "");
}

#[test]
fn random_hex_strings_have_the_length_asked_for() {
    for len in [0usize, 6, 12, 32] {
        let s = rand_hex_string(len);
        assert_eq!(s.len(), len);
        assert!(s.chars().all(|c| matches!(c, '0'..='9' | 'a'..='f')));
    }
}

#[test]
fn documented_name_and_entrypoint_examples() {
    assert!(is_valid_project_name("thesis_2026"));
    assert!(!is_valid_project_name("../etc/passwd"));
    assert!(is_valid_entrypoint("main.tex"));
    assert!(!is_valid_entrypoint("main.txt"));
}
