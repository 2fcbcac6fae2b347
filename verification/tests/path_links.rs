use herdr_core::path_links::{
    allowed_path, file_uri_for_path, local_file_uri_path, looks_like_path, path_at_byte, percent_decode,
    visible_path_candidates, without_location,
};

#[test]
fn path_tokens_use_clicked_bytes_and_preserve_spaces() {
    for (text, clicked, expected) in [
        ("read `src/main.rs:42:3` now", "main", "src/main.rs:42:3"),
        ("read \"C:\\my project\\file.ts\" now", "project", "C:\\my project\\file.ts"),
        ("open (/tmp/report.txt).", "report", "/tmp/report.txt"),
        ("open /tmp/a(b).txt,", "a(b)", "/tmp/a(b).txt"),
        ("文档 ./报告.txt", "报告", "./报告.txt"),
        ("open file:///C:/my%20project/test.txt", "project", "file:///C:/my%20project/test.txt"),
        ("see README.md", "README", "README.md"),
    ] {
        assert_eq!(path_at_byte(text, text.find(clicked).unwrap()).as_deref(), Some(expected));
    }
    for text in ["ordinary", "https://example.test/a.rs", "javascript:alert(1)", "\\\\server\\share\\file.txt"] {
        assert_eq!(path_at_byte(text, 0), None, "{text}");
    }
    assert_eq!(path_at_byte("src/main.rs now", 11), None);
    assert_eq!(path_at_byte("`src/main.rs`", 0), None);
}

#[test]
fn file_uri_conversion_is_local_and_decodes_exactly_once() {
    assert_eq!(
        local_file_uri_path("file:///C:/my%20project/%E6%96%87.txt", true).as_deref(),
        Some("C:/my project/文.txt")
    );
    assert_eq!(
        local_file_uri_path("file://localhost/tmp/a%2520.txt", false).as_deref(),
        Some("/tmp/a%20.txt")
    );
    for uri in [
        "file://server/share/a",
        "file:relative",
        "file:///C:/a%00.txt",
        "file:///C:/a%1B.txt",
        "file:///C:/a%GG.txt",
        "file:///C:/a?cmd=1",
        "file:///C:/a#x",
        "file:////server/share/a",
        "file:///C:/a:stream",
        "file:///C:/NUL.txt",
        "file:///C:/a%5Cb:stream",
    ] {
        assert_eq!(local_file_uri_path(uri, true), None, "{uri}");
    }
}

#[test]
fn path_security_rejects_devices_networks_and_commands() {
    for value in [
        "\\\\server\\share\\file.txt",
        "//server/share/file.txt",
        "\\\\?\\C:\\file.txt",
        "C:relative.txt",
        "C:\\file.txt:stream",
        "a\u{0}.txt",
        "file.txt|whoami",
        "https://example.test",
        "NUL",
        "aux.txt",
        "a/COM1.txt",
    ] {
        assert!(!allowed_path(value), "{value}");
    }
    assert!(allowed_path("C:\\source\\file.rs"));
    assert!(allowed_path("./src/main.rs"));
    assert_eq!(without_location("C:\\src\\main.rs:42:3"), "C:\\src\\main.rs");
}

#[test]
fn clicks_inside_a_character_or_past_the_row_find_nothing() {
    let row = "see ./报告.txt";
    let start = row.find("报").unwrap();
    assert_eq!(path_at_byte(row, start).as_deref(), Some("./报告.txt"));
    assert_eq!(path_at_byte(row, start + 1), None);
    assert_eq!(path_at_byte(row, row.len()), None);
    let long = format!("{} ./a.txt", "x".repeat(70_000));
    assert_eq!(path_at_byte(&long, long.len() - 3), None);
    assert_eq!(path_at_byte("open 'unterminated.txt", 7), None);
}

#[test]
fn location_suffixes_and_path_shapes() {
    assert_eq!(without_location("src/main.rs:42"), "src/main.rs");
    assert_eq!(without_location("src/main.rs:x:3"), "src/main.rs:x");
    assert_eq!(without_location("src/main.rs:"), "src/main.rs:");
    assert!(looks_like_path("Makefile"));
    assert!(looks_like_path("notes.md:10:2"));
    assert!(!looks_like_path(".bashrc"));
    assert!(!looks_like_path(".."));
    assert!(allowed_path("LPT0/x"));
    assert!(!allowed_path("dir/lpt9 .txt"));
    assert!(!allowed_path(&"a".repeat(4097)));
    assert_eq!(percent_decode(&b"a%41%zz".to_vec()), None);
    assert_eq!(percent_decode(&b"a%41b".to_vec()), Some(b"aAb".to_vec()));
}

#[test]
fn spelled_out_paths_with_spaces_are_tried_longest_first() {
    let text = "./file with spaces.txt:42:3";
    assert_eq!(
        visible_path_candidates(text, text.find("spaces").unwrap()),
        vec!["./file with spaces.txt:42:3".to_string(), "spaces.txt:42:3".to_string()]
    );
    let text = "https://example.test/file with spaces.txt";
    assert_eq!(visible_path_candidates(text, text.find("spaces").unwrap()), vec!["spaces.txt".to_string()]);
    let text = "see ./a b c.txt, then";
    assert_eq!(
        visible_path_candidates(text, text.find('b').unwrap()),
        vec!["./a b c.txt, then".to_string(), "./a b c.txt".to_string(), "./a b".to_string()]
    );
    let long = "x".repeat(5000);
    assert!(visible_path_candidates(&long, 0).is_empty());
}

#[test]
fn file_uris_percent_encode_path_bytes() {
    assert_eq!(file_uri_for_path("/tmp/a b.txt", false).as_deref(), Some("file:///tmp/a%20b.txt"));
    assert_eq!(file_uri_for_path("C:\\dir\\é.txt", true).as_deref(), Some("file:///C:/dir/%C3%A9.txt"));
    assert_eq!(file_uri_for_path("/tmp/a|b", false), None);
    let uri = file_uri_for_path("/tmp/a b.txt", false).unwrap();
    assert_eq!(local_file_uri_path(&uri, false).as_deref(), Some("/tmp/a b.txt"));
}

#[test]
fn documents_open_in_their_default_application_and_scripts_do_not() {
    for extension in ["pdf", "PNG", "Jpg", "jpeg", "gif", "webp", "BMP"] {
        assert!(herdr_core::path_links::is_document_extension(extension), "{extension}");
    }
    for extension in ["sh", "exe", "txt", "pdfx", "", "jp"] {
        assert!(!herdr_core::path_links::is_document_extension(extension), "{extension}");
    }
}

#[test]
fn link_targets_follow_the_local_path_rules() {
    let t = herdr_core::path_links::link_target;
    let home = herdr_core::path_links::LinkTargetKind::HomeRelative;
    let written = herdr_core::path_links::LinkTargetKind::AsWritten;
    let uri = herdr_core::path_links::LinkTargetKind::FileUri;
    assert_eq!(t("~/notes/todo.md:12", false), Some((home, "notes/todo.md".to_string())));
    assert_eq!(t("src/main.rs:3:9", false), Some((written, "src/main.rs".to_string())));
    assert_eq!(t("/tmp/a.txt", false), Some((written, "/tmp/a.txt".to_string())));
    assert_eq!(t("C:/work/a.txt", false), None);
    assert_eq!(t("dir\\a.txt", false), None);
    assert_eq!(t("/tmp/a.txt", true), None);
    assert_eq!(t("file:///tmp/a%20b.txt", false), Some((uri, "/tmp/a b.txt".to_string())));
    assert_eq!(t("", false), None);
}
