use asahi::error::{worker_error, AsahiError};
use asahi::os::{char_is_space, has_prefix, kernel_info, os_info, read_field};
use asahi::traits::{ensure_kind, AsahiDatabaseKind};

fn lines(text: &str) -> Vec<String> {
    text.lines().map(str::to_string).collect()
}

/// The same file read with the standard library's own splitting and trimming.
fn reference_os(text: &str) -> String {
    let mut name = "BoringOS".to_string();
    let mut version = "v0.0".to_string();
    let set_value =
        |s: String| s.split('=').nth(1).unwrap_or_default().trim_matches('"').to_string();
    text.lines().map(str::to_string).for_each(|line| match line {
        l if l.starts_with("NAME=") => name = set_value(l),
        l if l.starts_with("VERSION=") => version = set_value(l),
        l if l.starts_with("VERSION_ID=") => version = set_value(l),
        _ => {}
    });
    format!("{name} {version}")
}

fn reference_kernel(line: &str) -> String {
    match line.split_whitespace().nth(2) {
        Some(version) => version.to_string(),
        None => "Unsupported kernel".to_string(),
    }
}

#[test]
fn the_release_file_names_the_system() {
    let file = "NAME=\"AlmaLinux\"\nVERSION=\"10.0 (Purple Lion)\"\nID=\"almalinux\"\nVERSION_ID=\"10.0\"\nPRETTY_NAME=\"AlmaLinux 10.0\"\n";
    assert_eq!(os_info(&lines(file)), "AlmaLinux 10.0");
    assert_eq!(os_info(&lines("NAME=Arch Linux\n")), "Arch Linux v0.0");
    assert_eq!(os_info(&lines("VERSION_ID=12\nVERSION=\"12 (bookworm)\"\n")), "BoringOS 12 (bookworm)");
    assert_eq!(os_info(&Vec::new()), "BoringOS v0.0");
    assert_eq!(os_info(&lines("PRETTY_NAME=x\nname=lower\n NAME=indented\n")), "BoringOS v0.0");
}

#[test]
fn fields_end_at_the_next_equals_sign_and_lose_their_quotes() {
    assert_eq!(read_field("NAME=\"Debian GNU/Linux\""), "Debian GNU/Linux");
    assert_eq!(read_field("NAME=plain"), "plain");
    assert_eq!(read_field("NAME=a=b"), "a");
    assert_eq!(read_field("NAME="), "");
    assert_eq!(read_field("NAME"), "");
    assert_eq!(read_field(""), "");
    assert_eq!(read_field("NAME=\"\"\"x\"y\"\""), "x\"y");
    assert_eq!(read_field("NAME=\"\"\"\""), "");
    assert_eq!(read_field("NAME=\"né\"=x"), "né");
    assert_eq!(read_field("=v"), "v");
    assert!(has_prefix("NAME=x", "NAME="));
    assert!(has_prefix("NAME=", "NAME="));
    assert!(!has_prefix("NAME", "NAME="));
    assert!(!has_prefix("VERSION_ID=1", "VERSION="));
    assert!(has_prefix("anything", ""));
}

#[test]
fn the_release_file_is_read_as_the_standard_library_splits_it() {
    for file in [
        "",
        "NAME=\"AlmaLinux\"\nVERSION_ID=\"10.0\"\n",
        "NAME=a=b\nVERSION=\"\"1\"\"\n",
        "VERSION=\"1\"\nVERSION_ID=2\nVERSION=3=4\n",
        "NAME\nVERSION\n",
        "NAME=\nVERSION_ID=\n",
        "NAME=\"\nVERSION=\"\"\nNAME=\"x",
        "XNAME=1\nNAME =2\nNAME=é\"ü\n",
        "NAME==\nVERSION===\n",
    ] {
        assert_eq!(os_info(&lines(file)), reference_os(file), "for {file:?}");
    }
}

#[test]
fn the_kernel_version_is_the_third_word() {
    let line = "Linux version 6.8.0-1020-raspi (buildd@bos03) (gcc 13.2.0) #24-Ubuntu SMP\n";
    assert_eq!(kernel_info(line), "6.8.0-1020-raspi");
    assert_eq!(kernel_info("a b c"), "c");
    assert_eq!(kernel_info("  a \t b\n\nc   d"), "c");
    assert_eq!(kernel_info("a b"), "Unsupported kernel");
    assert_eq!(kernel_info("a b  \n"), "Unsupported kernel");
    assert_eq!(kernel_info(""), "Unsupported kernel");
    assert_eq!(kernel_info("   "), "Unsupported kernel");
    for line in ["", " ", "one", "one two", "one two three", "\u{2003}a\u{a0}b\u{3000}c\u{2028}d", "a\u{200b}b c d e"] {
        assert_eq!(kernel_info(line), reference_kernel(line), "for {line:?}");
    }
}

#[test]
fn a_failed_round_of_work_names_its_task() {
    let cause = AsahiError::Network("down".to_string());
    let error = worker_error("poller", &cause);
    assert!(matches!(error, AsahiError::Worker(_)));
    assert_eq!(error.message(), "(Asahi) Worker error: [poller] (Asahi) Network error: down");
    let error = worker_error("", &AsahiError::Unknown);
    assert_eq!(error.message(), "(Asahi) Worker error: [] (Asahi) Unknown error");
}

#[test]
fn a_configuration_is_for_one_kind_of_database() {
    assert!(ensure_kind(AsahiDatabaseKind::Postgres, AsahiDatabaseKind::Postgres).is_ok());
    assert!(ensure_kind(AsahiDatabaseKind::Sqlite, AsahiDatabaseKind::Sqlite).is_ok());
    let error = ensure_kind(AsahiDatabaseKind::Sqlite, AsahiDatabaseKind::Postgres).unwrap_err();
    assert_eq!(
        error.message(),
        "(Asahi) Configuration error: asahi_utils: this is not a Postgres config"
    );
    let error = ensure_kind(AsahiDatabaseKind::Postgres, AsahiDatabaseKind::Sqlite).unwrap_err();
    assert_eq!(
        error.message(),
        "(Asahi) Configuration error: asahi_utils: this is not a Sqlite config"
    );
}

#[test]
fn white_space_is_what_the_standard_library_takes_for_it() {
    for code in 0..=0x10ffffu32 {
        if let Some(c) = char::from_u32(code) {
            assert_eq!(char_is_space(c), c.is_whitespace(), "for U+{code:04X}");
        }
    }
}
