use asahi::ansi::{Color, PublicStyle, StyledColor};
use asahi::error::AsahiError;
use asahi::health::Health;
use asahi::os::Uptime;
use asahi::traits::{AsahiDatabaseKind, AsahiExtension};

struct Quiet;

impl AsahiExtension for Quiet {}

#[test]
fn painting_wraps_text_in_escape_sequences() {
    assert_eq!(Color::Red.normal().paint("hi"), "\x1b[31mhi\x1b[0m");
    assert_eq!(Color::Red.bold().paint("hi"), "\x1b[1m\x1b[31mhi\x1b[0m");
    assert_eq!(Color::Blue.normal().paint(""), "\x1b[34m\x1b[0m");
    assert_eq!(Color::Yellow.bold().paint("warn"), "\x1b[1m\x1b[33mwarn\x1b[0m");
    assert_eq!(Color::Green.normal().paint("ok"), "\x1b[32mok\x1b[0m");
    assert_eq!(Color::Black.normal().paint("x"), "\x1b[37mx\x1b[0m");
    let both = PublicStyle(StyledColor { color: "C", styles: &["A", "B"] });
    assert_eq!(both.paint("text"), "ABCtext\x1b[0m");
    assert_eq!(both.0.paint("text"), "ABCtext\x1b[0m");
}

#[test]
fn errors_say_their_category() {
    assert_eq!(
        AsahiError::Config("bad value".to_string()).message(),
        "(Asahi) Configuration error: bad value"
    );
    assert_eq!(AsahiError::Network("down".to_string()).message(), "(Asahi) Network error: down");
    assert_eq!(AsahiError::Worker("stuck".to_string()).message(), "(Asahi) Worker error: stuck");
    assert_eq!(AsahiError::Parse("no".to_string()).message(), "(Asahi) Parsing error: no");
    assert_eq!(AsahiError::Database("gone".to_string()).message(), "(Asahi) Database error: gone");
    assert_eq!(AsahiError::External(String::new()).message(), "(Asahi) External error: ");
    assert_eq!(AsahiError::Unknown.message(), "(Asahi) Unknown error");
}

#[test]
fn health_follows_the_connection() {
    let mut health = Health::starting();
    assert_eq!(health.status, "Starting");
    assert!(!health.connected);
    assert_eq!(health.health_code(), 503);
    assert_eq!(health.readiness(), (503, "Not Ready"));
    health.update(true);
    assert_eq!(health.status, "Healthy");
    assert!(health.connected);
    assert_eq!(health.health_code(), 204);
    assert_eq!(health.readiness(), (200, "Ready"));
    health.update(false);
    assert_eq!(health.status, "Unhealthy");
    assert_eq!(health.health_code(), 503);
}

#[test]
fn process_uptime_counts_from_its_start() {
    let up = Uptime::since(500, 1000, 400).unwrap();
    assert_eq!((up.system, up.process), (500, 600));
    let up = Uptime::since(0, 7, 7).unwrap();
    assert_eq!((up.system, up.process), (0, 0));
    assert!(Uptime::since(500, 399, 400).is_none());
}

#[test]
fn extensions_need_no_setup_by_default() {
    assert!(Quiet.setup().is_ok());
    assert_ne!(AsahiDatabaseKind::Postgres, AsahiDatabaseKind::Sqlite);
}
