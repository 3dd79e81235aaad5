use fetch_rs::text::{contains_str, same_text, trim_str};
use fetch_rs::util::{curl_args, notify_message, ExitCode};

#[test]
fn exit_codes() {
    assert_eq!(ExitCode::Failure.code(), 1);
    assert_eq!(ExitCode::NoOp.code(), 2);
    assert_eq!(i32::from(ExitCode::Failure), 1);
    let n: i32 = ExitCode::NoOp.into();
    assert_eq!(n, 2);
}

#[test]
fn message_names_the_host() {
    assert_eq!(notify_message(Some("desktop\n")), "Rebuild failed on desktop\n");
    assert_eq!(notify_message(None), "Rebuild failed");
}

#[test]
fn curl_follows_redirects_for_https() {
    assert_eq!(
        curl_args("https://ntfy.sh/topic", "Rebuild failed"),
        vec!["-d", "Rebuild failed", "-L", "https://ntfy.sh/topic"]
    );
}

#[test]
fn curl_without_https() {
    assert_eq!(
        curl_args("ntfy.sh/topic", "m"),
        vec!["-d", "m", "ntfy.sh/topic"]
    );
    assert_eq!(curl_args("http://x/https", "m"), vec!["-d", "m", "-L", "http://x/https"]);
}

#[test]
fn trim_takes_unicode_whitespace() {
    assert_eq!(trim_str("\u{3000}\t main \r\n\u{a0}"), "main");
    assert_eq!(trim_str("   "), "");
    assert_eq!(trim_str("a b"), "a b");
    assert_eq!(trim_str(""), "");
}

#[test]
fn trim_agrees_with_std() {
    for s in ["  x ", "\u{2000}y\u{2009}", "\u{85}z", "\u{200b}w", "a\u{1680}", "\u{b}q\u{c}"] {
        assert_eq!(trim_str(s), s.trim());
    }
}

#[test]
fn contains_and_same() {
    assert!(contains_str("https://x", "https"));
    assert!(!contains_str("http://x", "https"));
    assert!(contains_str("abc", ""));
    assert!(same_text("main", "main"));
    assert!(!same_text("main", "main "));
}
