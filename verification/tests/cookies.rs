use endgame::cookies::{
    CookieError, CookieStep, Installation, handle_update, install, install_numbered,
    installation_reply, normalize_netscape,
};

#[test]
fn normalizes_cookie_fields_to_tabs() {
    let normalized = normalize_netscape(
        "# Netscape HTTP Cookie File\n.instagram.com TRUE / TRUE 0 sessionid secret\n",
    )
    .unwrap();
    assert_eq!(
        normalized,
        "# Netscape HTTP Cookie File\n.instagram.com\tTRUE\t/\tTRUE\t0\tsessionid\tsecret\n"
    );
}

#[test]
fn rejects_empty_and_malformed_cookie_files() {
    assert!(normalize_netscape("# header only").is_err());
    assert!(normalize_netscape("sessionid=secret").is_err());
}

#[test]
fn malformed_cookies_are_named_by_their_line() {
    assert_eq!(
        normalize_netscape("# header\n\na b c\n"),
        Err(CookieError::TooFewFields { line: 3, fields: 3 })
    );
    assert_eq!(normalize_netscape("# header"), Err(CookieError::NoRecords));
}

#[test]
fn only_superusers_install_cookies() {
    assert!(matches!(
        handle_update("/insta a b", 5, &[1]),
        CookieStep::Reply(text) if text == "You are not authorized to use this command."
    ));
    assert!(matches!(
        handle_update("/insta a b c d e f g", 1, &[1]),
        CookieStep::Install(_)
    ));
}

#[test]
fn improper_cookies_are_not_installed() {
    assert!(install("/tmp/cookies.txt", "invalid").is_err());
    let plan = install("/tmp/cookies.txt", "a b c d e f g").unwrap();
    assert_eq!(plan.text, "a\tb\tc\td\te\tf\tg\n");
    assert_ne!(plan.temporary, "/tmp/cookies.txt");
    let one = install_numbered("/tmp/cookies.txt", "a b c d e f g", 1).unwrap();
    let two = install_numbered("/tmp/cookies.txt", "a b c d e f g", 2).unwrap();
    assert_ne!(one.temporary, two.temporary);
}

#[test]
fn installations_are_answered() {
    assert_eq!(
        installation_reply(Installation::Installed),
        "Instagram cookies updated successfully."
    );
    assert_eq!(
        installation_reply(Installation::Failed {
            error: "full".to_string()
        }),
        "Failed to update cookies: full"
    );
}

#[test]
fn proper_cookies_stay_as_they_are() {
    let proper = normalize_netscape(
        "  # a remark \r\n\n .example.com\t TRUE / TRUE  0 name value with space\u{a0}\r\n#HttpOnly",
    )
    .unwrap();
    assert_eq!(
        proper,
        "# a remark\n\n.example.com\tTRUE\t/\tTRUE\t0\tname\tvalue\twith\tspace\n#HttpOnly\n"
    );
    assert_eq!(normalize_netscape(&proper).unwrap(), proper);
}
