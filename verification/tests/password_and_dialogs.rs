use focuser_ui::modal::{
    build_extension_modal_js, build_locked_modal_js, extension_modal_js, locked_modal_js,
};
use focuser_ui::password::{hash_password, password_matches, password_record, to_lower_hex};
use focuser_ui::text::{str_eq, trim_str};

const HUNTER2: &str = "f52fbd32b2b3b86ff88ef6c490628285f482af15ddcb29541f94bcf526a3f6c7";

#[test]
fn passwords_hash_to_lower_hex_sha256() {
    assert_eq!(hash_password("hunter2"), HUNTER2);
    assert_eq!(hash_password("").len(), 64);
    assert_eq!(
        hash_password("password"),
        "5e884898da28047151d0e56f8dc6292773603d0d6aabbdd62a11ef721d1542d8"
    );
    assert_eq!(
        hash_password("éé"),
        "f13c007a1d8e6e1300b5957a143810cdd3555825466cf5d2617b1ac2fd8bd76b"
    );
}

#[test]
fn hex_is_two_digits_per_byte() {
    assert_eq!(to_lower_hex(&[10, 20, 30]), "0a141e");
    assert_eq!(to_lower_hex(&[0, 255, 171]), "00ffab");
    assert_eq!(to_lower_hex(&[]), "");
}

#[test]
fn short_passwords_are_refused() {
    let msg = "Password must be at least 4 characters.".to_string();
    assert_eq!(password_record(""), Err(msg.clone()));
    assert_eq!(password_record("abc"), Err(msg.clone()));
    assert_eq!(password_record("  ab \n\t"), Err(msg.clone()));
    assert_eq!(password_record("\u{3000}abc\u{2028}"), Err(msg.clone()));
    assert_eq!(password_record("hunter2"), Ok(HUNTER2.to_string()));
    assert_eq!(password_record(" abcd "), Ok(hash_password(" abcd ")));
}

#[test]
fn length_is_counted_in_characters() {
    assert!(password_record("éé").is_err());
    assert!(password_record("日本語").is_err());
    assert!(password_record("éééé").is_ok());
    assert!(password_record(" 日本語です ").is_ok());
}

#[test]
fn a_stored_hash_accepts_its_password_only() {
    assert!(password_matches(Some(HUNTER2), "hunter2"));
    let with_newline = format!("{HUNTER2}\n");
    assert!(password_matches(Some(&with_newline), "hunter2"));
    assert!(!password_matches(Some(HUNTER2), "hunter3"));
    assert!(!password_matches(Some(HUNTER2), " hunter2"));
    assert!(!password_matches(Some(""), "hunter2"));
    assert!(!password_matches(None, "hunter2"));
}

#[test]
fn what_is_stored_verifies_afterwards() {
    for pw in ["hunter2", "  spaced out  ", "пароль!", "tab\tinside"] {
        let stored = password_record(pw).unwrap();
        assert!(password_matches(Some(&stored), pw));
    }
}

#[test]
fn trimming_removes_unicode_whitespace_at_both_ends() {
    assert_eq!(trim_str(" \t\n a b \r\u{85}\u{a0}"), "a b");
    assert_eq!(trim_str("\u{2000}\u{200a}x\u{202f}\u{205f}\u{3000}"), "x");
    assert_eq!(trim_str("   "), "");
    assert_eq!(trim_str("\u{200b}x"), "\u{200b}x");
    assert!(str_eq("abc", "abc"));
    assert!(!str_eq("abc", "abd"));
    assert!(!str_eq("abc", "ab"));
}

#[test]
fn the_locked_dialog_carries_its_texts_as_json() {
    let js = build_locked_modal_js(
        "Deep Work — 45 minutes left",
        "Focuser is locked",
        "Cannot quit: {reason}",
        "OK",
    );
    assert!(js.starts_with("(function() {\n  var id = 'focuser-locked-overlay';"));
    assert!(js.contains("title.textContent = \"Focuser is locked\";"));
    assert!(js.contains(
        "body.textContent = \"Cannot quit: {reason}\".replace('{reason}', \"Deep Work — 45 minutes left\");"
    ));
    assert!(js.contains("button.textContent = \"OK\";"));
    assert!(js.contains("button.onclick = function() { overlay.remove(); };"));
    assert!(js.ends_with("document.body.appendChild(overlay);\n})();"));
}

#[test]
fn json_escapes_quotes_backslashes_and_newlines() {
    let js = build_locked_modal_js("r", "say \"hi\"", "a\\b\nc", "");
    assert!(js.contains("title.textContent = \"say \\\"hi\\\"\";"));
    assert!(js.contains("body.textContent = \"a\\\\b\\nc\".replace('{reason}', \"r\");"));
    assert!(js.contains("button.textContent = \"\";"));
    let ctl = locked_modal_js_text("\u{1}\u{8}\u{c}\r\t\u{1f}é");
    assert!(ctl.contains("title.textContent = \"\\u0001\\b\\f\\r\\t\\u001fé\";"));
}

fn locked_modal_js_text(title: &str) -> String {
    build_locked_modal_js("r", title, "b", "k")
}

#[test]
fn the_locked_dialog_places_literals_verbatim() {
    let js = locked_modal_js("R", "T", "B", "K");
    assert!(js.contains("title.textContent = T;"));
    assert!(js.contains("body.textContent = B.replace('{reason}', R);"));
    assert!(js.contains("button.textContent = K;"));
}

#[test]
fn the_extension_dialog_points_firefox_to_mozilla() {
    let js = build_extension_modal_js(
        "Mozilla Firefox",
        "Extension missing",
        "Install it for {browser} from {store}",
        "Get it for {browser}",
        "Later",
    );
    assert!(js.contains("title.textContent = \"Extension missing\";"));
    assert!(js.contains(
        "msg.textContent = \"Install it for {browser} from {store}\".split('{browser}').join('Mozilla Firefox').split('{store}').join('Firefox Add-ons');"
    ));
    assert!(js.contains(
        "document.createTextNode(\"Get it for {browser}\".split('{browser}').join('Mozilla Firefox'))"
    ));
    assert!(js.contains("var cmd = 'firefox';"));
    assert!(js.contains(
        "var url = 'https://addons.mozilla.org/en-US/firefox/addon/focuser-website-blocker/';"
    ));
    assert!(js.contains("dismissBtn.textContent = \"Later\";"));
    assert!(js.contains("@keyframes focuserFadeIn {from{opacity:0}to{opacity:1}}"));
    assert!(js.ends_with("installBtn.focus();\n})();"));
}

#[test]
fn the_extension_dialog_sends_other_browsers_to_chrome_store() {
    let js = extension_modal_js("Brave Browser", "T", "B", "I", "D");
    assert!(js.contains(".join('Brave Browser').split('{store}').join('Chrome Web Store');"));
    assert!(js.contains("var cmd = 'brave';"));
    assert!(js.contains(
        "var url = 'https://chromewebstore.google.com/detail/jpnhbpbcmagoonmaleppldmcnaibkbmj';"
    ));
    assert!(js.contains("dismissBtn.textContent = D;"));
}
