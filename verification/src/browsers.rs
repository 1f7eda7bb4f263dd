//! Which extension store and which launcher command belong to a browser.

use vstd::prelude::*;
use crate::text::str_eq;

verus! {

/// The store page of the Focuser extension for Firefox.
pub const FIREFOX_STORE_URL: &'static str = "https://addons.mozilla.org/en-US/firefox/addon/focuser-website-blocker/";

/// The store page of the Focuser extension for Chromium browsers.
pub const CHROME_STORE_URL: &'static str = "https://chromewebstore.google.com/detail/jpnhbpbcmagoonmaleppldmcnaibkbmj";

/// The store page and the store kind that a browser gets the extension from:
/// Firefox goes to Mozilla's add-on site, every other browser to the Chrome
/// Web Store.
pub open spec fn store_for(browser_name: Seq<char>) -> (Seq<char>, Seq<char>) {
    if browser_name == "Mozilla Firefox"@ {
        (FIREFOX_STORE_URL@, "firefox"@)
    } else {
        (CHROME_STORE_URL@, "chrome"@)
    }
}

/// The command that starts a browser, by its display name; "chrome" for any
/// browser not known by name.
pub open spec fn launch_cmd_for(browser_name: Seq<char>) -> Seq<char> {
    if browser_name == "Mozilla Firefox"@ {
        "firefox"@
    } else if browser_name == "Microsoft Edge"@ {
        "msedge"@
    } else if browser_name == "Brave Browser"@ {
        "brave"@
    } else if browser_name == "Opera"@ {
        "opera"@
    } else {
        "chrome"@
    }
}

/// The extension's store page for a browser, and which store it is.
pub fn extension_store_url(browser_name: &str) -> (res: (&'static str, &'static str))
    ensures
        (res.0@, res.1@) == store_for(browser_name@),
{
    if str_eq(browser_name, "Mozilla Firefox") {
        (FIREFOX_STORE_URL, "firefox")
    } else {
        (CHROME_STORE_URL, "chrome")
    }
}

/// The command that starts the named browser.
pub fn browser_launch_cmd(browser_name: &str) -> (res: &'static str)
    ensures
        res@ == launch_cmd_for(browser_name@),
{
    if str_eq(browser_name, "Mozilla Firefox") {
        "firefox"
    } else if str_eq(browser_name, "Microsoft Edge") {
        "msedge"
    } else if str_eq(browser_name, "Brave Browser") {
        "brave"
    } else if str_eq(browser_name, "Opera") {
        "opera"
    } else {
        "chrome"
    }
}

/// Only Firefox is sent to Mozilla's add-on site; every other browser gets
/// the Chrome Web Store, and the store kind always goes with its page.
pub proof fn only_firefox_goes_to_mozilla(browser_name: Seq<char>)
    ensures
        store_for(browser_name).1 == "firefox"@ <==> browser_name == "Mozilla Firefox"@,
        store_for(browser_name).1 == "chrome"@ <==> browser_name != "Mozilla Firefox"@,
        store_for(browser_name).1 == "firefox"@ ==> store_for(browser_name).0 == FIREFOX_STORE_URL@,
        store_for(browser_name).1 == "chrome"@ ==> store_for(browser_name).0 == CHROME_STORE_URL@,
{
    reveal_strlit("firefox");
    reveal_strlit("chrome");
    assert("chrome"@.len() != "firefox"@.len());
}

/// The launcher is "firefox" exactly for Firefox, as the store is Mozilla's
/// exactly for Firefox; a browser not known by name is started as Chrome.
pub proof fn firefox_launcher_goes_with_mozilla_store(browser_name: Seq<char>)
    ensures
        launch_cmd_for(browser_name) == "firefox"@ <==> browser_name == "Mozilla Firefox"@,
        launch_cmd_for(browser_name) == "firefox"@ <==> store_for(browser_name).1 == "firefox"@,
        browser_name != "Mozilla Firefox"@ && browser_name != "Microsoft Edge"@
            && browser_name != "Brave Browser"@ && browser_name != "Opera"@
            ==> launch_cmd_for(browser_name) == "chrome"@,
{
    reveal_strlit("firefox");
    reveal_strlit("chrome");
    reveal_strlit("msedge");
    reveal_strlit("brave");
    reveal_strlit("opera");
    assert("chrome"@.len() != "firefox"@.len());
    assert("msedge"@.len() != "firefox"@.len());
    assert("brave"@.len() != "firefox"@.len());
    assert("opera"@.len() != "firefox"@.len());
}

} // verus!
