//! The script text of the two modal dialogs the shell injects into its
//! window: the one that says a lock keeps the app open, and the one that
//! asks for the browser extension.

use vstd::prelude::*;
use vstd::string::StringExecFns;
use crate::browsers::{browser_launch_cmd, extension_store_url, launch_cmd_for, store_for};
use crate::json::{json_or, json_literal};
use crate::text::str_eq;

verus! {

/// Locked-dialog script, up to the title.
pub const LOCKED_JS_0: &'static str = r##"(function() {
  var id = 'focuser-locked-overlay';
  var old = document.getElementById(id);
  if (old) old.remove();

  var overlay = document.createElement('div');
  overlay.id = id;
  overlay.style.cssText = 'position:fixed;inset:0;z-index:99999;display:flex;' +
    'align-items:center;justify-content:center;background:rgba(0,0,0,.55);' +
    'backdrop-filter:blur(4px);font-family:system-ui,sans-serif';

  var card = document.createElement('div');
  card.style.cssText = 'max-width:26rem;margin:1.5rem;padding:1.5rem;border-radius:.75rem;' +
    'background:#16181d;color:#e8eaed;border:1px solid #2c3038;box-shadow:0 18px 50px rgba(0,0,0,.5)';

  var title = document.createElement('h2');
  title.textContent = "##;

/// Locked-dialog script, between title and body template.
pub const LOCKED_JS_1: &'static str = r##";
  title.style.cssText = 'margin:0 0 .5rem;font-size:1rem;font-weight:600';

  var body = document.createElement('p');
  body.textContent = "##;

/// Locked-dialog script, between body template and reason.
pub const LOCKED_JS_2: &'static str = r##".replace('{reason}', "##;

/// Locked-dialog script, between reason and button label.
pub const LOCKED_JS_3: &'static str = r##");
  body.style.cssText = 'margin:0 0 1.25rem;font-size:.875rem;line-height:1.5;color:#9aa0aa';

  var button = document.createElement('button');
  button.textContent = "##;

/// Locked-dialog script, after the button label.
pub const LOCKED_JS_4: &'static str = r##";
  button.style.cssText = 'padding:.45rem 1.1rem;border-radius:.4rem;border:0;cursor:pointer;' +
    'background:#4f7cff;color:#fff;font-size:.875rem';
  button.onclick = function() { overlay.remove(); };

  card.appendChild(title);
  card.appendChild(body);
  card.appendChild(button);
  overlay.appendChild(card);
  document.body.appendChild(overlay);
})();"##;

/// Extension-dialog script, up to the title.
pub const EXTENSION_JS_0: &'static str = r##"(function() {
  var old = document.getElementById('focuser-ext-modal-overlay');
  if (old) old.remove();

  var overlay = document.createElement('div');
  overlay.id = 'focuser-ext-modal-overlay';
  overlay.style.cssText = 'position:fixed;top:0;left:0;width:100%;height:100%;background:rgba(0,0,0,0.6);backdrop-filter:blur(4px);z-index:99999;display:flex;align-items:center;justify-content:center;animation:focuserFadeIn 0.2s ease';

  var modal = document.createElement('div');
  modal.style.cssText = 'background:#1e1e24;border:1px solid rgba(255,255,255,0.1);border-radius:12px;padding:32px;max-width:480px;width:90%;box-shadow:0 8px 32px rgba(0,0,0,0.6);font-family:Inter,-apple-system,BlinkMacSystemFont,Segoe UI,sans-serif;color:#f0f0f3;animation:focuserSlideIn 0.25s ease';

  var header = document.createElement('div');
  header.style.cssText = 'display:flex;align-items:center;gap:12px;margin-bottom:20px';

  var icon = document.createElement('div');
  icon.style.cssText = 'width:44px;height:44px;border-radius:10px;background:rgba(248,113,113,0.15);display:flex;align-items:center;justify-content:center;flex-shrink:0';
  icon.innerHTML = '<svg width="24" height="24" viewBox="0 0 24 24" fill="none" stroke="#f87171" stroke-width="2" stroke-linecap="round" stroke-linejoin="round"><circle cx="12" cy="12" r="10"/><line x1="12" y1="8" x2="12" y2="12"/><line x1="12" y1="16" x2="12.01" y2="16"/></svg>';

  var title = document.createElement('div');
  title.style.cssText = 'font-size:18px;font-weight:600;color:#f0f0f3';
  title.textContent = "##;

/// Extension-dialog script, between title and message template.
pub const EXTENSION_JS_1: &'static str = r##";

  header.appendChild(icon);
  header.appendChild(title);

  var msg = document.createElement('p');
  msg.style.cssText = 'font-size:14px;line-height:1.6;color:#b0b0bc;margin-bottom:24px';
  msg.textContent = "##;

/// Extension-dialog script, between message template and browser name.
pub const EXTENSION_JS_2: &'static str = r##".split('{browser}').join('"##;

/// Extension-dialog script, between browser name and store name.
pub const EXTENSION_JS_3: &'static str = r##"').split('{store}').join('"##;

/// Extension-dialog script, between store name and install label.
pub const EXTENSION_JS_4: &'static str = r##"');

  var btnRow = document.createElement('div');
  btnRow.style.cssText = 'display:flex;gap:12px;flex-direction:column';

  var installBtn = document.createElement('button');
  installBtn.style.cssText = 'width:100%;padding:12px 20px;background:#8b5cf6;color:#fff;border:none;border-radius:8px;font-size:14px;font-weight:600;cursor:pointer;transition:all 0.15s ease;font-family:inherit;display:flex;align-items:center;justify-content:center;gap:8px';
  installBtn.innerHTML = '<svg width="18" height="18" viewBox="0 0 24 24" fill="none" stroke="currentColor" stroke-width="2" stroke-linecap="round" stroke-linejoin="round"><path d="M21 15v4a2 2 0 0 1-2 2H5a2 2 0 0 1-2-2v-4"/><polyline points="7 10 12 15 17 10"/><line x1="12" y1="15" x2="12" y2="3"/></svg> ';
  installBtn.appendChild(document.createTextNode("##;

/// Extension-dialog script, between install label and browser name.
pub const EXTENSION_JS_5: &'static str = r##".split('{browser}').join('"##;

/// Extension-dialog script, between browser name and launch command.
pub const EXTENSION_JS_6: &'static str = r##"')));
  installBtn.onmouseenter = function() { installBtn.style.background = '#9d74fa'; installBtn.style.transform = 'translateY(-1px)'; };
  installBtn.onmouseleave = function() { installBtn.style.background = '#8b5cf6'; installBtn.style.transform = 'translateY(0)'; };
  installBtn.onclick = function() {
    var cmd = '"##;

/// Extension-dialog script, between launch command and store page.
pub const EXTENSION_JS_7: &'static str = r##"';
    var url = '"##;

/// Extension-dialog script, between store page and dismiss label.
pub const EXTENSION_JS_8: &'static str = r##"';
    try {
      window.__TAURI__.core.invoke('open_browser_url', { browser: cmd, url: url })
        .catch(function(err) { console.error('Focuser: invoke failed:', err); });
    } catch(e) { console.error('Focuser: catch:', e); }
    overlay.remove();
  };

  var dismissBtn = document.createElement('button');
  dismissBtn.textContent = "##;

/// Extension-dialog script, after the dismiss label.
pub const EXTENSION_JS_9: &'static str = r##";
  dismissBtn.style.cssText = 'width:100%;padding:10px 20px;background:transparent;color:#6e6e7a;border:1px solid rgba(255,255,255,0.08);border-radius:8px;font-size:13px;font-weight:500;cursor:pointer;transition:all 0.15s ease;font-family:inherit';
  dismissBtn.onmouseenter = function() { dismissBtn.style.color = '#b0b0bc'; dismissBtn.style.borderColor = 'rgba(255,255,255,0.15)'; };
  dismissBtn.onmouseleave = function() { dismissBtn.style.color = '#6e6e7a'; dismissBtn.style.borderColor = 'rgba(255,255,255,0.08)'; };
  dismissBtn.onclick = function() { overlay.remove(); };

  btnRow.appendChild(installBtn);
  btnRow.appendChild(dismissBtn);

  modal.appendChild(header);
  modal.appendChild(msg);
  modal.appendChild(btnRow);
  overlay.appendChild(modal);

  var style = document.createElement('style');
  style.textContent = '@keyframes focuserFadeIn {from{opacity:0}to{opacity:1}} @keyframes focuserSlideIn {from{opacity:0;transform:scale(0.95) translateY(10px)}to{opacity:1;transform:scale(1) translateY(0)}}';
  document.head.appendChild(style);

  overlay.onclick = function(e) { if (e.target === overlay) overlay.remove(); };
  var escHandler = function(e) { if (e.key === 'Escape') { overlay.remove(); document.removeEventListener('keydown', escHandler); } };
  document.addEventListener('keydown', escHandler);

  document.body.appendChild(overlay);
  installBtn.focus();
})();"##;

/// The locked dialog's script, given its texts already as JSON literals:
/// the title, the body template (whose `{reason}` the script replaces),
/// the reason, and the button label.
pub open spec fn locked_modal_script(
    title: Seq<char>,
    body: Seq<char>,
    reason: Seq<char>,
    ok: Seq<char>,
) -> Seq<char> {
    LOCKED_JS_0@ + title + LOCKED_JS_1@ + body + LOCKED_JS_2@ + reason + LOCKED_JS_3@ + ok
        + LOCKED_JS_4@
}

/// The store's display name in the extension dialog.
pub open spec fn store_label_for(browser_name: Seq<char>) -> Seq<char> {
    if store_for(browser_name).1 == "firefox"@ {
        "Firefox Add-ons"@
    } else {
        "Chrome Web Store"@
    }
}

/// The extension dialog's script for a browser, given its texts already as
/// JSON literals: the title, the message and install-label templates (whose
/// `{browser}` and `{store}` the script fills in), and the dismiss label.
pub open spec fn extension_modal_script(
    browser_name: Seq<char>,
    title: Seq<char>,
    body: Seq<char>,
    install: Seq<char>,
    dismiss: Seq<char>,
) -> Seq<char> {
    EXTENSION_JS_0@ + title + EXTENSION_JS_1@ + body + EXTENSION_JS_2@ + browser_name
        + EXTENSION_JS_3@ + store_label_for(browser_name) + EXTENSION_JS_4@ + install
        + EXTENSION_JS_5@ + browser_name + EXTENSION_JS_6@ + launch_cmd_for(browser_name)
        + EXTENSION_JS_7@ + store_for(browser_name).0 + EXTENSION_JS_8@ + dismiss
        + EXTENSION_JS_9@
}

/// The locked dialog's script from texts that are already JSON literals.
pub fn locked_modal_js(reason_json: &str, title_json: &str, body_json: &str, ok_json: &str) -> (res:
    String)
    ensures
        res@ == locked_modal_script(title_json@, body_json@, reason_json@, ok_json@),
{
    let mut s = String::from_str(LOCKED_JS_0);
    s.append(title_json);
    s.append(LOCKED_JS_1);
    s.append(body_json);
    s.append(LOCKED_JS_2);
    s.append(reason_json);
    s.append(LOCKED_JS_3);
    s.append(ok_json);
    s.append(LOCKED_JS_4);
    s
}

/// The script of the dialog that says a lock keeps the app open: the
/// localised title, body template and button label, and the reason, each
/// placed into the script as a JSON string literal.
pub fn build_locked_modal_js(reason: &str, locked_title: &str, locked_body: &str, locked_ok: &str) -> (res:
    String)
    ensures
        res@ == locked_modal_script(
            json_literal(locked_title@),
            json_literal(locked_body@),
            json_literal(reason@),
            json_literal(locked_ok@),
        ),
{
    let reason_json = json_or(reason, "\"a lock is active\"");
    let title_json = json_or(locked_title, "");
    let body_json = json_or(locked_body, "");
    let ok_json = json_or(locked_ok, "");
    locked_modal_js(reason_json.as_str(), title_json.as_str(), body_json.as_str(), ok_json.as_str())
}

/// The extension dialog's script for a browser, from texts that are already
/// JSON literals.
pub fn extension_modal_js(
    browser_name: &str,
    title_json: &str,
    body_json: &str,
    install_json: &str,
    dismiss_json: &str,
) -> (res: String)
    ensures
        res@ == extension_modal_script(browser_name@, title_json@, body_json@, install_json@, dismiss_json@),
{
    let (store_url, store_type) = extension_store_url(browser_name);
    let browser_exe = browser_launch_cmd(browser_name);
    let store_label = if str_eq(store_type, "firefox") {
        "Firefox Add-ons"
    } else {
        "Chrome Web Store"
    };
    let mut s = String::from_str(EXTENSION_JS_0);
    s.append(title_json);
    s.append(EXTENSION_JS_1);
    s.append(body_json);
    s.append(EXTENSION_JS_2);
    s.append(browser_name);
    s.append(EXTENSION_JS_3);
    s.append(store_label);
    s.append(EXTENSION_JS_4);
    s.append(install_json);
    s.append(EXTENSION_JS_5);
    s.append(browser_name);
    s.append(EXTENSION_JS_6);
    s.append(browser_exe);
    s.append(EXTENSION_JS_7);
    s.append(store_url);
    s.append(EXTENSION_JS_8);
    s.append(dismiss_json);
    s.append(EXTENSION_JS_9);
    s
}

/// The script of the dialog that asks for the browser extension: the store
/// and launch command that belong to the browser, the browser's name as
/// given, and the localised texts, each placed into the script as a JSON
/// string literal.
pub fn build_extension_modal_js(
    browser_name: &str,
    extension_title: &str,
    extension_body: &str,
    extension_install: &str,
    extension_dismiss: &str,
) -> (res: String)
    ensures
        res@ == extension_modal_script(
            browser_name@,
            json_literal(extension_title@),
            json_literal(extension_body@),
            json_literal(extension_install@),
            json_literal(extension_dismiss@),
        ),
{
    let title_json = json_or(extension_title, "");
    let body_json = json_or(extension_body, "");
    let install_json = json_or(extension_install, "");
    let dismiss_json = json_or(extension_dismiss, "");
    extension_modal_js(
        browser_name,
        title_json.as_str(),
        body_json.as_str(),
        install_json.as_str(),
        dismiss_json.as_str(),
    )
}

} // verus!
