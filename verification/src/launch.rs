//! Opening Terminal for the arkcli login and install helpers.
//!
//! The AppleScripts are hard-coded (no user input is interpolated), so no
//! command can be injected through them.

use vstd::prelude::*;
use crate::std_text::{lossy_utf8_chars, trim, trimmed_chars, utf8_lossy};

verus! {

/// Opens Terminal running the browser-based arkcli SSO login.
pub const LOGIN_SCRIPT: &'static str = "tell application \"Terminal\" to do script \"arkcli auth login volc-sso\"";

/// Opens Terminal that installs `@volcengine/ark-cli` globally and then runs the SSO login.
pub const INSTALL_SCRIPT: &'static str = "tell application \"Terminal\" to do script \"npm install -g @volcengine/ark-cli && arkcli auth login volc-sso\"";

/// The result of running `osascript`: success, or its trimmed stderr.
pub fn script_outcome(success: bool, stderr: &[u8]) -> (r: Result<(), String>)
    ensures
        success ==> r is Ok,
        !success ==> (r matches Err(m) && m@ == trimmed_chars(lossy_utf8_chars(stderr@))),
{
    if success {
        Ok(())
    } else {
        let text = utf8_lossy(stderr);
        Err(String::from_str(trim(text.as_str())))
    }
}

} // verus!
