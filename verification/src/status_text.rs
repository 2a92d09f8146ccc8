//! The status bar's text while the agent is working.

use vstd::prelude::*;

verus! {

/// Shown while a request waits on a blocking refresh of Gemini Enterprise
/// credentials.
pub const REFRESHING_CREDENTIALS_MESSAGE: &'static str = "Refreshing Gemini Enterprise credentials...";

/// The default text while the agent works.
pub const LOAD_OUTPUT_MESSAGE: &'static str = "Warping...";

/// The working text: the credential-refresh text while a request waits on
/// a blocking refresh (it takes precedence), else the fallback-model text
/// when there is one, else the default.
pub fn resolve_default_warping_text<'a>(credential_refresh_text_visible: bool, fallback_text: Option<&'a str>) -> (r: &'a str)
    ensures
        r@ == if credential_refresh_text_visible {
            REFRESHING_CREDENTIALS_MESSAGE@
        } else {
            match fallback_text {
                Some(t) => t@,
                None => LOAD_OUTPUT_MESSAGE@,
            }
        },
{
    if credential_refresh_text_visible {
        REFRESHING_CREDENTIALS_MESSAGE
    } else {
        match fallback_text {
            Some(t) => t,
            None => LOAD_OUTPUT_MESSAGE,
        }
    }
}

} // verus!
