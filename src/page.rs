use vstd::prelude::*;
use vstd::string::*;

verus! {

/// `pattern` occurs in `text` as a run of consecutive characters.
pub open spec fn has_substring(text: Seq<char>, pattern: Seq<char>) -> bool {
    exists|i: int| 0 <= i && i + pattern.len() <= text.len() && #[trigger] text.subrange(i, i + pattern.len()) == pattern
}

/// Relies on str::contains, documented to tell whether the pattern matches
/// a sub-slice of the string.
#[verifier::external_body]
fn text_contains(text: &str, pattern: &str) -> (r: bool)
    ensures
        r == has_substring(text@, pattern@),
{
    text.contains(pattern)
}

/// The marker of a page served to a visitor who is not logged in.
pub open spec fn logged_out_marker() -> Seq<char> {
    "You must be logged in"@
}

/// The heading of the page that lists the games waiting for the player.
pub open spec fn turn_page_heading() -> Seq<char> {
    "Your Turn Games"@
}

/// Whether the page was served to a visitor who is not logged in.
pub fn needs_login(page: &str) -> (r: bool)
    ensures
        r == has_substring(page@, logged_out_marker()),
{
    text_contains(page, "You must be logged in")
}

/// Whether the page carries the heading of the list of pending games.
pub fn is_turn_page(page: &str) -> (r: bool)
    ensures
        r == has_substring(page@, turn_page_heading()),
{
    text_contains(page, "Your Turn Games")
}

/// The four words that a login form shows.
pub open spec fn looks_like_login_form_spec(page: Seq<char>) -> bool {
    has_substring(page, "Login"@) && has_substring(page, "Username"@) && has_substring(page, "Password"@)
        && has_substring(page, "Forgot Password"@)
}

/// Whether a page still reads like the login form (worth a warning after
/// logging in; the next fetch decides).
pub fn looks_like_login_form(page: &str) -> (r: bool)
    ensures
        r == looks_like_login_form_spec(page@),
{
    text_contains(page, "Login") && text_contains(page, "Username") && text_contains(page, "Password")
        && text_contains(page, "Forgot Password")
}

/// What the session does after a fetch of the games page.
#[derive(Debug, PartialEq, Eq, Structural)]
pub enum SessionStep {
    /// The page was served to a logged-in visitor.
    Ready,
    /// Log in, then fetch the page again.
    LogIn,
    /// Logged out again after logging in: the run fails.
    Failed,
}

/// The next step after fetching the games page; `logged_in_once` tells
/// whether this run already logged in.
pub fn session_step(page: &str, logged_in_once: bool) -> (r: SessionStep)
    ensures
        r == (if !has_substring(page@, logged_out_marker()) {
            SessionStep::Ready
        } else if !logged_in_once {
            SessionStep::LogIn
        } else {
            SessionStep::Failed
        }),
{
    if !needs_login(page) {
        SessionStep::Ready
    } else if !logged_in_once {
        SessionStep::LogIn
    } else {
        SessionStep::Failed
    }
}

} // verus!
