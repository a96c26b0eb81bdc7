//! Turn watcher for Advance Wars By Web: extracts pending turns from the
//! "your games" page, fingerprints them, decides when the set changed and
//! formats the notification, with the storage and session rules around it.

pub mod decimal;
pub mod extract;
pub mod form;
pub mod message;
pub mod observe;
pub mod page;
pub mod signature;
pub mod state;
pub mod storage;

pub use decimal::parse_u32;
pub use extract::{extract_turn_info, turn_info_from_captures};
pub use form::{login_form, login_form_from_page, FormInput};
pub use message::build_discord_message;
pub use observe::{after_save, notification, observe, Observation};
pub use page::{is_turn_page, looks_like_login_form, needs_login, session_step, SessionStep};
pub use signature::{make_signature, signature_source_text};
pub use state::{is_changed, is_success, loaded_state, notified, saved_state, RunError, State};
pub use storage::{state_read_url, state_write_url};
