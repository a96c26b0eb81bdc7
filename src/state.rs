use vstd::prelude::*;
use vstd::string::*;

verus! {

/// What is kept between runs: the last signature (empty before the first
/// observation), the last count, and the serialized cookie jar.
pub struct State {
    pub sig: String,
    pub count: Option<u32>,
    pub cookies_json: Option<String>,
}

/// Why a run stops.
#[derive(Debug, PartialEq, Eq, Structural)]
pub enum RunError {
    /// Still logged out after logging in.
    Authentication,
    /// The state store answered with a status that is neither success nor
    /// "not found".
    Storage { status: u16 },
    /// The stored state could not be read back.
    StateDecode,
    /// The webhook answered with a status other than success.
    Notification { status: u16 },
}

/// The state before any observation.
pub open spec fn is_initial(s: State) -> bool {
    s.sig@.len() == 0 && s.count.is_none() && s.cookies_json.is_none()
}

impl Default for State {
    fn default() -> (r: State)
        ensures
            is_initial(r),
    {
        State { sig: String::new(), count: None, cookies_json: None }
    }
}

/// A change is a new signature that differs from a stored non-empty one.
pub open spec fn signature_changed(stored: Seq<char>, current: Seq<char>) -> bool {
    stored.len() > 0 && stored != current
}

/// Whether moving from the stored signature to the current one is a change
/// worth a notification; an empty stored signature never is.
pub fn is_changed(stored: &String, current: &String) -> (r: bool)
    ensures
        r == signature_changed(stored@, current@),
{
    stored.as_str().unicode_len() > 0 && !stored.eq(current)
}

impl State {
    /// Records an observation: the new signature, count and cookie jar.
    /// Returns whether the signature changed from the one stored before.
    pub fn record(&mut self, sig: String, count: u32, cookies_json: String) -> (changed: bool)
        ensures
            changed == signature_changed(old(self).sig@, sig@),
            final(self).sig@ == sig@,
            final(self).count == Some(count),
            final(self).cookies_json == Some(cookies_json),
    {
        let changed = is_changed(&self.sig, &sig);
        self.sig = sig;
        self.count = Some(count);
        self.cookies_json = Some(cookies_json);
        changed
    }
}

/// A 2xx status.
pub open spec fn success_status(status: u16) -> bool {
    200 <= status <= 299
}

pub open spec fn not_found_status() -> u16 {
    404
}

pub fn is_success(status: u16) -> (r: bool)
    ensures
        r == success_status(status),
{
    200 <= status && status <= 299
}

/// The state that a read of the store gives, from its status and, on
/// success, what its body decoded to: "not found" is the initial state.
pub fn loaded_state(status: u16, decoded: Option<State>) -> (r: Result<State, RunError>)
    ensures
        status == not_found_status() ==> r.is_ok() && is_initial(r->Ok_0),
        success_status(status) ==> match decoded {
            Some(s) => r == Ok::<State, RunError>(s),
            None => r == Err::<State, RunError>(RunError::StateDecode),
        },
        status != not_found_status() && !success_status(status) ==> r == Err::<State, RunError>(
            RunError::Storage { status },
        ),
{
    if status == 404 {
        Ok(State::default())
    } else if is_success(status) {
        match decoded {
            Some(s) => Ok(s),
            None => Err(RunError::StateDecode),
        }
    } else {
        Err(RunError::Storage { status })
    }
}

/// The outcome of writing the state, from the store's status.
pub fn saved_state(status: u16) -> (r: Result<(), RunError>)
    ensures
        r == (if success_status(status) {
            Ok::<(), RunError>(())
        } else {
            Err(RunError::Storage { status })
        }),
{
    if is_success(status) {
        Ok(())
    } else {
        Err(RunError::Storage { status })
    }
}

/// The outcome of posting the notification, from the webhook's status.
pub fn notified(status: u16) -> (r: Result<(), RunError>)
    ensures
        r == (if success_status(status) {
            Ok::<(), RunError>(())
        } else {
            Err(RunError::Notification { status })
        }),
{
    if is_success(status) {
        Ok(())
    } else {
        Err(RunError::Notification { status })
    }
}

} // verus!
