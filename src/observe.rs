use crate::extract::{
    lemma_canonical_by_contents,
    all_captures_of, extract_turn_info, first_capture_of, found_link_ids, game_link_pattern,
    start_count_pattern, strictly_ascending, total_count, turn_count_pattern, captured_count,
};
use crate::message::{build_discord_message, message_text};
use crate::signature::{make_signature, sha256_hex_of, signature_source};
use crate::state::{saved_state, signature_changed, success_status, RunError, State};
use vstd::prelude::*;

verus! {

/// What one look at the games page found.
pub struct Observation {
    /// Whether the pending games changed since the stored observation.
    pub changed: bool,
    /// The number of pending games.
    pub count: u32,
    /// The ids of the linked games, ascending, each once.
    pub ids: Vec<u32>,
}

/// Reads the games page, fingerprints what it lists and records that in
/// the state with the current cookie jar, telling whether it changed from
/// the signature stored before.
pub fn observe(state: &mut State, page: &str, cookies_json: String) -> (r: Observation)
    ensures
        r.count == total_count(
            captured_count(first_capture_of(page@, turn_count_pattern())),
            captured_count(first_capture_of(page@, start_count_pattern())),
        ),
        strictly_ascending(r.ids@),
        r.ids@.to_set() == found_link_ids(all_captures_of(page@, game_link_pattern())),
        final(state).sig@ == sha256_hex_of(signature_source(r.count, r.ids@)),
        final(state).sig@.len() > 0,
        r.changed == signature_changed(old(state).sig@, final(state).sig@),
        final(state).count == Some(r.count),
        final(state).cookies_json == Some(cookies_json),
{
    let (count, ids) = extract_turn_info(page);
    let sig = make_signature(count, ids.as_slice());
    proof {
        lemma_canonical_by_contents(ids@, ids@);
    }
    let changed = state.record(sig, count, cookies_json);
    Observation { changed, count, ids }
}

/// The message to send for an observation: one only where it changed.
pub fn notification(obs: &Observation) -> (r: Option<String>)
    ensures
        obs.changed ==> r is Some && r->Some_0@ == message_text(obs.count, obs.ids@),
        !obs.changed ==> r is None,
{
    if obs.changed {
        Some(build_discord_message(obs.count, obs.ids.as_slice()))
    } else {
        None
    }
}

/// What follows the write of the state: on success, the message to send
/// (one only where the observation changed); on failure, the storage error
/// and no message, so that nothing is sent for a state that was not kept.
pub fn after_save(status: u16, obs: &Observation) -> (r: Result<Option<String>, RunError>)
    ensures
        !success_status(status) ==> r == Err::<Option<String>, RunError>(RunError::Storage { status }),
        success_status(status) ==> r is Ok && (obs.changed <==> r->Ok_0 is Some),
        success_status(status) && obs.changed ==> r->Ok_0->Some_0@ == message_text(obs.count, obs.ids@),
{
    match saved_state(status) {
        Ok(()) => Ok(notification(obs)),
        Err(e) => Err(e),
    }
}

} // verus!
