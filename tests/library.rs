use awbw_turn_checker::{
    after_save,
    build_discord_message, extract_turn_info, is_changed, is_success, is_turn_page, login_form,
    login_form_from_page, looks_like_login_form, make_signature, needs_login, notification,
    notified, observe, parse_u32, saved_state, session_step, signature_source_text, state_read_url,
    state_write_url,
    turn_info_from_captures, FormInput, RunError, SessionStep, State,
};

fn s(t: &str) -> String {
    t.to_string()
}

#[test]
fn parse_u32_reads_digits_only() {
    assert_eq!(parse_u32("0"), Some(0));
    assert_eq!(parse_u32("123"), Some(123));
    assert_eq!(parse_u32("4294967295"), Some(u32::MAX));
    assert_eq!(parse_u32("4294967296"), None);
    assert_eq!(parse_u32(""), None);
    assert_eq!(parse_u32("12a"), None);
    assert_eq!(parse_u32("+5"), None);
}

#[test]
fn extract_is_canonical_whatever_the_link_order() {
    let a = r#"<a href="game.php?games_id=30"></a><a href='game.php?games_id=10'></a><a href=game.php?games_id=20></a>"#;
    let b = r#"<a href="game.php?games_id=20"></a><a href="game.php?games_id=30"></a><a href="game.php?games_id=10"></a><a href="game.php?games_id=20"></a>"#;
    let (ca, ia) = extract_turn_info(a);
    let (cb, ib) = extract_turn_info(b);
    assert_eq!(ia, vec![10, 20, 30]);
    assert_eq!(ia, ib);
    assert_eq!((ca, cb), (0, 0));
    assert_eq!(extract_turn_info(a), extract_turn_info(a));
}

#[test]
fn extract_degrades_to_nothing_on_unknown_markup() {
    assert_eq!(extract_turn_info(""), (0, vec![]));
    assert_eq!(extract_turn_info("<p>maintenance</p>"), (0, vec![]));
    assert_eq!(extract_turn_info("Your Turn Games (99999999999)"), (0, vec![]));
}

#[test]
fn extract_adds_both_counts() {
    let html = "Your Games Waiting to Start (4) Your Turn Games   (7)";
    assert_eq!(extract_turn_info(html), (11, vec![]));
}

#[test]
fn turn_info_from_captures_sums_and_sorts() {
    let links = Some(vec![Some(s("5")), None, Some(s("x")), Some(s("3")), Some(s("5"))]);
    let (count, ids) = turn_info_from_captures(Some(s("2")), Some(s("1")), links);
    assert_eq!(count, 3);
    assert_eq!(ids, vec![3, 5]);
    let (count, ids) = turn_info_from_captures(Some(s("4294967295")), Some(s("1")), None);
    assert_eq!(count, u32::MAX);
    assert!(ids.is_empty());
}

#[test]
fn signature_source_joins_ids_or_uses_count() {
    assert_eq!(signature_source_text(5, &[]), "count:5");
    assert_eq!(signature_source_text(0, &[10, 20]), "10,20");
    assert_eq!(signature_source_text(9, &[7]), "7");
    assert_eq!(signature_source_text(0, &[20, 10, 20]), "10,20");
}

#[test]
fn signature_depends_on_the_id_set_only() {
    assert_eq!(make_signature(4, &[3, 1, 2]), make_signature(4, &[1, 2, 3]));
    assert_eq!(make_signature(4, &[2, 2, 1, 1]), make_signature(4, &[1, 2]));
    assert_ne!(make_signature(4, &[1, 2]), make_signature(4, &[1, 3]));
}

#[test]
fn signature_is_a_hex_digest() {
    let sig = make_signature(3, &[]);
    assert_eq!(sig.len(), 64);
    assert!(sig.chars().all(|c| c.is_ascii_digit() || ('a'..='f').contains(&c)));
    assert_ne!(sig, "count:3");
    assert_eq!(sig, make_signature(3, &[]));
}

#[test]
fn signature_ignores_count_when_ids_present() {
    assert_eq!(make_signature(1, &[10, 20]), make_signature(2, &[10, 20]));
    assert_ne!(make_signature(1, &[]), make_signature(2, &[]));
    assert_ne!(make_signature(1, &[1, 23]), make_signature(1, &[12, 3]));
}

#[test]
fn empty_stored_signature_is_never_a_change() {
    assert!(!is_changed(&s(""), &s("abc")));
    assert!(!is_changed(&s(""), &s("")));
}

#[test]
fn differing_signatures_are_a_change() {
    assert!(is_changed(&s("a"), &s("b")));
    assert!(!is_changed(&s("a"), &s("a")));
}

#[test]
fn no_games_message_says_so_once() {
    let msg = build_discord_message(0, &[]);
    assert_eq!(msg.matches("No pending").count(), 1);
    assert!(!msg.contains("game.php"));
}

#[test]
fn count_only_message_has_only_the_aggregate_link() {
    let msg = build_discord_message(1, &[]);
    assert!(msg.contains("(1)"));
    assert_eq!(msg.matches("](").count(), 1);
    assert!(!msg.contains("games_id"));
}

#[test]
fn two_games_message_lists_both_without_more() {
    let msg = build_discord_message(2, &[111, 222]);
    assert!(msg.contains("(2)"));
    assert_eq!(msg.matches("games_id=").count(), 2);
    assert!(msg.find("games_id=111").unwrap() < msg.find("games_id=222").unwrap());
    assert!(!msg.contains("more"));
}

#[test]
fn six_games_message_shows_five_and_one_more() {
    let msg = build_discord_message(6, &[1, 2, 3, 4, 5, 6]);
    assert_eq!(msg.matches("games_id=").count(), 5);
    assert!(!msg.contains("games_id=6"));
    assert!(msg.ends_with("+1 more"));
    let msg = build_discord_message(12, &[1, 2, 3, 4, 5, 6, 7, 8, 9, 10, 11, 12]);
    assert!(msg.ends_with("+7 more"));
}

#[test]
fn not_found_state_read_is_the_initial_state() {
    let st = awbw_turn_checker::loaded_state(404, None).unwrap();
    assert_eq!(st.sig, "");
    assert_eq!(st.count, None);
    assert_eq!(st.cookies_json, None);
}

#[test]
fn state_read_errors() {
    assert_eq!(awbw_turn_checker::loaded_state(200, None).err(), Some(RunError::StateDecode));
    assert_eq!(
        awbw_turn_checker::loaded_state(503, None).err(),
        Some(RunError::Storage { status: 503 })
    );
    let stored = State { sig: s("abc"), count: Some(2), cookies_json: None };
    let st = awbw_turn_checker::loaded_state(200, Some(stored)).unwrap();
    assert_eq!(st.sig, "abc");
    assert_eq!(st.count, Some(2));
}

#[test]
fn store_and_webhook_statuses() {
    assert!(is_success(200) && is_success(204) && !is_success(300) && !is_success(199));
    assert_eq!(saved_state(200), Ok(()));
    assert_eq!(saved_state(403), Err(RunError::Storage { status: 403 }));
    assert_eq!(notified(204), Ok(()));
    assert_eq!(notified(429), Err(RunError::Notification { status: 429 }));
}

#[test]
fn page_markers() {
    assert!(needs_login("<p>You must be logged in to see this</p>"));
    assert!(!needs_login("Your Turn Games (0)"));
    assert!(is_turn_page("<h1>Your Turn Games (0)</h1>"));
    assert!(!is_turn_page("<h1>Login</h1>"));
    assert!(looks_like_login_form("Login Username Password Forgot Password"));
    assert!(!looks_like_login_form("Login Username Password"));
}

#[test]
fn session_steps() {
    assert_eq!(session_step("welcome", false), SessionStep::Ready);
    assert_eq!(session_step("You must be logged in", false), SessionStep::LogIn);
    assert_eq!(session_step("You must be logged in", true), SessionStep::Failed);
    assert_eq!(session_step("welcome", true), SessionStep::Ready);
}

#[test]
fn login_form_keeps_hidden_fields_and_sets_credentials() {
    let inputs = vec![
        FormInput { name: Some(s("token")), value: Some(s("t1")), kind: Some(s("HIDDEN")) },
        FormInput { name: Some(s("username")), value: Some(s("old")), kind: Some(s("hidden")) },
        FormInput { name: Some(s("remember")), value: Some(s("1")), kind: Some(s("checkbox")) },
        FormInput { name: None, value: Some(s("x")), kind: Some(s("hidden")) },
        FormInput { name: Some(s("empty")), value: None, kind: Some(s("Hidden")) },
        FormInput { name: Some(s("token")), value: Some(s("t2")), kind: Some(s("hidden")) },
    ];
    let mut fields = login_form(&inputs, "me", "pw");
    fields.sort();
    assert_eq!(
        fields,
        vec![
            (s("empty"), s("")),
            (s("password"), s("pw")),
            (s("token"), s("t2")),
            (s("username"), s("me")),
        ]
    );
}

#[test]
fn login_form_from_page_reads_hidden_inputs() {
    let page = r#"<html><body><form action="login.php" method="post">
        <input type="hidden" name="csrf" value="abc123">
        <input type="text" name="username">
        <input type="password" name="password">
        </form><input type="hidden" name="outside" value="no"></body></html>"#;
    let mut fields = login_form_from_page(page, "me", "pw").unwrap();
    fields.sort();
    assert_eq!(
        fields,
        vec![(s("csrf"), s("abc123")), (s("password"), s("pw")), (s("username"), s("me"))]
    );
}

#[test]
fn observe_bootstraps_then_detects_changes() {
    let mut st = State::default();
    let page_a = r#"Your Turn Games (1) <a href="game.php?games_id=7">g</a>"#;
    let page_b = r#"Your Turn Games (2) <a href="game.php?games_id=7">g</a><a href="game.php?games_id=9">g</a>"#;
    let first = observe(&mut st, page_a, s("{}"));
    assert!(!first.changed);
    assert_eq!(first.count, 1);
    assert_eq!(st.sig, make_signature(1, &[7]));
    assert_eq!(st.count, Some(1));
    assert_eq!(st.cookies_json, Some(s("{}")));
    assert!(notification(&first).is_none());
    let again = observe(&mut st, page_a, s("{}"));
    assert!(!again.changed);
    let second = observe(&mut st, page_b, s("{\"c\":1}"));
    assert!(second.changed);
    assert_eq!(second.ids, vec![7, 9]);
    assert_eq!(notification(&second), Some(build_discord_message(2, &[7, 9])));
}

#[test]
fn storage_urls_encode_the_object_name() {
    assert_eq!(
        state_read_url("bkt", "state.json"),
        "https://storage.googleapis.com/storage/v1/b/bkt/o/state.json?alt=media"
    );
    assert_eq!(
        state_read_url("bkt", "a b/c.json"),
        "https://storage.googleapis.com/storage/v1/b/bkt/o/a%20b%2Fc.json?alt=media"
    );
    assert_eq!(
        state_write_url("bkt", "dir/state.json"),
        "https://storage.googleapis.com/upload/storage/v1/b/bkt/o?uploadType=media&name=dir%2Fstate.json"
    );
}

#[test]
fn message_is_released_only_after_a_successful_save() {
    let mut st = State::default();
    observe(&mut st, r#"<a href="game.php?games_id=1">g</a>"#, s("{}"));
    let obs = observe(&mut st, r#"<a href="game.php?games_id=2">g</a>"#, s("{}"));
    assert!(obs.changed);
    assert_eq!(after_save(500, &obs), Err(RunError::Storage { status: 500 }));
    assert_eq!(after_save(200, &obs), Ok(Some(build_discord_message(0, &[2]))));
    let same = observe(&mut st, r#"<a href="game.php?games_id=2">g</a>"#, s("{}"));
    assert_eq!(after_save(200, &same), Ok(None));
}
