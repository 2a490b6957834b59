use georuggine::auth::hash_password;
use georuggine::session::{
    begin_deletion, begin_registration, try_begin_deletion, clean_connection, finish_deletion, finish_registration,
    handle_login, malformed_request_reply, new_session, position_stored, route_request,
    shutdown_notice, stats_user_not_found_reply, user_not_found_reply, watchdog_expired,
    ClientRequest, DeletionStep, RegistrationStart, Route, ServerReply, Session, UserRecord,
};
use georuggine::time::{Timestamp, TimePeriod};
use georuggine::tracking::{Place, TrackSample};
use georuggine::user_status::{
    add_user_to_status_map, get_user_info, update_user_status, Info, StatusMap, StatusUpdate,
    UserStatus,
};

fn s(x: &str) -> String {
    x.to_string()
}

fn logged_in(user: &str) -> Session {
    let mut session = new_session();
    session.authenticated_user = Some(s(user));
    session
}

fn record(user: &str, password: &str) -> UserRecord {
    UserRecord { id: Some(1), username: s(user), password_hash: hash_password(password).unwrap() }
}

fn sample() -> TrackSample {
    TrackSample { place: Place { lat: Some(1), lon: Some(2) }, at: Timestamp { secs: 10, nanos: 0 } }
}

#[test]
fn position_update_without_login_is_answered_with_an_error() {
    let session = new_session();
    match route_request(&session, ClientRequest::PositionUpdate { position: sample() }) {
        Route::Reply(ServerReply::Error { message }) => {
            assert_eq!(message, "Devi essere autenticato per inviare aggiornamenti di posizione.")
        },
        other => panic!("unexpected {other:?}"),
    }
}

#[test]
fn position_update_after_login_is_tracked_for_the_user() {
    let session = logged_in("mario");
    match route_request(&session, ClientRequest::PositionUpdate { position: sample() }) {
        Route::Track { username, position } => {
            assert_eq!(username, "mario");
            assert_eq!(position, sample());
        },
        other => panic!("unexpected {other:?}"),
    }
}

#[test]
fn chat_message_without_login_gets_no_answer() {
    let session = new_session();
    let r = route_request(
        &session,
        ClientRequest::ChatMessage { message: s("ciao"), timestamp: Timestamp { secs: 0, nanos: 0 } },
    );
    assert!(matches!(r, Route::Ignore));
}

#[test]
fn chat_message_after_login_reaches_the_operator() {
    let session = logged_in("mario");
    let r = route_request(
        &session,
        ClientRequest::ChatMessage { message: s("ciao operatore"), timestamp: Timestamp { secs: 5, nanos: 0 } },
    );
    match r {
        Route::ForwardChat(incoming) => {
            assert_eq!(incoming.from_username, "mario");
            assert_eq!(incoming.message, "ciao operatore");
            assert_eq!(incoming.timestamp, Timestamp { secs: 5, nanos: 0 });
        },
        other => panic!("unexpected {other:?}"),
    }
}

#[test]
fn statistics_are_for_the_logged_in_user() {
    let session = logged_in("anna");
    match route_request(&session, ClientRequest::QueryStats { period: TimePeriod::ThisWeek }) {
        Route::Stats { username, period } => {
            assert_eq!(username, "anna");
            assert_eq!(period, TimePeriod::ThisWeek);
        },
        other => panic!("unexpected {other:?}"),
    }
}

#[test]
fn login_with_wrong_then_right_password() {
    let mut session = new_session();
    let out = handle_login(&mut session, s("anna_test"), "password_sbagliata", Ok(Some(record("anna_test", "password_giusta"))), false);
    assert!(matches!(out.reply, ServerReply::AuthResult { success: false, .. }));
    assert!(!out.register_connection);
    assert!(session.authenticated_user.is_none());
    let out = handle_login(&mut session, s("anna_test"), "password_giusta", Ok(Some(record("anna_test", "password_giusta"))), false);
    assert!(matches!(out.reply, ServerReply::AuthResult { success: true, reason: None }));
    assert!(out.register_connection);
    assert_eq!(session.authenticated_user, Some(s("anna_test")));
}

#[test]
fn login_of_unknown_user_is_refused() {
    let mut session = new_session();
    let out = handle_login(&mut session, s("fantasma"), "x", Ok(None), false);
    match out.reply {
        ServerReply::AuthResult { success, reason } => {
            assert!(!success);
            assert_eq!(reason.as_deref(), Some("Credenziali non valide"));
        },
        other => panic!("unexpected {other:?}"),
    }
}

#[test]
fn login_while_connected_elsewhere_is_refused() {
    let mut session = new_session();
    let out = handle_login(&mut session, s("mario"), "pw", Ok(Some(record("mario", "pw"))), true);
    match out.reply {
        ServerReply::AuthResult { success, reason } => {
            assert!(!success);
            assert_eq!(reason.as_deref(), Some("Utente già connesso da un altro dispositivo"));
        },
        other => panic!("unexpected {other:?}"),
    }
    assert!(session.authenticated_user.is_none());
}

#[test]
fn login_store_failure_is_reported() {
    let mut session = new_session();
    let out = handle_login(&mut session, s("mario"), "pw", Err(s("disco pieno")), false);
    match out.reply {
        ServerReply::Error { message } => {
            assert_eq!(message, "Errore interno del server durante il recupero utente: disco pieno")
        },
        other => panic!("unexpected {other:?}"),
    }
    assert_eq!(out.operator_error, Some(s("Errore DB durante login di mario: disco pieno")));
}

#[test]
fn registrazione_con_username_duplicato_viene_rifiutata_dalla_sessione() {
    match begin_registration("altra_password", true) {
        RegistrationStart::Refuse(ServerReply::AuthResult { success, reason }) => {
            assert!(!success);
            assert_eq!(reason.as_deref(), Some("Username già in uso."));
        },
        other => panic!("unexpected {other:?}"),
    }
}

#[test]
fn registration_stores_a_hash_and_logs_in() {
    let hash = match begin_registration("supersegreta", false) {
        RegistrationStart::Store { password_hash } => password_hash,
        other => panic!("unexpected {other:?}"),
    };
    assert!(georuggine::auth::verify_password(&hash, "supersegreta"));
    let mut session = new_session();
    let mut map = StatusMap::new();
    let end = finish_registration(&mut session, &mut map, s("mario"), Ok(()));
    assert!(matches!(end.reply, ServerReply::AuthResult { success: true, reason: None }));
    assert!(end.register_connection);
    assert_eq!(session.authenticated_user, Some(s("mario")));
    assert_eq!(get_user_info(&map, &s("mario")), Some(Info { status: UserStatus::Sconnesso, s: 0 }));
}

#[test]
fn registration_store_failure_is_answered() {
    let mut session = new_session();
    let mut map = StatusMap::new();
    let end = finish_registration(&mut session, &mut map, s("mario"), Err(s("vincolo violato")));
    match end.reply {
        ServerReply::AuthResult { success, reason } => {
            assert!(!success);
            assert_eq!(reason.as_deref(), Some("Errore durante la registrazione: vincolo violato"));
        },
        other => panic!("unexpected {other:?}"),
    }
    assert!(session.authenticated_user.is_none());
    assert_eq!(map.len(), 0);
}

#[test]
fn account_deletion_needs_login_and_password() {
    let anonymous = new_session();
    match begin_deletion(&anonymous, "x", Ok(None)) {
        DeletionStep::Reply { reply: ServerReply::AccountDeleted { success, reason }, operator_error } => {
            assert!(!success);
            assert_eq!(reason.as_deref(), Some("Devi essere autenticato per eliminare l'account."));
            assert!(operator_error.is_none());
        },
        other => panic!("unexpected {other:?}"),
    }
    let session = logged_in("mario_test");
    match begin_deletion(&session, "password_sbagliata", Ok(Some(record("mario_test", "supersegreta")))) {
        DeletionStep::Reply { reply: ServerReply::AccountDeleted { success, reason }, .. } => {
            assert!(!success);
            assert_eq!(reason.as_deref(), Some("Password errata."));
        },
        other => panic!("unexpected {other:?}"),
    }
    match begin_deletion(&session, "supersegreta", Ok(Some(record("mario_test", "supersegreta")))) {
        DeletionStep::Delete { user_id } => assert_eq!(user_id, 1),
        other => panic!("unexpected {other:?}"),
    }
    match begin_deletion(&session, "supersegreta", Err(s("guasto"))) {
        DeletionStep::Reply { reply: ServerReply::AccountDeleted { success, reason }, operator_error } => {
            assert!(!success);
            assert_eq!(reason.as_deref(), Some("Errore interno del server: guasto"));
            assert_eq!(operator_error, Some(s("Errore DB durante l'eliminazione di mario_test: guasto")));
        },
        other => panic!("unexpected {other:?}"),
    }
}

#[test]
fn deleted_account_leaves_table_and_session() {
    let mut session = logged_in("mario");
    let mut map = StatusMap::new();
    add_user_to_status_map(&mut map, s("mario"));
    let (reply, user) = finish_deletion(&mut session, &mut map);
    assert!(matches!(reply, ServerReply::AccountDeleted { success: true, reason: None }));
    assert_eq!(user, "mario");
    assert!(session.authenticated_user.is_none());
    assert!(get_user_info(&map, &s("mario")).is_none());
}

#[test]
fn closing_a_connection_shows_the_user_disconnected() {
    let session = logged_in("mario");
    let mut map = StatusMap::new();
    add_user_to_status_map(&mut map, s("mario"));
    update_user_status(&mut map, &s("mario"), UserStatus::InMovimento);
    let c = clean_connection(&session, &mut map);
    assert_eq!(c.user, Some(s("mario")));
    assert!(c.errors.is_empty());
    assert_eq!(get_user_info(&map, &s("mario")), Some(Info { status: UserStatus::Sconnesso, s: 0 }));

    let mut empty = StatusMap::new();
    let c = clean_connection(&session, &mut empty);
    assert_eq!(c.errors.len(), 2);
    assert_eq!(c.errors[0], "Utente mario non trovato nella mappa degli stati.");

    let c = clean_connection(&new_session(), &mut map);
    assert!(c.user.is_none());
}

#[test]
fn silent_vehicle_is_flagged() {
    let mut session = logged_in("mario");
    let mut map = StatusMap::new();
    add_user_to_status_map(&mut map, s("mario"));
    position_stored(&mut session);
    assert!(session.watchdog_armed);
    let r = watchdog_expired(&mut session, &mut map);
    assert_eq!(r, Some(StatusUpdate::Changed));
    assert!(!session.watchdog_armed);
    assert_eq!(get_user_info(&map, &s("mario")).unwrap().status, UserStatus::Problema);
    let mut anonymous = new_session();
    assert_eq!(watchdog_expired(&mut anonymous, &mut map), None);
}

#[test]
fn fixed_answers() {
    match shutdown_notice() {
        ServerReply::BroadcastMessage { message } => {
            assert_eq!(message, "Il server si sta arrestando, verrai disconnesso.")
        },
        other => panic!("unexpected {other:?}"),
    }
    match malformed_request_reply("expected value") {
        ServerReply::Error { message } => assert_eq!(message, "Formato messaggio non valido: expected value"),
        other => panic!("unexpected {other:?}"),
    }
    match user_not_found_reply() {
        ServerReply::Error { message } => assert_eq!(message, "Utente non trovato."),
        other => panic!("unexpected {other:?}"),
    }
    match stats_user_not_found_reply("luigi") {
        ServerReply::Error { message } => assert_eq!(message, "Utente 'luigi' non trovato"),
        other => panic!("unexpected {other:?}"),
    }
}

#[test]
fn deletion_of_a_record_without_id_is_flagged() {
    let session = logged_in("mario");
    let mut rec = record("mario", "supersegreta");
    rec.id = None;
    assert!(try_begin_deletion(&session, "supersegreta", Ok(Some(rec.clone()))).is_none());
    match try_begin_deletion(&session, "sbagliata", Ok(Some(rec))) {
        Some(DeletionStep::Reply { reply: ServerReply::AccountDeleted { success, reason }, .. }) => {
            assert!(!success);
            assert_eq!(reason.as_deref(), Some("Password errata."));
        },
        other => panic!("unexpected {other:?}"),
    }
    match try_begin_deletion(&session, "supersegreta", Ok(Some(record("mario", "supersegreta")))) {
        Some(DeletionStep::Delete { user_id }) => assert_eq!(user_id, 1),
        other => panic!("unexpected {other:?}"),
    }
}
