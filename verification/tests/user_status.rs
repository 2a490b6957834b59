use georuggine::user_status::{
    add_user_to_status_map, get_user_info, init_status_map, remove_user_from_status_map,
    unknown_user_message, update_user_seconds, update_user_status, Info, StatusMap, StatusUpdate,
    UserStatus,
};

fn s(x: &str) -> String {
    x.to_string()
}

#[test]
fn utente_aggiunto_si_ritrova_sconnesso_con_zero_secondi() {
    let mut map = StatusMap::new();
    add_user_to_status_map(&mut map, s("mario"));
    let info = get_user_info(&map, &s("mario")).expect("l'utente dovrebbe esistere");
    assert_eq!(info.status, UserStatus::Sconnesso);
    assert_eq!(info.s, 0);
}

#[test]
fn utente_mai_aggiunto_restituisce_none() {
    let map = StatusMap::new();
    let info = get_user_info(&map, &s("fantasma"));
    assert!(info.is_none());
}

#[test]
fn aggiornare_lo_stato_di_un_utente_esistente_lo_cambia() {
    let mut map = StatusMap::new();
    add_user_to_status_map(&mut map, s("mario"));
    update_user_status(&mut map, &s("mario"), UserStatus::InMovimento);
    let info = get_user_info(&map, &s("mario")).unwrap();
    assert_eq!(info.status, UserStatus::InMovimento);
}

#[test]
fn cambiare_stato_notifica_la_ui() {
    let mut map = StatusMap::new();
    add_user_to_status_map(&mut map, s("mario"));
    let r = update_user_status(&mut map, &s("mario"), UserStatus::InMovimento);
    assert_eq!(r, StatusUpdate::Changed);
}

#[test]
fn impostare_lo_stesso_stato_non_notifica_la_ui() {
    let mut map = StatusMap::new();
    add_user_to_status_map(&mut map, s("mario"));
    let r = update_user_status(&mut map, &s("mario"), UserStatus::Sconnesso);
    assert_eq!(r, StatusUpdate::Unchanged);
}

#[test]
fn aggiornare_lo_stato_di_un_utente_sconosciuto_segnala_un_errore() {
    let mut map = StatusMap::new();
    let r = update_user_status(&mut map, &s("fantasma"), UserStatus::InMovimento);
    assert_eq!(r, StatusUpdate::UnknownUser);
    assert!(unknown_user_message("fantasma").contains("fantasma"));
    assert_eq!(map.len(), 0);
}

#[test]
fn aggiornare_i_secondi_di_un_utente_esistente_li_cambia() {
    let mut map = StatusMap::new();
    add_user_to_status_map(&mut map, s("mario"));
    assert!(update_user_seconds(&mut map, &s("mario"), 42));
    let info = get_user_info(&map, &s("mario")).unwrap();
    assert_eq!(info.s, 42);
}

#[test]
fn aggiornare_i_secondi_di_un_utente_sconosciuto_segnala_un_errore() {
    let mut map = StatusMap::new();
    assert!(!update_user_seconds(&mut map, &s("fantasma"), 42));
    assert_eq!(
        unknown_user_message("fantasma"),
        "Utente fantasma non trovato nella mappa degli stati."
    );
}

#[test]
fn rimuovere_un_utente_esistente_lo_toglie_dalla_mappa() {
    let mut map = StatusMap::new();
    add_user_to_status_map(&mut map, s("mario"));
    remove_user_from_status_map(&mut map, &s("mario"));
    assert!(get_user_info(&map, &s("mario")).is_none());
}

#[test]
fn rimuovere_un_utente_mai_aggiunto_non_fallisce() {
    let mut map = StatusMap::new();
    remove_user_from_status_map(&mut map, &s("fantasma"));
    assert_eq!(map.len(), 0);
}

#[test]
fn status_change_keeps_seconds_and_seconds_keep_status() {
    let mut map = StatusMap::new();
    add_user_to_status_map(&mut map, s("mario"));
    update_user_seconds(&mut map, &s("mario"), 7);
    update_user_status(&mut map, &s("mario"), UserStatus::Fermo);
    assert_eq!(get_user_info(&map, &s("mario")), Some(Info { status: UserStatus::Fermo, s: 7 }));
    update_user_seconds(&mut map, &s("mario"), 9);
    assert_eq!(get_user_info(&map, &s("mario")), Some(Info { status: UserStatus::Fermo, s: 9 }));
}

#[test]
fn init_puts_every_registered_user_disconnected() {
    let mut map = StatusMap::new();
    add_user_to_status_map(&mut map, s("anna"));
    update_user_status(&mut map, &s("anna"), UserStatus::InMovimento);
    init_status_map(&mut map, vec![s("mario"), s("anna"), s("mario")]);
    assert_eq!(map.len(), 2);
    assert_eq!(get_user_info(&map, &s("anna")), Some(Info { status: UserStatus::Sconnesso, s: 0 }));
    assert_eq!(get_user_info(&map, &s("mario")), Some(Info { status: UserStatus::Sconnesso, s: 0 }));
    let mut names = map.usernames();
    names.sort();
    assert_eq!(names, vec![s("anna"), s("mario")]);
}

#[test]
fn other_users_are_untouched() {
    let mut map = StatusMap::new();
    add_user_to_status_map(&mut map, s("mario"));
    add_user_to_status_map(&mut map, s("anna"));
    update_user_status(&mut map, &s("anna"), UserStatus::Problema);
    remove_user_from_status_map(&mut map, &s("mario"));
    assert_eq!(get_user_info(&map, &s("anna")), Some(Info { status: UserStatus::Problema, s: 0 }));
    assert_eq!(map.len(), 1);
}
