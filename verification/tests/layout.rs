use georuggine::dashboard::{App, ChatEntry, Panel, StatsStep};
use georuggine::time::Timestamp;
use georuggine::layout::{chat_line_text, help_bar_text, size_too_small, status_label, user_row_text};
use georuggine::user_status::UserStatus;

#[test]
fn testo_vuoto_conta_una_riga() {
    assert_eq!(App::wrapped_line_count("", 20), 1);
}

#[test]
fn larghezza_zero_conta_una_riga() {
    assert_eq!(App::wrapped_line_count("qualsiasi cosa", 0), 1);
}

#[test]
fn testo_corto_sta_in_una_riga() {
    assert_eq!(App::wrapped_line_count("ciao mondo", 20), 1);
}

#[test]
fn testo_lungo_va_a_capo() {
    assert_eq!(App::wrapped_line_count("ciao mondo", 8), 2);
}

#[test]
fn a_capo_esplicito_viene_rispettato() {
    assert_eq!(App::wrapped_line_count("prima\nseconda", 20), 2);
}

#[test]
fn testo_molto_lungo_va_a_capo_piu_volte() {
    assert_eq!(App::wrapped_line_count("uno due tre quattro", 4), 4);
}

#[test]
fn cursore_su_testo_vuoto_e_in_origine() {
    assert_eq!(App::wrapped_cursor_position("", 20), (0, 0));
}

#[test]
fn cursore_su_testo_corto_resta_sulla_prima_riga() {
    assert_eq!(App::wrapped_cursor_position("ciao mondo", 20), (0, 10));
}

#[test]
fn cursore_dopo_un_a_capo_e_sulla_seconda_riga() {
    assert_eq!(App::wrapped_cursor_position("ciao mondo", 8), (1, 5));
}

#[test]
fn contenuto_che_ci_sta_tutto_non_scorre() {
    assert_eq!(App::scroll_offset(3, 7, 0), 0);
    assert_eq!(App::scroll_offset(3, 7, 10), 0);
}

#[test]
fn senza_scroll_manuale_si_vede_il_fondo() {
    assert_eq!(App::scroll_offset(10, 7, 0), 5);
}

#[test]
fn scroll_manuale_riduce_l_offset() {
    assert_eq!(App::scroll_offset(10, 7, 3), 2);
}

#[test]
fn scroll_oltre_il_massimo_si_ferma_all_inizio() {
    assert_eq!(App::scroll_offset(10, 7, 5), 0);
    assert_eq!(App::scroll_offset(10, 7, 100), 0);
}

#[test]
fn trailing_line_feed_adds_an_empty_row() {
    assert_eq!(App::wrapped_line_count("ciao\n", 20), 2);
    assert_eq!(App::wrapped_line_count("\n\n", 20), 3);
}

#[test]
fn word_longer_than_width_takes_its_own_row() {
    assert_eq!(App::wrapped_line_count("a lunghissima b", 3), 3);
    assert_eq!(App::wrapped_cursor_position("a lunghissima", 3), (1, 11));
}

#[test]
fn runs_of_spaces_count_as_one_separator() {
    assert_eq!(App::wrapped_line_count("ciao    mondo", 10), 1);
    assert_eq!(App::wrapped_cursor_position("  ciao   ", 20), (0, 4));
}

#[test]
fn accented_letters_count_as_one_column() {
    assert_eq!(App::wrapped_cursor_position("perché così", 20), (0, 11));
    assert_eq!(App::wrapped_line_count("perché così", 10), 2);
}

#[test]
fn cursor_treats_line_feeds_as_spaces() {
    assert_eq!(App::wrapped_cursor_position("prima\nseconda", 20), (0, 13));
}

#[test]
fn zero_width_cursor_stays_at_origin() {
    assert_eq!(App::wrapped_cursor_position("qualsiasi cosa", 0), (0, 0));
}

#[test]
fn short_panels_show_nothing_inside() {
    assert_eq!(App::scroll_offset(3, 1, 0), 3);
    assert_eq!(App::scroll_offset(0, 0, 0), 0);
}

#[test]
fn scroll_indicator_tells_the_free_directions() {
    assert_eq!(App::scroll_indicator(3, 7, 0), "");
    assert_eq!(App::scroll_indicator(10, 7, 5), " \u{2191}");
    assert_eq!(App::scroll_indicator(10, 7, 0), " \u{2193}");
    assert_eq!(App::scroll_indicator(10, 7, 2), " \u{2191}/\u{2193}");
}

#[test]
fn terminal_size_limits() {
    assert!(size_too_small(79, 24));
    assert!(size_too_small(80, 23));
    assert!(!size_too_small(80, 24));
}

#[test]
fn status_labels_and_rows() {
    assert_eq!(status_label(UserStatus::InMovimento), "[In movimento]");
    assert_eq!(user_row_text("mario", UserStatus::Fermo), "mario [Fermo]");
    assert_eq!(user_row_text("anna", UserStatus::Problema), "anna [Problema]");
    assert_eq!(user_row_text("luigi", UserStatus::Sconnesso), "luigi [Sconnesso]");
}

#[test]
fn help_bar_names_the_keys_of_the_focused_panel() {
    assert_eq!(
        help_bar_text(Panel::Users, StatsStep::SelectUser),
        "Tab/Shift+Tab: cambia riquadro \u{b7} \u{2191}/\u{2193}: scorri la lista \u{b7} Esc: esci"
    );
    assert_eq!(
        help_bar_text(Panel::StatsSelect, StatsStep::SelectPeriod),
        "Tab/Shift+Tab: cambia riquadro \u{b7} \u{2191}/\u{2193}: cambia periodo \u{b7} Invio: interroga statistiche \u{b7} Backspace: torna alla scelta utente \u{b7} Esc: esci"
    );
}

#[test]
fn checked_row_count_matches_the_count() {
    assert_eq!(App::wrapped_line_count_checked("ciao mondo", 8), Some(2));
    assert_eq!(App::wrapped_line_count_checked("", 0), Some(1));
    assert_eq!(App::wrapped_cursor_position_checked("ciao mondo", 8), Some((1, 5)));
}

#[test]
fn checked_row_count_refuses_what_does_not_fit() {
    let lines = "\n".repeat(70_000);
    assert_eq!(App::wrapped_line_count_checked(&lines, 10), None);
    let exact = "\n".repeat(65_534);
    assert_eq!(App::wrapped_line_count_checked(&exact, 10), Some(65_535));
    let words = "a ".repeat(70_000);
    assert_eq!(App::wrapped_cursor_position_checked(&words, 1), None);
    assert_eq!(App::wrapped_line_count_checked(&words, 1), None);
}

#[test]
fn chat_lines_carry_time_and_direction() {
    let entry = |from_me: bool, is_system: bool| ChatEntry {
        from_me,
        is_system,
        text: "ciao".to_string(),
        timestamp: Timestamp { secs: 0, nanos: 0 },
    };
    assert_eq!(chat_line_text("10:00:00", &entry(true, false)), "[10:00:00] > ciao");
    assert_eq!(chat_line_text("10:00:00", &entry(false, false)), "[10:00:00] < ciao");
    assert_eq!(chat_line_text("10:00:00", &entry(false, true)), "[10:00:00] [sistema] ciao");
}

#[test]
fn every_unicode_space_separates_words() {
    assert_eq!(App::wrapped_line_count("a\u{3000}b", 1), 2);
    assert_eq!(App::wrapped_line_count("a\u{a0}b", 1), 2);
    assert_eq!(App::wrapped_line_count("a\u{200b}b", 1), 1);
}
