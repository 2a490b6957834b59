use georuggine::dashboard::{sort_users, App, IncomingChat, Key, Outbound, Panel, StatsStep, Users};
use georuggine::time::{TimePeriod, Timestamp};
use georuggine::user_status::UserStatus;

fn user(name: &str) -> Users {
    Users { username: name.to_string(), status: UserStatus::Sconnesso }
}

fn ts(secs: i64) -> Timestamp {
    Timestamp { secs, nanos: 0 }
}

fn app_with_connected(names: &[&str]) -> App {
    let mut app = App::new(vec![user("mario"), user("anna"), user("luigi")]);
    app.refresh_connected_users(names.iter().map(|n| n.to_string()).collect());
    app
}

#[test]
fn new_dashboard_lists_users_by_name() {
    let app = App::new(vec![user("mario"), user("anna"), user("luigi")]);
    let names: Vec<&str> = app.users.iter().map(|u| u.username.as_str()).collect();
    assert_eq!(names, vec!["anna", "luigi", "mario"]);
    assert!(app.focus == Panel::Users);
    assert!(app.connected_users.index_selected.is_none());
}

#[test]
fn sorting_is_by_bytes() {
    let sorted = sort_users(vec![user("b"), user("Z"), user("a"), user("ab"), user("\u{e8}")]);
    let names: Vec<&str> = sorted.iter().map(|u| u.username.as_str()).collect();
    assert_eq!(names, vec!["Z", "a", "ab", "b", "\u{e8}"]);
}

#[test]
fn tab_and_back_tab_walk_the_panels() {
    let mut app = App::new(vec![]);
    let mut seen = vec![app.focus];
    for _ in 0..8 {
        app.handle_key(Key::Tab);
        seen.push(app.focus);
    }
    assert!(seen[0] == Panel::Users && seen[8] == Panel::Users);
    assert!(seen[1] == Panel::BroadcastChat && seen[3] == Panel::SelectUser && seen[6] == Panel::StatsSelect);
    app.handle_key(Key::BackTab);
    assert!(app.focus == Panel::ErrorLog);
    app.handle_key(Key::Tab);
    assert!(app.focus == Panel::Users);
}

#[test]
fn esc_quits() {
    let mut app = App::new(vec![]);
    assert!(matches!(app.handle_key(Key::Esc), Outbound::Quit));
}

#[test]
fn selecting_a_connected_user_wraps_and_clears_unread() {
    let mut app = app_with_connected(&["mario", "anna"]);
    app.receive_chat(IncomingChat { from_username: "anna".to_string(), message: "ciao".to_string(), timestamp: ts(1) });
    assert_eq!(app.connected_users.connected_users[1].unread_count, 1);
    app.focus = Panel::SelectUser;
    app.handle_key(Key::Up);
    assert_eq!(app.connected_users.index_selected, Some(1));
    assert_eq!(app.connected_users.connected_users[1].unread_count, 0);
    app.handle_key(Key::Down);
    assert_eq!(app.connected_users.index_selected, Some(0));
    app.handle_key(Key::Up);
    assert_eq!(app.connected_users.index_selected, Some(1));
    app.receive_chat(IncomingChat { from_username: "anna".to_string(), message: "ancora".to_string(), timestamp: ts(2) });
    assert_eq!(app.connected_users.connected_users[1].unread_count, 0);
    assert_eq!(app.connected_users.connected_users[1].chat_log.len(), 2);
}

#[test]
fn writing_and_sending_a_private_message() {
    let mut app = app_with_connected(&["mario"]);
    app.focus = Panel::ChatInput;
    assert!(matches!(app.handle_key(Key::Char('x')), Outbound::Nothing));
    assert_eq!(app.chat_input, "");
    app.connected_users.index_selected = Some(0);
    for c in "ciao!".chars() {
        app.handle_key(Key::Char(c));
    }
    app.handle_key(Key::Backspace);
    assert_eq!(app.chat_input, "ciao");
    app.handle_key(Key::Up);
    assert_eq!(app.chat_input_scroll, 2);
    match app.handle_key(Key::Enter) {
        Outbound::SendChat { message } => assert_eq!(message, "ciao"),
        other => panic!("unexpected {other:?}"),
    }
    assert_eq!(app.chat_input, "");
    assert_eq!(app.chat_input_scroll, 0);
    assert!(matches!(app.handle_key(Key::Enter), Outbound::Nothing));
    app.record_sent_chat("ciao".to_string(), ts(3));
    assert!(app.connected_users.connected_users[0].chat_log[0].from_me);
}

#[test]
fn writing_and_sending_a_broadcast() {
    let mut app = App::new(vec![]);
    app.focus = Panel::Broadcast;
    app.handle_key(Key::Char('a'));
    app.handle_key(Key::Char('b'));
    match app.handle_key(Key::Enter) {
        Outbound::SendBroadcast { message } => assert_eq!(message, "ab"),
        other => panic!("unexpected {other:?}"),
    }
    assert_eq!(app.broadcast_chat_input, "");
    app.record_broadcast("ab".to_string(), ts(1));
    assert_eq!(app.broadcast_log.len(), 1);
}

#[test]
fn scroll_keys_saturate() {
    let mut app = App::new(vec![]);
    app.handle_key(Key::Down);
    assert_eq!(app.users_scroll, 0);
    app.handle_key(Key::Up);
    app.handle_key(Key::Up);
    assert_eq!(app.users_scroll, 2);
    app.users_scroll = u16::MAX;
    app.handle_key(Key::Up);
    assert_eq!(app.users_scroll, u16::MAX);
}

#[test]
fn statistics_panel_asks_user_then_period() {
    let mut app = App::new(vec![user("mario"), user("anna")]);
    app.focus = Panel::StatsSelect;
    app.handle_key(Key::Down);
    app.handle_key(Key::Down);
    assert_eq!(app.stats_user_index, Some(1));
    app.handle_key(Key::Enter);
    assert!(app.stats_step == StatsStep::SelectPeriod);
    app.handle_key(Key::Down);
    assert_eq!(app.stats_period, TimePeriod::ThisWeek);
    app.handle_key(Key::Up);
    app.handle_key(Key::Up);
    assert_eq!(app.stats_period, TimePeriod::ThisMonth);
    match app.handle_key(Key::Enter) {
        Outbound::QueryStats { username, period } => {
            assert_eq!(username, "mario");
            assert_eq!(period, TimePeriod::ThisMonth);
        },
        other => panic!("unexpected {other:?}"),
    }
    app.handle_key(Key::Backspace);
    assert!(app.stats_step == StatsStep::SelectUser);
    assert!(app.focus == Panel::StatsSelect);
}

#[test]
fn refreshing_keeps_conversations_and_selection() {
    let mut app = app_with_connected(&["mario", "anna"]);
    app.receive_chat(IncomingChat { from_username: "anna".to_string(), message: "ciao".to_string(), timestamp: ts(1) });
    app.connected_users.index_selected = Some(1);
    app.refresh_connected_users(vec!["luigi".to_string(), "anna".to_string()]);
    assert_eq!(app.connected_users.index_selected, Some(1));
    assert_eq!(app.connected_users.connected_users[0].username, "luigi");
    assert!(app.connected_users.connected_users[0].chat_log.is_empty());
    assert_eq!(app.connected_users.connected_users[1].chat_log.len(), 1);
    assert_eq!(app.connected_users.connected_users[1].unread_count, 1);
    app.refresh_connected_users(vec!["luigi".to_string()]);
    assert_eq!(app.connected_users.index_selected, None);
}

#[test]
fn errors_are_logged() {
    let mut app = App::new(vec![]);
    app.record_error("guasto".to_string(), ts(9));
    assert_eq!(app.error_log.len(), 1);
    assert_eq!(app.error_log[0].text, "guasto");
}

#[test]
fn sorting_keeps_the_order_of_equal_names() {
    let mut first = user("bea");
    first.status = UserStatus::Fermo;
    let mut second = user("bea");
    second.status = UserStatus::Problema;
    let sorted = sort_users(vec![first, user("zoe"), second, user("al")]);
    let names: Vec<&str> = sorted.iter().map(|u| u.username.as_str()).collect();
    assert_eq!(names, vec!["al", "bea", "bea", "zoe"]);
    assert!(sorted[1].status == UserStatus::Fermo);
    assert!(sorted[2].status == UserStatus::Problema);
}

#[test]
fn period_keys_cycle_and_undo() {
    let mut app = App::new(vec![user("anna"), user("bea")]);
    for _ in 0..6 {
        app.handle_key(Key::Tab);
    }
    assert!(app.focus == Panel::StatsSelect);
    app.handle_key(Key::Down);
    app.handle_key(Key::Enter);
    assert!(app.stats_step == StatsStep::SelectPeriod);
    assert_eq!(app.stats_period, TimePeriod::Today);
    assert!(matches!(app.handle_key(Key::Down), Outbound::Nothing));
    assert_eq!(app.stats_period, TimePeriod::ThisWeek);
    app.handle_key(Key::Up);
    assert_eq!(app.stats_period, TimePeriod::Today);
    for _ in 0..3 {
        app.handle_key(Key::Down);
    }
    assert_eq!(app.stats_period, TimePeriod::Today);
    match app.handle_key(Key::Enter) {
        Outbound::QueryStats { username, period } => {
            assert_eq!(username, "anna");
            assert_eq!(period, TimePeriod::Today);
        },
        other => panic!("unexpected {other:?}"),
    }
}
