use georuggine::console::{begin_typing, console, end_typing, print_or_queue};
use georuggine::menu::{menu_choice, MenuChoice};
use georuggine::time::{period_start, seconds_between, TimePeriod, Timestamp};

#[test]
fn messages_show_at_once_when_nobody_types() {
    let mut c = console();
    assert_eq!(print_or_queue(&mut c, "uno".to_string()), Some("uno".to_string()));
    assert!(end_typing(&mut c).is_empty());
}

#[test]
fn messages_wait_while_typing_and_come_back_in_order() {
    let mut c = console();
    begin_typing(&mut c);
    assert_eq!(print_or_queue(&mut c, "uno".to_string()), None);
    assert_eq!(print_or_queue(&mut c, "due".to_string()), None);
    assert_eq!(end_typing(&mut c), vec!["uno".to_string(), "due".to_string()]);
    assert_eq!(print_or_queue(&mut c, "tre".to_string()), Some("tre".to_string()));
    assert!(end_typing(&mut c).is_empty());
}

#[test]
fn menu_choices() {
    assert_eq!(menu_choice("1"), MenuChoice::Broadcast);
    assert_eq!(menu_choice("2"), MenuChoice::Unicast);
    assert_eq!(menu_choice("3"), MenuChoice::ShowStatus);
    assert_eq!(menu_choice("4"), MenuChoice::Shutdown);
    assert_eq!(menu_choice("5"), MenuChoice::Invalid);
    assert_eq!(menu_choice("12"), MenuChoice::Invalid);
    assert_eq!(menu_choice(""), MenuChoice::Invalid);
}

#[test]
fn whole_seconds_truncate_toward_zero() {
    let a = Timestamp { secs: 10, nanos: 500_000_000 };
    let b = Timestamp { secs: 12, nanos: 0 };
    assert_eq!(seconds_between(&a, &b), 1);
    assert_eq!(seconds_between(&b, &a), -1);
    assert_eq!(seconds_between(&a, &a), 0);
    let c = Timestamp { secs: -3, nanos: 999_999_999 };
    assert_eq!(seconds_between(&c, &b), 14);
}

#[test]
fn period_starts() {
    let now = Timestamp { secs: 1_700_000_123, nanos: 42 };
    assert_eq!(period_start(TimePeriod::Today, now), Timestamp { secs: 1_699_920_000, nanos: 0 });
    assert_eq!(period_start(TimePeriod::ThisWeek, now), Timestamp { secs: 1_700_000_123 - 604_800, nanos: 42 });
    assert_eq!(period_start(TimePeriod::ThisMonth, now), Timestamp { secs: 1_700_000_123 - 2_592_000, nanos: 42 });
    let before_epoch = Timestamp { secs: -1, nanos: 0 };
    assert_eq!(period_start(TimePeriod::Today, before_epoch), Timestamp { secs: -86_400, nanos: 0 });
}
