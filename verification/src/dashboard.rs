//! The operator's dashboard: what it holds and how it reacts to keys.

use vstd::prelude::*;
use crate::time::{Timestamp, TimePeriod};
use crate::user_status::UserStatus;
use crate::text::{push_char, pop_char, take_string};
use crate::ordering::{bytes_lt, utf8_of, str_lt, lemma_bytes_lt_asymmetric, lemma_before_lower_is_before_higher};

verus! {

/// The panels that can have the keyboard focus.
#[derive(Clone, Copy, Debug, PartialEq, Eq, Structural)]
pub enum Panel {
    Users,
    SelectUser,
    Broadcast,
    BroadcastChat,
    Chat,
    ChatInput,
    StatsSelect,
    ErrorLog,
}

/// The statistics panel first asks for a user, then for a period.
#[derive(Clone, Copy, Debug, PartialEq, Eq, Structural)]
pub enum StatsStep {
    SelectUser,
    SelectPeriod,
}

/// The keys the dashboard reacts to; every other key is `Other`.
#[derive(Clone, Copy, Debug, PartialEq, Eq, Structural)]
pub enum Key {
    Char(char),
    Backspace,
    Enter,
    Up,
    Down,
    Tab,
    BackTab,
    Esc,
    Other,
}

/// What a key asks the server to do.
#[derive(Debug)]
pub enum Outbound {
    Quit,
    SendChat { message: String },
    SendBroadcast { message: String },
    QueryStats { username: String, period: TimePeriod },
    Nothing,
}

/// One message of a private conversation.
#[derive(Clone, Debug)]
pub struct ChatEntry {
    pub from_me: bool,
    pub is_system: bool,
    pub text: String,
    pub timestamp: Timestamp,
}

/// One message sent to everybody.
#[derive(Clone, Debug)]
pub struct BroadcastEntry {
    pub text: String,
    pub timestamp: Timestamp,
}

/// One error reported to the operator.
#[derive(Clone, Debug)]
pub struct ErrorEntry {
    pub text: String,
    pub timestamp: Timestamp,
}

/// The conversation with one connected user.
#[derive(Clone, Debug)]
pub struct UserChat {
    pub username: String,
    pub chat_log: Vec<ChatEntry>,
    pub unread_count: usize,
}

/// The connected users, and which of them the operator is talking to.
#[derive(Debug)]
pub struct ConnectedUsers {
    pub connected_users: Vec<UserChat>,
    pub index_selected: Option<usize>,
}

/// A registered user as listed on the dashboard.
#[derive(Clone, Debug)]
pub struct Users {
    pub username: String,
    pub status: UserStatus,
}

/// The dashboard's state.
#[derive(Debug)]
pub struct App {
    pub users: Vec<Users>,
    pub connected_users: ConnectedUsers,
    pub focus: Panel,
    pub broadcast_log: Vec<BroadcastEntry>,
    pub error_log: Vec<ErrorEntry>,
    pub chat_input: String,
    pub broadcast_chat_input: String,
    pub users_scroll: u16,
    pub chat_scroll: u16,
    pub broadcast_scroll: u16,
    pub chat_input_scroll: u16,
    pub broadcast_input_scroll: u16,
    pub error_scroll: u16,
    pub stats_step: StatsStep,
    pub stats_user_index: Option<usize>,
    pub stats_period: TimePeriod,
    pub stats_username: Option<String>,
    pub stats_error: Option<String>,
    pub stats_timestamp: Option<Timestamp>,
}

/// The panel that Tab moves the focus to.
pub open spec fn next_panel(p: Panel) -> Panel {
    match p {
        Panel::Users => Panel::BroadcastChat,
        Panel::BroadcastChat => Panel::Broadcast,
        Panel::Broadcast => Panel::SelectUser,
        Panel::SelectUser => Panel::Chat,
        Panel::Chat => Panel::ChatInput,
        Panel::ChatInput => Panel::StatsSelect,
        Panel::StatsSelect => Panel::ErrorLog,
        Panel::ErrorLog => Panel::Users,
    }
}

/// The panel that Shift+Tab moves the focus to.
pub open spec fn prev_panel(p: Panel) -> Panel {
    match p {
        Panel::Users => Panel::ErrorLog,
        Panel::ErrorLog => Panel::StatsSelect,
        Panel::StatsSelect => Panel::ChatInput,
        Panel::ChatInput => Panel::Chat,
        Panel::Chat => Panel::SelectUser,
        Panel::SelectUser => Panel::Broadcast,
        Panel::Broadcast => Panel::BroadcastChat,
        Panel::BroadcastChat => Panel::Users,
    }
}

/// The period the Down key moves to.
pub open spec fn next_period(p: TimePeriod) -> TimePeriod {
    match p {
        TimePeriod::Today => TimePeriod::ThisWeek,
        TimePeriod::ThisWeek => TimePeriod::ThisMonth,
        TimePeriod::ThisMonth => TimePeriod::Today,
    }
}

/// The period the Up key moves to.
pub open spec fn prev_period(p: TimePeriod) -> TimePeriod {
    match p {
        TimePeriod::Today => TimePeriod::ThisMonth,
        TimePeriod::ThisMonth => TimePeriod::ThisWeek,
        TimePeriod::ThisWeek => TimePeriod::Today,
    }
}

/// The selection after Up in a list of `len > 0` entries: one up, wrapping to the last.
pub open spec fn select_up(sel: Option<usize>, len: nat) -> usize {
    match sel {
        None => (len - 1) as usize,
        Some(i) => if i == 0 { (len - 1) as usize } else { (i - 1) as usize },
    }
}

/// The selection after Down in a list of `len > 0` entries: one down, wrapping to the first.
pub open spec fn select_down(sel: Option<usize>, len: nat) -> usize {
    match sel {
        None => 0,
        Some(i) => if i >= len - 1 { 0 } else { (i + 1) as usize },
    }
}

/// A scroll offset after Up or Down moving it by `step`, within the range of `u16`.
pub open spec fn scrolled(v: u16, key: Key, step: u16) -> u16 {
    match key {
        Key::Up => v.saturating_add(step),
        Key::Down => v.saturating_sub(step),
        _ => v,
    }
}

/// The focus after `key`.
pub open spec fn focus_after(focus: Panel, stats_step: StatsStep, key: Key) -> Panel {
    if focus == Panel::StatsSelect && stats_step == StatsStep::SelectPeriod && key == Key::Backspace {
        focus
    } else {
        match key {
            Key::Tab => next_panel(focus),
            Key::BackTab => prev_panel(focus),
            _ => focus,
        }
    }
}

fn next_panel_exec(p: Panel) -> (r: Panel)
    ensures
        r == next_panel(p),
{
    match p {
        Panel::Users => Panel::BroadcastChat,
        Panel::BroadcastChat => Panel::Broadcast,
        Panel::Broadcast => Panel::SelectUser,
        Panel::SelectUser => Panel::Chat,
        Panel::Chat => Panel::ChatInput,
        Panel::ChatInput => Panel::StatsSelect,
        Panel::StatsSelect => Panel::ErrorLog,
        Panel::ErrorLog => Panel::Users,
    }
}

fn prev_panel_exec(p: Panel) -> (r: Panel)
    ensures
        r == prev_panel(p),
{
    match p {
        Panel::Users => Panel::ErrorLog,
        Panel::ErrorLog => Panel::StatsSelect,
        Panel::StatsSelect => Panel::ChatInput,
        Panel::ChatInput => Panel::Chat,
        Panel::Chat => Panel::SelectUser,
        Panel::SelectUser => Panel::Broadcast,
        Panel::Broadcast => Panel::BroadcastChat,
        Panel::BroadcastChat => Panel::Users,
    }
}

fn scroll_exec(v: u16, key: Key, step: u16) -> (r: u16)
    ensures
        r == scrolled(v, key, step),
{
    match key {
        Key::Up => v.saturating_add(step),
        Key::Down => v.saturating_sub(step),
        _ => v,
    }
}


/// The part of the dashboard that keys act on.
pub struct KeyView {
    pub focus: Panel,
    pub selected: Option<usize>,
    pub unread: Seq<usize>,
    pub chat_input: Seq<char>,
    pub broadcast_input: Seq<char>,
    pub users_scroll: u16,
    pub chat_scroll: u16,
    pub broadcast_scroll: u16,
    pub chat_input_scroll: u16,
    pub broadcast_input_scroll: u16,
    pub error_scroll: u16,
    pub stats_step: StatsStep,
    pub stats_user_index: Option<usize>,
    pub stats_period: TimePeriod,
}

/// A request of a key, with texts as character sequences.
pub enum OutboundView {
    Quit,
    SendChat(Seq<char>),
    SendBroadcast(Seq<char>),
    QueryStats(Seq<char>, TimePeriod),
    Nothing,
}

pub open spec fn outbound_view(o: &Outbound) -> OutboundView {
    match o {
        Outbound::Quit => OutboundView::Quit,
        Outbound::SendChat { message } => OutboundView::SendChat(message@),
        Outbound::SendBroadcast { message } => OutboundView::SendBroadcast(message@),
        Outbound::QueryStats { username, period } => OutboundView::QueryStats(username@, *period),
        Outbound::Nothing => OutboundView::Nothing,
    }
}

impl App {
    /// What keys act on.
    pub open spec fn key_view(&self) -> KeyView {
        KeyView {
            focus: self.focus,
            selected: self.connected_users.index_selected,
            unread: self.connected_users.connected_users@.map_values(|u: UserChat| u.unread_count),
            chat_input: self.chat_input@,
            broadcast_input: self.broadcast_chat_input@,
            users_scroll: self.users_scroll,
            chat_scroll: self.chat_scroll,
            broadcast_scroll: self.broadcast_scroll,
            chat_input_scroll: self.chat_input_scroll,
            broadcast_input_scroll: self.broadcast_input_scroll,
            error_scroll: self.error_scroll,
            stats_step: self.stats_step,
            stats_user_index: self.stats_user_index,
            stats_period: self.stats_period,
        }
    }

    /// The names of the registered users, in the order listed.
    pub open spec fn user_names(&self) -> Seq<Seq<char>> {
        self.users@.map_values(|u: Users| u.username@)
    }

    /// The selected connected user, if any, is one of the list, and no conversation
    /// counts more unread messages than it holds.
    pub open spec fn wf(&self) -> bool {
        &&& self.connected_users.index_selected matches Some(i) ==> i < self.connected_users.connected_users@.len()
        &&& forall|i: int| 0 <= i < self.connected_users.connected_users@.len() ==>
            (#[trigger] self.connected_users.connected_users@[i]).unread_count <= self.connected_users.connected_users@[i].chat_log@.len()
    }

    /// Everything but what keys act on is the same in `self` and `other`.
    pub open spec fn same_content(&self, other: &App) -> bool {
        &&& self.users@ == other.users@
        &&& self.broadcast_log@ == other.broadcast_log@
        &&& self.error_log@ == other.error_log@
        &&& self.connected_users.connected_users@.len() == other.connected_users.connected_users@.len()
        &&& forall|i: int| 0 <= i < self.connected_users.connected_users@.len() ==> {
            &&& (#[trigger] self.connected_users.connected_users@[i]).username == other.connected_users.connected_users@[i].username
            &&& self.connected_users.connected_users@[i].chat_log@ == other.connected_users.connected_users@[i].chat_log@
        }
        &&& self.stats_username == other.stats_username
        &&& self.stats_error == other.stats_error
        &&& self.stats_timestamp == other.stats_timestamp
    }

    /// The focus, what is being typed, the scroll positions and the statistics
    /// panel are the same in `self` and `other`.
    pub open spec fn same_settings(&self, other: &App) -> bool {
        &&& self.focus == other.focus
        &&& self.chat_input@ == other.chat_input@
        &&& self.broadcast_chat_input@ == other.broadcast_chat_input@
        &&& self.users_scroll == other.users_scroll
        &&& self.chat_scroll == other.chat_scroll
        &&& self.broadcast_scroll == other.broadcast_scroll
        &&& self.chat_input_scroll == other.chat_input_scroll
        &&& self.broadcast_input_scroll == other.broadcast_input_scroll
        &&& self.error_scroll == other.error_scroll
        &&& self.stats_step == other.stats_step
        &&& self.stats_user_index == other.stats_user_index
        &&& self.stats_period == other.stats_period
        &&& self.stats_username == other.stats_username
        &&& self.stats_error == other.stats_error
        &&& self.stats_timestamp == other.stats_timestamp
    }
}

/// The effect of a key on the list of connected users: Up and Down move the
/// selection, wrapping around, and mark the newly selected conversation as read.
pub open spec fn select_user_step(v: KeyView, key: Key) -> KeyView {
    let len = v.unread.len();
    if len == 0 {
        v
    } else {
        match key {
            Key::Up => {
                let i = select_up(v.selected, len);
                KeyView { selected: Some(i), unread: v.unread.update(i as int, 0), ..v }
            },
            Key::Down => {
                let i = select_down(v.selected, len);
                KeyView { selected: Some(i), unread: v.unread.update(i as int, 0), ..v }
            },
            _ => v,
        }
    }
}

/// The effect of a key on the private message being written; nothing happens
/// while no connected user is selected.
pub open spec fn chat_input_step(v: KeyView, key: Key) -> (KeyView, OutboundView) {
    if v.selected is None {
        (v, OutboundView::Nothing)
    } else {
        match key {
            Key::Char(c) => (KeyView { chat_input: v.chat_input.push(c), chat_input_scroll: 0, ..v }, OutboundView::Nothing),
            Key::Backspace => (KeyView {
                chat_input: if v.chat_input.len() > 0 { v.chat_input.drop_last() } else { v.chat_input },
                chat_input_scroll: 0,
                ..v
            }, OutboundView::Nothing),
            Key::Up => (KeyView { chat_input_scroll: v.chat_input_scroll.saturating_add(2), ..v }, OutboundView::Nothing),
            Key::Down => (KeyView { chat_input_scroll: v.chat_input_scroll.saturating_sub(2), ..v }, OutboundView::Nothing),
            Key::Enter => if v.chat_input.len() == 0 {
                (v, OutboundView::Nothing)
            } else {
                (KeyView { chat_input: Seq::empty(), chat_input_scroll: 0, ..v }, OutboundView::SendChat(v.chat_input))
            },
            _ => (v, OutboundView::Nothing),
        }
    }
}

/// The effect of a key on the message for everybody being written.
pub open spec fn broadcast_input_step(v: KeyView, key: Key) -> (KeyView, OutboundView) {
    match key {
        Key::Char(c) => (KeyView { broadcast_input: v.broadcast_input.push(c), broadcast_input_scroll: 0, ..v }, OutboundView::Nothing),
        Key::Backspace => (KeyView {
            broadcast_input: if v.broadcast_input.len() > 0 { v.broadcast_input.drop_last() } else { v.broadcast_input },
            broadcast_input_scroll: 0,
            ..v
        }, OutboundView::Nothing),
        Key::Up => (KeyView { broadcast_input_scroll: v.broadcast_input_scroll.saturating_add(2), ..v }, OutboundView::Nothing),
        Key::Down => (KeyView { broadcast_input_scroll: v.broadcast_input_scroll.saturating_sub(2), ..v }, OutboundView::Nothing),
        Key::Enter => if v.broadcast_input.len() == 0 {
            (v, OutboundView::Nothing)
        } else {
            (KeyView { broadcast_input: Seq::empty(), ..v }, OutboundView::SendBroadcast(v.broadcast_input))
        },
        _ => (v, OutboundView::Nothing),
    }
}

/// The effect of a key on the statistics panel: first a user is chosen among the
/// registered ones, then a period, and Enter on the period asks for the statistics.
pub open spec fn stats_step(v: KeyView, names: Seq<Seq<char>>, key: Key) -> (KeyView, OutboundView) {
    match v.stats_step {
        StatsStep::SelectUser => {
            let len = names.len();
            if len == 0 {
                (v, OutboundView::Nothing)
            } else {
                match key {
                    Key::Up => (KeyView { stats_user_index: Some(select_up(v.stats_user_index, len)), ..v }, OutboundView::Nothing),
                    Key::Down => (KeyView { stats_user_index: Some(select_down(v.stats_user_index, len)), ..v }, OutboundView::Nothing),
                    Key::Enter => (KeyView {
                        stats_user_index: if v.stats_user_index is None { Some(0usize) } else { v.stats_user_index },
                        stats_step: StatsStep::SelectPeriod,
                        ..v
                    }, OutboundView::Nothing),
                    _ => (v, OutboundView::Nothing),
                }
            }
        },
        StatsStep::SelectPeriod => match key {
            Key::Up => (KeyView { stats_period: prev_period(v.stats_period), ..v }, OutboundView::Nothing),
            Key::Down => (KeyView { stats_period: next_period(v.stats_period), ..v }, OutboundView::Nothing),
            Key::Enter => {
                let idx: int = match v.stats_user_index { Some(i) => i as int, None => 0 };
                if idx < names.len() {
                    (v, OutboundView::QueryStats(names[idx], v.stats_period))
                } else {
                    (v, OutboundView::Nothing)
                }
            },
            _ => (v, OutboundView::Nothing),
        },
    }
}

/// The effect of a key once the focus has been moved: the focused panel handles it.
pub open spec fn panel_step(v: KeyView, names: Seq<Seq<char>>, key: Key) -> (KeyView, OutboundView) {
    match v.focus {
        Panel::StatsSelect => stats_step(v, names, key),
        Panel::Users => (KeyView { users_scroll: scrolled(v.users_scroll, key, 1), ..v }, OutboundView::Nothing),
        Panel::SelectUser => (select_user_step(v, key), OutboundView::Nothing),
        Panel::Broadcast => broadcast_input_step(v, key),
        Panel::BroadcastChat => (KeyView { broadcast_scroll: scrolled(v.broadcast_scroll, key, 1), ..v }, OutboundView::Nothing),
        Panel::Chat => (KeyView { chat_scroll: scrolled(v.chat_scroll, key, 1), ..v }, OutboundView::Nothing),
        Panel::ChatInput => chat_input_step(v, key),
        Panel::ErrorLog => (KeyView { error_scroll: scrolled(v.error_scroll, key, 1), ..v }, OutboundView::Nothing),
    }
}

/// The effect of a key on the dashboard: Backspace while choosing the period goes
/// back to choosing the user; Esc quits; Tab and Shift+Tab move the focus; then the
/// focused panel handles the key.
pub open spec fn key_step(v: KeyView, names: Seq<Seq<char>>, key: Key) -> (KeyView, OutboundView) {
    if v.focus == Panel::StatsSelect && v.stats_step == StatsStep::SelectPeriod && key == Key::Backspace {
        (KeyView { stats_step: StatsStep::SelectUser, ..v }, OutboundView::Nothing)
    } else if key == Key::Esc {
        (v, OutboundView::Quit)
    } else {
        panel_step(KeyView { focus: focus_after(v.focus, v.stats_step, key), ..v }, names, key)
    }
}

impl App {
    /// Reacts to a key as `key_step` says, and returns what the key asks of the server.
    pub fn handle_key(&mut self, key: Key) -> (out: Outbound)
        requires
            old(self).wf(),
        ensures
            final(self).wf(),
            final(self).same_content(&*old(self)),
            (final(self).key_view(), outbound_view(&out)) == key_step(old(self).key_view(), old(self).user_names(), key),
    {
        if self.focus == Panel::StatsSelect && self.stats_step == StatsStep::SelectPeriod && key == Key::Backspace {
            self.stats_step = StatsStep::SelectUser;
            return Outbound::Nothing;
        }
        match key {
            Key::Esc => {
                return Outbound::Quit;
            },
            Key::Tab => {
                self.focus = next_panel_exec(self.focus);
            },
            Key::BackTab => {
                self.focus = prev_panel_exec(self.focus);
            },
            _ => {},
        }
        match self.focus {
            Panel::StatsSelect => self.handle_stats_select_key(key),
            Panel::Users => {
                self.users_scroll = scroll_exec(self.users_scroll, key, 1);
                Outbound::Nothing
            },
            Panel::SelectUser => self.handle_select_connected_user_key(key),
            Panel::Broadcast => self.handle_chat_broadcast_input_key(key),
            Panel::BroadcastChat => {
                self.broadcast_scroll = scroll_exec(self.broadcast_scroll, key, 1);
                Outbound::Nothing
            },
            Panel::Chat => {
                self.chat_scroll = scroll_exec(self.chat_scroll, key, 1);
                Outbound::Nothing
            },
            Panel::ChatInput => self.handle_chat_input_key(key),
            Panel::ErrorLog => {
                self.error_scroll = scroll_exec(self.error_scroll, key, 1);
                Outbound::Nothing
            },
        }
    }

    fn handle_select_connected_user_key(&mut self, key: Key) -> (out: Outbound)
        requires
            old(self).wf(),
        ensures
            final(self).wf(),
            final(self).same_content(&*old(self)),
            final(self).key_view() == select_user_step(old(self).key_view(), key),
            out is Nothing,
    {
        let len = self.connected_users.connected_users.len();
        if len == 0 {
            return Outbound::Nothing;
        }
        let i: usize = match key {
            Key::Up => match self.connected_users.index_selected {
                None => len - 1,
                Some(i) => if i == 0 { len - 1 } else { i - 1 },
            },
            Key::Down => match self.connected_users.index_selected {
                None => 0,
                Some(i) => if i >= len - 1 { 0 } else { i + 1 },
            },
            _ => {
                return Outbound::Nothing;
            },
        };
        self.connected_users.index_selected = Some(i);
        let ghost before = self.connected_users.connected_users@;
        let mut chat = self.connected_users.connected_users.remove(i);
        chat.unread_count = 0;
        self.connected_users.connected_users.insert(i, chat);
        proof {
            let after = self.connected_users.connected_users@;
            assert(after =~= before.update(i as int, after[i as int]));
            assert forall|j: int| 0 <= j < after.len() implies (#[trigger] after[j]).unread_count <= after[j].chat_log@.len() by {
                if j != i {
                    assert(after[j] == before[j]);
                }
            }
            assert(after.map_values(|u: UserChat| u.unread_count)
                =~= before.map_values(|u: UserChat| u.unread_count).update(i as int, 0));
        }
        Outbound::Nothing
    }

    fn handle_chat_input_key(&mut self, key: Key) -> (out: Outbound)
        requires
            old(self).wf(),
        ensures
            final(self).wf(),
            final(self).same_content(&*old(self)),
            (final(self).key_view(), outbound_view(&out)) == chat_input_step(old(self).key_view(), key),
    {
        if self.connected_users.index_selected.is_none() {
            return Outbound::Nothing;
        }
        match key {
            Key::Char(c) => {
                push_char(&mut self.chat_input, c);
                self.chat_input_scroll = 0;
                Outbound::Nothing
            },
            Key::Backspace => {
                pop_char(&mut self.chat_input);
                self.chat_input_scroll = 0;
                Outbound::Nothing
            },
            Key::Up => {
                self.chat_input_scroll = self.chat_input_scroll.saturating_add(2);
                Outbound::Nothing
            },
            Key::Down => {
                self.chat_input_scroll = self.chat_input_scroll.saturating_sub(2);
                Outbound::Nothing
            },
            Key::Enter => {
                if self.chat_input.as_str().is_empty() {
                    return Outbound::Nothing;
                }
                self.chat_input_scroll = 0;
                let message = take_string(&mut self.chat_input);
                Outbound::SendChat { message }
            },
            _ => Outbound::Nothing,
        }
    }

    fn handle_chat_broadcast_input_key(&mut self, key: Key) -> (out: Outbound)
        requires
            old(self).wf(),
        ensures
            final(self).wf(),
            final(self).same_content(&*old(self)),
            (final(self).key_view(), outbound_view(&out)) == broadcast_input_step(old(self).key_view(), key),
    {
        match key {
            Key::Char(c) => {
                push_char(&mut self.broadcast_chat_input, c);
                self.broadcast_input_scroll = 0;
                Outbound::Nothing
            },
            Key::Backspace => {
                pop_char(&mut self.broadcast_chat_input);
                self.broadcast_input_scroll = 0;
                Outbound::Nothing
            },
            Key::Up => {
                self.broadcast_input_scroll = self.broadcast_input_scroll.saturating_add(2);
                Outbound::Nothing
            },
            Key::Down => {
                if self.broadcast_input_scroll > 0 {
                    self.broadcast_input_scroll = self.broadcast_input_scroll.saturating_sub(2);
                }
                Outbound::Nothing
            },
            Key::Enter => {
                if self.broadcast_chat_input.as_str().is_empty() {
                    return Outbound::Nothing;
                }
                let message = take_string(&mut self.broadcast_chat_input);
                Outbound::SendBroadcast { message }
            },
            _ => Outbound::Nothing,
        }
    }

    fn handle_stats_select_key(&mut self, key: Key) -> (out: Outbound)
        requires
            old(self).wf(),
        ensures
            final(self).wf(),
            final(self).same_content(&*old(self)),
            (final(self).key_view(), outbound_view(&out)) == stats_step(old(self).key_view(), old(self).user_names(), key),
    {
        match self.stats_step {
            StatsStep::SelectUser => {
                let len = self.users.len();
                if len == 0 {
                    return Outbound::Nothing;
                }
                match key {
                    Key::Up => {
                        self.stats_user_index = Some(match self.stats_user_index {
                            None => len - 1,
                            Some(i) => if i == 0 { len - 1 } else { i - 1 },
                        });
                    },
                    Key::Down => {
                        self.stats_user_index = Some(match self.stats_user_index {
                            None => 0,
                            Some(i) => if i >= len - 1 { 0 } else { i + 1 },
                        });
                    },
                    Key::Enter => {
                        if self.stats_user_index.is_none() {
                            self.stats_user_index = Some(0);
                        }
                        self.stats_step = StatsStep::SelectPeriod;
                    },
                    _ => {},
                }
                Outbound::Nothing
            },
            StatsStep::SelectPeriod => match key {
                Key::Up => {
                    self.stats_period = match self.stats_period {
                        TimePeriod::Today => TimePeriod::ThisMonth,
                        TimePeriod::ThisMonth => TimePeriod::ThisWeek,
                        TimePeriod::ThisWeek => TimePeriod::Today,
                    };
                    Outbound::Nothing
                },
                Key::Down => {
                    self.stats_period = match self.stats_period {
                        TimePeriod::Today => TimePeriod::ThisWeek,
                        TimePeriod::ThisWeek => TimePeriod::ThisMonth,
                        TimePeriod::ThisMonth => TimePeriod::Today,
                    };
                    Outbound::Nothing
                },
                Key::Enter => {
                    let idx: usize = match self.stats_user_index {
                        Some(i) => i,
                        None => 0,
                    };
                    if idx < self.users.len() {
                        Outbound::QueryStats { username: self.users[idx].username.clone(), period: self.stats_period }
                    } else {
                        Outbound::Nothing
                    }
                },
                _ => Outbound::Nothing,
            },
        }
    }
}

/// A message a connected user sent to the operator.
#[derive(Clone, Debug)]
pub struct IncomingChat {
    pub from_username: String,
    pub message: String,
    pub timestamp: Timestamp,
}

/// An error that happened away from the dashboard, to be shown on it.
#[derive(Clone, Debug)]
pub struct IncomingError {
    pub message: String,
    pub timestamp: Timestamp,
}

/// The first position of `name` in `names`.
pub open spec fn index_of_name(names: Seq<Seq<char>>, name: Seq<char>) -> Option<int>
    decreases names.len(),
{
    if names.len() == 0 {
        None
    } else {
        match index_of_name(names.drop_last(), name) {
            Some(i) => Some(i),
            None => if names.last() == name { Some(names.len() - 1) } else { None },
        }
    }
}

proof fn lemma_index_of_name(names: Seq<Seq<char>>, name: Seq<char>)
    ensures
        index_of_name(names, name) matches Some(i) ==> 0 <= i < names.len() && names[i] == name
            && forall|j: int| 0 <= j < i ==> names[j] != name,
        index_of_name(names, name) is None ==> forall|j: int| 0 <= j < names.len() ==> names[j] != name,
    decreases names.len(),
{
    if names.len() > 0 {
        let front = names.drop_last();
        lemma_index_of_name(front, name);
        assert forall|j: int| 0 <= j < front.len() implies front[j] == names[j] by {}
    }
}

proof fn lemma_index_of_name_step(names: Seq<Seq<char>>, name: Seq<char>, i: int)
    requires
        0 <= i < names.len(),
        index_of_name(names.take(i), name) is None,
    ensures
        names[i] == name ==> index_of_name(names.take(i + 1), name) == Some(i),
        names[i] != name ==> index_of_name(names.take(i + 1), name) is None,
        names[i] == name ==> index_of_name(names, name) == Some(i),
{
    assert(names.take(i + 1).drop_last() =~= names.take(i));
    if names[i] == name {
        lemma_index_of_name_prefix(names, name, i + 1);
    }
}

proof fn lemma_index_of_name_prefix(names: Seq<Seq<char>>, name: Seq<char>, k: int)
    requires
        0 <= k <= names.len(),
        index_of_name(names.take(k), name) is Some,
    ensures
        index_of_name(names, name) == index_of_name(names.take(k), name),
    decreases names.len() - k,
{
    if k < names.len() {
        assert(names.take(k + 1).drop_last() =~= names.take(k));
        lemma_index_of_name_prefix(names, name, k + 1);
    } else {
        assert(names.take(k) =~= names);
    }
}

/// The usernames of a list of conversations.
pub open spec fn chat_names(chats: Seq<UserChat>) -> Seq<Seq<char>> {
    chats.map_values(|u: UserChat| u.username@)
}

fn copy_chat(c: &UserChat) -> (r: UserChat)
    ensures
        r.username == c.username,
        r.chat_log@ == c.chat_log@,
        r.unread_count == c.unread_count,
{
    let mut log: Vec<ChatEntry> = Vec::new();
    let mut i: usize = 0;
    while i < c.chat_log.len()
        invariant
            i <= c.chat_log@.len(),
            log@ == c.chat_log@.take(i as int),
        decreases c.chat_log@.len() - i,
    {
        let e = &c.chat_log[i];
        log.push(ChatEntry { from_me: e.from_me, is_system: e.is_system, text: e.text.clone(), timestamp: e.timestamp });
        proof {
            assert(log@ =~= c.chat_log@.take(i + 1));
        }
        i = i + 1;
    }
    proof {
        assert(log@ =~= c.chat_log@);
    }
    UserChat { username: c.username.clone(), chat_log: log, unread_count: c.unread_count }
}

fn position_of_name(chats: &Vec<UserChat>, name: &String) -> (r: Option<usize>)
    ensures
        match r {
            Some(i) => index_of_name(chat_names(chats@), name@) == Some(i as int),
            None => index_of_name(chat_names(chats@), name@) is None,
        },
{
    let ghost names = chat_names(chats@);
    let mut i: usize = 0;
    proof {
        assert(names.take(0) =~= Seq::<Seq<char>>::empty());
    }
    while i < chats.len()
        invariant
            names == chat_names(chats@),
            i <= chats@.len(),
            index_of_name(names.take(i as int), name@) is None,
        decreases chats@.len() - i,
    {
        proof {
            lemma_index_of_name_step(names, name@, i as int);
        }
        if chats[i].username == *name {
            return Some(i);
        }
        i = i + 1;
    }
    proof {
        assert(names.take(i as int) =~= names);
    }
    None
}

fn position_in_names(names: &Vec<String>, name: &String) -> (r: Option<usize>)
    ensures
        match r {
            Some(i) => index_of_name(names@.map_values(|n: String| n@), name@) == Some(i as int),
            None => index_of_name(names@.map_values(|n: String| n@), name@) is None,
        },
{
    let ghost ns = names@.map_values(|n: String| n@);
    let mut i: usize = 0;
    proof {
        assert(ns.take(0) =~= Seq::<Seq<char>>::empty());
    }
    while i < names.len()
        invariant
            ns == names@.map_values(|n: String| n@),
            i <= names@.len(),
            index_of_name(ns.take(i as int), name@) is None,
        decreases names@.len() - i,
    {
        proof {
            lemma_index_of_name_step(ns, name@, i as int);
        }
        if names[i] == *name {
            return Some(i);
        }
        i = i + 1;
    }
    proof {
        assert(ns.take(i as int) =~= ns);
    }
    None
}

impl App {
    /// Replaces the list of conversations by one per name of `user_connected`, in
    /// that order: a name keeps the conversation it had (the first one with that
    /// name), a new name starts an empty one. The selection follows the selected
    /// user to its new place, and is dropped when that user is gone.
    pub fn refresh_connected_users(&mut self, user_connected: Vec<String>)
        requires
            old(self).wf(),
        ensures
            final(self).wf(),
            ({
                let before = old(self).connected_users.connected_users@;
                let after = final(self).connected_users.connected_users@;
                let names = user_connected@.map_values(|n: String| n@);
                &&& after.len() == names.len()
                &&& forall|i: int| 0 <= i < after.len() ==> {
                    &&& (#[trigger] after[i]).username@ == names[i]
                    &&& match index_of_name(chat_names(before), names[i]) {
                        Some(j) => after[i].chat_log@ == before[j].chat_log@ && after[i].unread_count == before[j].unread_count,
                        None => after[i].chat_log@.len() == 0 && after[i].unread_count == 0,
                    }
                }
                &&& match old(self).connected_users.index_selected {
                    Some(k) => match index_of_name(names, before[k as int].username@) {
                        Some(p) => final(self).connected_users.index_selected matches Some(q) && q == p,
                        None => final(self).connected_users.index_selected is None,
                    },
                    None => final(self).connected_users.index_selected is None,
                }
            }),
            final(self).users@ == old(self).users@,
            final(self).broadcast_log@ == old(self).broadcast_log@,
            final(self).error_log@ == old(self).error_log@,
            final(self).same_settings(&*old(self)),
    {
        let ghost names = user_connected@.map_values(|n: String| n@);
        let new_index: Option<usize> = match self.connected_users.index_selected {
            Some(old_idx) => position_in_names(&user_connected, &self.connected_users.connected_users[old_idx].username),
            None => None,
        };
        proof {
            lemma_index_of_name(names, names[0]);
        }
        let mut fresh: Vec<UserChat> = Vec::new();
        let mut i: usize = 0;
        while i < user_connected.len()
            invariant
                self.wf(),
                names == user_connected@.map_values(|n: String| n@),
                i <= user_connected@.len(),
                fresh@.len() == i,
                forall|k: int| 0 <= k < i ==> {
                    &&& (#[trigger] fresh@[k]).username@ == names[k]
                    &&& fresh@[k].unread_count <= fresh@[k].chat_log@.len()
                    &&& match index_of_name(chat_names(self.connected_users.connected_users@), names[k]) {
                        Some(j) => fresh@[k].chat_log@ == self.connected_users.connected_users@[j].chat_log@
                            && fresh@[k].unread_count == self.connected_users.connected_users@[j].unread_count,
                        None => fresh@[k].chat_log@.len() == 0 && fresh@[k].unread_count == 0,
                    }
                },
            decreases user_connected@.len() - i,
        {
            let name = &user_connected[i];
            proof {
                lemma_index_of_name(chat_names(self.connected_users.connected_users@), name@);
            }
            let chat = match position_of_name(&self.connected_users.connected_users, name) {
                Some(j) => {
                    let c = copy_chat(&self.connected_users.connected_users[j]);
                    proof {
                        assert(chat_names(self.connected_users.connected_users@)[j as int] == self.connected_users.connected_users@[j as int].username@);
                        assert(self.connected_users.connected_users@[j as int].unread_count <= self.connected_users.connected_users@[j as int].chat_log@.len());
                    }
                    c
                },
                None => UserChat { username: name.clone(), chat_log: Vec::new(), unread_count: 0 },
            };
            let ghost before_push = fresh@;
            fresh.push(chat);
            proof {
                assert(names[i as int] == name@);
                assert forall|k: int| 0 <= k < i implies fresh@[k] == before_push[k] by {}
                let cs = chat_names(self.connected_users.connected_users@);
                match index_of_name(cs, names[i as int]) {
                    Some(jj) => {
                        assert(fresh@[i as int].chat_log@ == self.connected_users.connected_users@[jj].chat_log@);
                    },
                    None => {
                        assert(fresh@[i as int].chat_log@.len() == 0);
                    },
                }
                assert(fresh@[i as int].username@ == names[i as int]);
            }
            i = i + 1;
        }
        proof {
            if let Some(p) = new_index {
                lemma_index_of_name(names, old(self).connected_users.connected_users@[old(self).connected_users.index_selected.unwrap() as int].username@);
            }
        }
        self.connected_users.connected_users = fresh;
        self.connected_users.index_selected = new_index;
    }

    /// Files a message from a connected user in that user's conversation (the first
    /// one with that name); it counts as unread unless the conversation is the one
    /// selected. A message from a user without a conversation is dropped.
    pub fn receive_chat(&mut self, incoming: IncomingChat)
        requires
            old(self).wf(),
        ensures
            final(self).wf(),
            ({
                let before = old(self).connected_users.connected_users@;
                let after = final(self).connected_users.connected_users@;
                match index_of_name(chat_names(before), incoming.from_username@) {
                    Some(j) => {
                        &&& after == before.update(j, UserChat {
                            username: before[j].username,
                            chat_log: after[j].chat_log,
                            unread_count: if old(self).connected_users.index_selected == Some(j as usize) {
                                before[j].unread_count
                            } else {
                                (before[j].unread_count + 1) as usize
                            },
                        })
                        &&& after[j].chat_log@ == before[j].chat_log@.push(ChatEntry {
                            from_me: false,
                            is_system: false,
                            text: incoming.message,
                            timestamp: incoming.timestamp,
                        })
                    },
                    None => after == before,
                }
            }),
            final(self).connected_users.index_selected == old(self).connected_users.index_selected,
            final(self).users@ == old(self).users@,
            final(self).broadcast_log@ == old(self).broadcast_log@,
            final(self).error_log@ == old(self).error_log@,
            final(self).same_settings(&*old(self)),
    {
        proof {
            lemma_index_of_name(chat_names(self.connected_users.connected_users@), incoming.from_username@);
        }
        match position_of_name(&self.connected_users.connected_users, &incoming.from_username) {
            Some(j) => {
                let ghost before = self.connected_users.connected_users@;
                let mut chat = self.connected_users.connected_users.remove(j);
                let selected = match self.connected_users.index_selected {
                    Some(k) => k == j,
                    None => false,
                };
                proof {
                    assert(before[j as int].unread_count <= before[j as int].chat_log@.len());
                }
                chat.chat_log.push(ChatEntry {
                    from_me: false,
                    is_system: false,
                    text: incoming.message,
                    timestamp: incoming.timestamp,
                });
                let held: usize = chat.chat_log.len();
                if !selected {
                    assert(chat.unread_count < held);
                    chat.unread_count = chat.unread_count + 1;
                }
                self.connected_users.connected_users.insert(j, chat);
                proof {
                    let after = self.connected_users.connected_users@;
                    assert(after =~= before.update(j as int, after[j as int]));
                    assert forall|i: int| 0 <= i < after.len() implies (#[trigger] after[i]).unread_count <= after[i].chat_log@.len() by {
                        if i != j {
                            assert(after[i] == before[i]);
                        }
                    }
                    assert(index_of_name(chat_names(before), incoming.from_username@) == Some(j as int));
                    assert(after[j as int].username == before[j as int].username);
                    assert(after[j as int].chat_log@ == before[j as int].chat_log@.push(ChatEntry {
                            from_me: false,
                            is_system: false,
                            text: incoming.message,
                            timestamp: incoming.timestamp,
                        }));
                }
            },
            None => {},
        }
    }

    /// Files a message the operator sent in the selected conversation, if any.
    pub fn record_sent_chat(&mut self, message: String, timestamp: Timestamp)
        requires
            old(self).wf(),
        ensures
            final(self).wf(),
            match old(self).connected_users.index_selected {
                Some(j) => {
                    let before = old(self).connected_users.connected_users@;
                    let after = final(self).connected_users.connected_users@;
                    &&& after == before.update(j as int, UserChat {
                        username: before[j as int].username,
                        chat_log: after[j as int].chat_log,
                        unread_count: before[j as int].unread_count,
                    })
                    &&& after[j as int].chat_log@ == before[j as int].chat_log@.push(ChatEntry {
                        from_me: true,
                        is_system: false,
                        text: message,
                        timestamp,
                    })
                },
                None => final(self).connected_users.connected_users@ == old(self).connected_users.connected_users@,
            },
            final(self).connected_users.index_selected == old(self).connected_users.index_selected,
            final(self).users@ == old(self).users@,
            final(self).broadcast_log@ == old(self).broadcast_log@,
            final(self).error_log@ == old(self).error_log@,
            final(self).same_settings(&*old(self)),
    {
        match self.connected_users.index_selected {
            Some(j) => {
                let ghost before = self.connected_users.connected_users@;
                let mut chat = self.connected_users.connected_users.remove(j);
                chat.chat_log.push(ChatEntry { from_me: true, is_system: false, text: message, timestamp });
                self.connected_users.connected_users.insert(j, chat);
                proof {
                    let after = self.connected_users.connected_users@;
                    assert(after =~= before.update(j as int, after[j as int]));
                    assert forall|i: int| 0 <= i < after.len() implies (#[trigger] after[i]).unread_count <= after[i].chat_log@.len() by {
                        if i != j {
                            assert(after[i] == before[i]);
                        }
                    }
                }
            },
            None => {},
        }
    }

    /// Files a message the operator sent to everybody.
    pub fn record_broadcast(&mut self, text: String, timestamp: Timestamp)
        requires
            old(self).wf(),
        ensures
            final(self).wf(),
            final(self).broadcast_log@ == old(self).broadcast_log@.push(BroadcastEntry { text, timestamp }),
            final(self).connected_users.connected_users@ == old(self).connected_users.connected_users@,
            final(self).connected_users.index_selected == old(self).connected_users.index_selected,
            final(self).error_log@ == old(self).error_log@,
            final(self).users@ == old(self).users@,
            final(self).same_settings(&*old(self)),
    {
        self.broadcast_log.push(BroadcastEntry { text, timestamp });
    }

    /// Files an error to show to the operator.
    pub fn record_error(&mut self, text: String, timestamp: Timestamp)
        requires
            old(self).wf(),
        ensures
            final(self).wf(),
            final(self).error_log@ == old(self).error_log@.push(ErrorEntry { text, timestamp }),
            final(self).connected_users.connected_users@ == old(self).connected_users.connected_users@,
            final(self).connected_users.index_selected == old(self).connected_users.index_selected,
            final(self).broadcast_log@ == old(self).broadcast_log@,
            final(self).users@ == old(self).users@,
            final(self).same_settings(&*old(self)),
    {
        self.error_log.push(ErrorEntry { text, timestamp });
    }
}

/// The users are listed by name in byte order.
pub open spec fn sorted_by_name(s: Seq<Users>) -> bool {
    forall|i: int, j: int| 0 <= i < j < s.len() ==> !bytes_lt(utf8_of(#[trigger] s[j].username@), utf8_of(#[trigger] s[i].username@))
}

/// Whether a user bears the name `name`.
pub open spec fn has_name(name: Seq<char>) -> spec_fn(Users) -> bool {
    |u: Users| u.username@ == name
}

/// The users of `s` named `name`, in their order in `s`.
pub open spec fn named(s: Seq<Users>, name: Seq<char>) -> Seq<Users> {
    s.filter(has_name(name))
}

/// Lists `users` by name, in byte order; users with the same name keep their order.
pub fn sort_users(users: Vec<Users>) -> (out: Vec<Users>)
    ensures
        sorted_by_name(out@),
        out@.to_multiset() == users@.to_multiset(),
        forall|name: Seq<char>| #[trigger] named(out@, name) == named(users@, name),
{
    broadcast use vstd::seq_lib::group_to_multiset_ensures, vstd::multiset::group_multiset_axioms;
    let mut rest = users;
    let mut out: Vec<Users> = Vec::new();
    let ghost all = rest@;
    let ghost mut t: int = 0;
    proof {
        assert(out@ =~= all.take(0));
    }
    while rest.len() > 0
        invariant
            sorted_by_name(out@),
            out@.to_multiset().add(rest@.to_multiset()) == all.to_multiset(),
            0 <= t <= all.len(),
            rest@ == all.skip(t),
            forall|name: Seq<char>| #[trigger] named(out@, name) == named(all.take(t), name),
        decreases rest@.len(),
    {
        let ghost before_rest = rest@;
        let x = rest.remove(0);
        proof {
            vstd::seq_lib::to_multiset_remove(before_rest, 0);
            assert(before_rest[0] == x);
            assert(before_rest.contains(x));
            before_rest.to_multiset_ensures();
            assert(before_rest.to_multiset().count(x) > 0);
        }
        let mut p: usize = 0;
        while p < out.len() && !str_lt(x.username.as_str(), out[p].username.as_str())
            invariant
                p <= out@.len(),
                sorted_by_name(out@),
                forall|k: int| 0 <= k < p ==> !bytes_lt(utf8_of(x.username@), utf8_of(#[trigger] out@[k].username@)),
            decreases out@.len() - p,
        {
            p = p + 1;
        }
        let ghost before_out = out@;
        proof {
            if p < out@.len() {
                assert forall|k: int| p <= k < out@.len() implies bytes_lt(utf8_of(x.username@), utf8_of(#[trigger] out@[k].username@)) by {
                    if k > p {
                        lemma_before_lower_is_before_higher(utf8_of(x.username@), utf8_of(out@[p as int].username@), utf8_of(out@[k].username@));
                    }
                }
            }
            assert forall|k: int| p <= k < out@.len() implies !bytes_lt(utf8_of(#[trigger] out@[k].username@), utf8_of(x.username@)) by {
                lemma_bytes_lt_asymmetric(utf8_of(x.username@), utf8_of(out@[k].username@));
            }
        }
        out.insert(p, x);
        proof {
            vstd::seq_lib::to_multiset_insert(before_out, p as int, x);
            let o = out@;
            assert forall|i: int, j: int| 0 <= i < j < o.len() implies !bytes_lt(utf8_of(#[trigger] o[j].username@), utf8_of(#[trigger] o[i].username@)) by {
                if j < p {
                    assert(o[i] == before_out[i] && o[j] == before_out[j]);
                } else if j == p {
                    assert(o[i] == before_out[i]);
                } else if i < p {
                    assert(o[i] == before_out[i] && o[j] == before_out[j - 1]);
                } else if i == p {
                    assert(o[j] == before_out[j - 1]);
                } else {
                    assert(o[i] == before_out[i - 1] && o[j] == before_out[j - 1]);
                }
            }
            assert(out@.to_multiset().add(rest@.to_multiset()) =~= all.to_multiset());
            lemma_insert_keeps_named(before_out, p as int, x, all.take(t));
            assert(all[t] == x);
            assert(all.take(t + 1) =~= all.take(t).push(x));
            assert(rest@ =~= all.skip(t + 1));
            t = t + 1;
        }
    }
    proof {
        assert(rest@.to_multiset() =~= vstd::multiset::Multiset::empty());
        assert(out@.to_multiset() =~= all.to_multiset());
        assert(all.take(t) =~= all);
    }
    out
}

/// Inserting `x` in front of the first user whose name comes after `x`'s, in a list
/// that agrees name by name with `done`, gives a list that agrees name by name
/// with `done` followed by `x`.
proof fn lemma_insert_keeps_named(before: Seq<Users>, p: int, x: Users, done: Seq<Users>)
    requires
        0 <= p <= before.len(),
        forall|k: int| p <= k < before.len() ==> bytes_lt(utf8_of(x.username@), utf8_of(#[trigger] before[k].username@)),
        forall|name: Seq<char>| #[trigger] named(before, name) == named(done, name),
    ensures
        forall|name: Seq<char>| #[trigger] named(before.insert(p, x), name) == named(done.push(x), name),
{
    let head = before.take(p);
    let tail = before.skip(p);
    assert(before =~= head + tail);
    assert(before.insert(p, x) =~= head.push(x) + tail);
    assert forall|name: Seq<char>| #[trigger] named(before.insert(p, x), name) == named(done.push(x), name) by {
        let f = has_name(name);
        Seq::filter_distributes_over_add(head, tail, f);
        Seq::filter_distributes_over_add(head.push(x), tail, f);
        head.lemma_filter_push(x, f);
        done.lemma_filter_push(x, f);
        assert(named(before, name) == named(done, name));
        if name == x.username@ {
            assert forall|k: int| 0 <= k < tail.len() implies !f(#[trigger] tail[k]) by {
                assert(tail[k] == before[p + k]);
                lemma_bytes_lt_asymmetric(utf8_of(x.username@), utf8_of(before[p + k].username@));
            }
            tail.lemma_all_neg_filter_empty(f);
            assert(tail.filter(f) =~= Seq::<Users>::empty());
            assert(head.filter(f) + tail.filter(f) =~= head.filter(f));
            assert((head.filter(f).push(x)) + tail.filter(f) =~= head.filter(f).push(x));
        }
    }
}

impl App {
    /// The dashboard at start: the registered users listed by name (users with the
    /// same name in the order given), focus on the list of users, nobody connected
    /// or selected, nothing written or logged, the statistics panel asking for a
    /// user, with today as period.
    pub fn new(users: Vec<Users>) -> (app: App)
        ensures
            app.wf(),
            sorted_by_name(app.users@),
            app.users@.to_multiset() == users@.to_multiset(),
            forall|name: Seq<char>| #[trigger] named(app.users@, name) == named(users@, name),
            app.connected_users.connected_users@.len() == 0,
            app.connected_users.index_selected is None,
            app.focus == Panel::Users,
            app.broadcast_log@.len() == 0,
            app.error_log@.len() == 0,
            app.chat_input@.len() == 0,
            app.broadcast_chat_input@.len() == 0,
            app.users_scroll == 0 && app.chat_scroll == 0 && app.broadcast_scroll == 0,
            app.chat_input_scroll == 0 && app.broadcast_input_scroll == 0 && app.error_scroll == 0,
            app.stats_step == StatsStep::SelectUser,
            app.stats_user_index is None,
            app.stats_period == TimePeriod::Today,
            app.stats_username is None && app.stats_error is None && app.stats_timestamp is None,
    {
        App {
            users: sort_users(users),
            connected_users: ConnectedUsers { connected_users: Vec::new(), index_selected: None },
            focus: Panel::Users,
            broadcast_log: Vec::new(),
            error_log: Vec::new(),
            chat_input: String::new(),
            broadcast_chat_input: String::new(),
            users_scroll: 0,
            chat_scroll: 0,
            broadcast_scroll: 0,
            chat_input_scroll: 0,
            broadcast_input_scroll: 0,
            error_scroll: 0,
            stats_step: StatsStep::SelectUser,
            stats_user_index: None,
            stats_period: TimePeriod::Today,
            stats_username: None,
            stats_error: None,
            stats_timestamp: None,
        }
    }
}

/// Shift+Tab undoes Tab, and Tab undoes Shift+Tab.
pub proof fn lemma_tab_and_back_tab_undo_each_other(p: Panel)
    ensures
        prev_panel(next_panel(p)) == p,
        next_panel(prev_panel(p)) == p,
{
}

/// Eight Tabs visit eight different panels and come back to the start.
pub proof fn lemma_tab_cycles_through_all_panels(p: Panel)
    ensures
        panel_after_tabs(p, 8) == p,
        forall|i: int, j: int| 0 <= i < j < 8 ==> #[trigger] panel_after_tabs(p, i) != #[trigger] panel_after_tabs(p, j),
{
    reveal_with_fuel(panel_after_tabs, 9);
}

/// The focus after `k` presses of Tab.
pub open spec fn panel_after_tabs(p: Panel, k: int) -> Panel
    decreases k,
{
    if k <= 0 { p } else { next_panel(panel_after_tabs(p, k - 1)) }
}

/// In a non-empty list, Up undoes Down and Down undoes Up on a selected entry.
pub proof fn lemma_up_and_down_undo_each_other(i: usize, len: nat)
    requires
        i < len <= usize::MAX,
    ensures
        select_up(Some(select_down(Some(i), len)), len) == i,
        select_down(Some(select_up(Some(i), len)), len) == i,
        select_up(Some(i), len) < len,
        select_down(Some(i), len) < len,
{
}

/// Up undoes Down and Down undoes Up on the period.
pub proof fn lemma_period_keys_undo_each_other(p: TimePeriod)
    ensures
        prev_period(next_period(p)) == p,
        next_period(prev_period(p)) == p,
{
}

/// While the statistics panel asks for the period, Down cycles today, this week,
/// this month and back, Up undoes Down and Down undoes Up, three Downs change
/// nothing, and none of these keys asks anything of the server; Enter changes
/// nothing and asks for the statistics of the chosen user (the first when none was
/// chosen) over the period, or nothing when there is no such user.
pub proof fn lemma_period_panel_keys(v: KeyView, names: Seq<Seq<char>>)
    requires
        v.focus == Panel::StatsSelect,
        v.stats_step == StatsStep::SelectPeriod,
    ensures
        key_step(v, names, Key::Down) == (KeyView { stats_period: next_period(v.stats_period), ..v }, OutboundView::Nothing),
        key_step(v, names, Key::Up) == (KeyView { stats_period: prev_period(v.stats_period), ..v }, OutboundView::Nothing),
        key_step(key_step(v, names, Key::Down).0, names, Key::Up) == (v, OutboundView::Nothing),
        key_step(key_step(v, names, Key::Up).0, names, Key::Down) == (v, OutboundView::Nothing),
        key_step(key_step(key_step(v, names, Key::Down).0, names, Key::Down).0, names, Key::Down) == (v, OutboundView::Nothing),
        ({
            let idx: int = match v.stats_user_index { Some(i) => i as int, None => 0 };
            key_step(v, names, Key::Enter) == (v, if idx < names.len() {
                OutboundView::QueryStats(names[idx], v.stats_period)
            } else {
                OutboundView::Nothing
            })
        }),
{
}

/// On the panel for messages to everybody: a character typed goes at the end of the
/// message; Backspace takes the last character off (an empty message stays empty),
/// so that it undoes a character just typed; Enter on an empty message asks nothing
/// and changes nothing, and on a written one sends exactly that message and empties
/// the input. None of these keys moves the focus or asks anything else.
pub proof fn lemma_broadcast_input_keys(v: KeyView, names: Seq<Seq<char>>, c: char)
    requires
        v.focus == Panel::Broadcast,
    ensures
        key_step(v, names, Key::Char(c)) == (KeyView {
            broadcast_input: v.broadcast_input.push(c),
            broadcast_input_scroll: 0,
            ..v
        }, OutboundView::Nothing),
        v.broadcast_input.len() > 0 ==> key_step(v, names, Key::Backspace).0.broadcast_input
            =~= v.broadcast_input.subrange(0, v.broadcast_input.len() - 1),
        v.broadcast_input.len() == 0 ==> key_step(v, names, Key::Backspace).0.broadcast_input == v.broadcast_input,
        key_step(v, names, Key::Backspace).1 == OutboundView::Nothing,
        key_step(v, names, Key::Backspace).0.focus == Panel::Broadcast,
        key_step(key_step(v, names, Key::Char(c)).0, names, Key::Backspace)
            == (KeyView { broadcast_input_scroll: 0, ..v }, OutboundView::Nothing),
        v.broadcast_input.len() == 0 ==> key_step(v, names, Key::Enter) == (v, OutboundView::Nothing),
        v.broadcast_input.len() > 0 ==> key_step(v, names, Key::Enter) == (
            KeyView { broadcast_input: Seq::<char>::empty(), ..v },
            OutboundView::SendBroadcast(v.broadcast_input),
        ),
{
    assert(v.broadcast_input.push(c).drop_last() =~= v.broadcast_input);
}

/// On the panel for the private message, once a conversation is selected: a
/// character typed goes at the end of the message; Backspace takes the last
/// character off, so that it undoes a character just typed; Enter on an empty
/// message asks nothing and changes nothing, and on a written one sends exactly
/// that message and empties the input.
pub proof fn lemma_chat_input_keys(v: KeyView, names: Seq<Seq<char>>, c: char)
    requires
        v.focus == Panel::ChatInput,
        v.selected is Some,
    ensures
        key_step(v, names, Key::Char(c)) == (KeyView {
            chat_input: v.chat_input.push(c),
            chat_input_scroll: 0,
            ..v
        }, OutboundView::Nothing),
        v.chat_input.len() > 0 ==> key_step(v, names, Key::Backspace).0.chat_input
            =~= v.chat_input.subrange(0, v.chat_input.len() - 1),
        v.chat_input.len() == 0 ==> key_step(v, names, Key::Backspace).0.chat_input == v.chat_input,
        key_step(v, names, Key::Backspace).1 == OutboundView::Nothing,
        key_step(key_step(v, names, Key::Char(c)).0, names, Key::Backspace)
            == (KeyView { chat_input_scroll: 0, ..v }, OutboundView::Nothing),
        v.chat_input.len() == 0 ==> key_step(v, names, Key::Enter) == (v, OutboundView::Nothing),
        v.chat_input.len() > 0 ==> key_step(v, names, Key::Enter) == (
            KeyView { chat_input: Seq::<char>::empty(), chat_input_scroll: 0, ..v },
            OutboundView::SendChat(v.chat_input),
        ),
{
    assert(v.chat_input.push(c).drop_last() =~= v.chat_input);
}

/// No key sends an empty message: whatever is sent, privately or to everybody, is
/// the message written so far, and it is not empty.
pub proof fn lemma_only_written_messages_are_sent(v: KeyView, names: Seq<Seq<char>>, key: Key)
    ensures
        key_step(v, names, key).1 matches OutboundView::SendBroadcast(m) ==> m == v.broadcast_input && m.len() > 0,
        key_step(v, names, key).1 matches OutboundView::SendChat(m) ==> m == v.chat_input && m.len() > 0,
{
}

/// While the statistics panel asks for the user, among a non-empty list of names:
/// Down moves the choice to the next user, from the last back to the first (the
/// first when none was chosen); Up moves it to the previous one, from the first
/// back to the last (the last when none was chosen); so Up undoes Down and Down
/// undoes Up. Nothing else changes and nothing is asked of the server.
pub proof fn lemma_user_choice_keys(v: KeyView, names: Seq<Seq<char>>)
    requires
        v.focus == Panel::StatsSelect,
        v.stats_step == StatsStep::SelectUser,
        0 < names.len() <= usize::MAX,
        v.stats_user_index matches Some(i) ==> i < names.len(),
    ensures
        key_step(v, names, Key::Down) == (KeyView {
            stats_user_index: Some(match v.stats_user_index {
                None => 0usize,
                Some(i) => if i + 1 == names.len() { 0usize } else { (i + 1) as usize },
            }),
            ..v
        }, OutboundView::Nothing),
        key_step(v, names, Key::Up) == (KeyView {
            stats_user_index: Some(match v.stats_user_index {
                None => (names.len() - 1) as usize,
                Some(i) => if i == 0 { (names.len() - 1) as usize } else { (i - 1) as usize },
            }),
            ..v
        }, OutboundView::Nothing),
        v.stats_user_index is Some ==> key_step(key_step(v, names, Key::Down).0, names, Key::Up) == (v, OutboundView::Nothing),
        v.stats_user_index is Some ==> key_step(key_step(v, names, Key::Up).0, names, Key::Down) == (v, OutboundView::Nothing),
{
}

/// On the list of connected users, when it is not empty: Down selects the next
/// conversation, from the last back to the first (the first when none was
/// selected), Up the previous one, from the first back to the last (the last when
/// none was selected); the conversation selected is marked read, and every other
/// conversation keeps its count of unread messages.
pub proof fn lemma_selecting_a_conversation_marks_it_read(v: KeyView, names: Seq<Seq<char>>, key: Key)
    requires
        v.focus == Panel::SelectUser,
        0 < v.unread.len() <= usize::MAX,
        v.selected matches Some(i) ==> i < v.unread.len(),
        key == Key::Up || key == Key::Down,
    ensures
        ({
            let w = key_step(v, names, key).0;
            let len = v.unread.len();
            let j: int = if key == Key::Down {
                match v.selected { None => 0, Some(i) => if i + 1 == len { 0 } else { i + 1 } }
            } else {
                match v.selected { None => len - 1, Some(i) => if i == 0 { len - 1 } else { i - 1 } }
            };
            &&& 0 <= j < len
            &&& w.selected == Some(j as usize)
            &&& w.unread.len() == len
            &&& w.unread[j] == 0
            &&& forall|k: int| 0 <= k < len && k != j ==> w.unread[k] == v.unread[k]
            &&& w.focus == Panel::SelectUser
            &&& w.chat_input == v.chat_input && w.broadcast_input == v.broadcast_input
        }),
        key_step(v, names, key).1 == OutboundView::Nothing,
{
}

} // verus!
