//! What the server decides on one client connection: where each request goes,
//! what the client is answered, and how the operator's table follows the session.
//! Reading, writing, the database and the channels to other tasks are left to the
//! caller, which hands in what they produced.

use vstd::prelude::*;
use crate::time::{Timestamp, TimePeriod};
use crate::tracking::TrackSample;
use crate::dashboard::IncomingChat;
use crate::auth::{verify_password, hash_password, password_matches, argon2id_prefix, MAX_PASSWORD_BYTES};
use crate::ordering::utf8_of;
use crate::user_status::{
    StatusMap, UserStatus, StatusUpdate, update_user_status, update_user_seconds,
    add_user_to_status_map, remove_user_from_status_map, unknown_user_message, initial_info,
};

verus! {

/// A registered user as stored.
#[derive(Clone, Debug)]
pub struct UserRecord {
    pub id: Option<i64>,
    pub username: String,
    pub password_hash: String,
}

/// A request of the client.
#[derive(Debug)]
pub enum ClientRequest {
    Login { username: String, password: String },
    Register { username: String, password: String },
    PositionUpdate { position: TrackSample },
    ChatMessage { message: String, timestamp: Timestamp },
    QueryStats { period: TimePeriod },
    DeleteAccount { password: String },
}

/// An answer to the client, without the time it is sent at.
#[derive(Debug)]
pub enum ServerReply {
    AuthResult { success: bool, reason: Option<String> },
    Error { message: String },
    BroadcastMessage { message: String },
    DirectMessage { message: String },
    AccountDeleted { success: bool, reason: Option<String> },
}

/// An answer as plain values.
pub enum ReplyView {
    AuthResult(bool, Option<Seq<char>>),
    Error(Seq<char>),
    BroadcastMessage(Seq<char>),
    DirectMessage(Seq<char>),
    AccountDeleted(bool, Option<Seq<char>>),
}

pub open spec fn opt_view(s: Option<String>) -> Option<Seq<char>> {
    match s {
        Some(t) => Some(t@),
        None => None,
    }
}

pub open spec fn reply_view(r: &ServerReply) -> ReplyView {
    match r {
        ServerReply::AuthResult { success, reason } => ReplyView::AuthResult(*success, opt_view(*reason)),
        ServerReply::Error { message } => ReplyView::Error(message@),
        ServerReply::BroadcastMessage { message } => ReplyView::BroadcastMessage(message@),
        ServerReply::DirectMessage { message } => ReplyView::DirectMessage(message@),
        ServerReply::AccountDeleted { success, reason } => ReplyView::AccountDeleted(*success, opt_view(*reason)),
    }
}

/// The state of one connection: the user it is logged in as, if any, and whether
/// the timer that flags a silent vehicle is running.
#[derive(Debug)]
pub struct Session {
    pub authenticated_user: Option<String>,
    pub watchdog_armed: bool,
}

/// A fresh connection: nobody logged in, no timer running.
pub fn new_session() -> (s: Session)
    ensures
        s.authenticated_user is None,
        !s.watchdog_armed,
{
    Session { authenticated_user: None, watchdog_armed: false }
}

fn text(s: &str) -> (r: String)
    ensures
        r@ == s@,
{
    String::from_str(s)
}

fn text2(a: &str, b: &str) -> (r: String)
    ensures
        r@ == a@ + b@,
{
    let mut r = String::from_str(a);
    r.append(b);
    r
}

fn text3(a: &str, b: &str, c: &str) -> (r: String)
    ensures
        r@ == a@ + b@ + c@,
{
    let mut r = String::from_str(a);
    r.append(b);
    r.append(c);
    r
}

/// The notice each client gets when the server shuts down.
pub fn shutdown_notice() -> (r: ServerReply)
    ensures
        reply_view(&r) == ReplyView::BroadcastMessage("Il server si sta arrestando, verrai disconnesso."@),
{
    ServerReply::BroadcastMessage { message: text("Il server si sta arrestando, verrai disconnesso.") }
}

/// The answer to a line that is not a valid request; `detail` says why.
pub fn malformed_request_reply(detail: &str) -> (r: ServerReply)
    ensures
        reply_view(&r) == ReplyView::Error("Formato messaggio non valido: "@ + detail@),
{
    ServerReply::Error { message: text2("Formato messaggio non valido: ", detail) }
}

/// Where a request goes.
#[derive(Debug)]
pub enum Route {
    Login { username: String, password: String },
    Register { username: String, password: String },
    /// A position of the logged-in user, to be stored and applied.
    Track { username: String, position: TrackSample },
    /// A message for the operator.
    ForwardChat(IncomingChat),
    /// Statistics of the logged-in user.
    Stats { username: String, period: TimePeriod },
    DeleteAccount { password: String },
    /// Answer this and do nothing else.
    Reply(ServerReply),
    /// Do nothing.
    Ignore,
}

/// The text for a position sent before logging in.
pub open spec fn unauthenticated_position_text() -> Seq<char> {
    "Devi essere autenticato per inviare aggiornamenti di posizione."@
}

/// Sends `request` where it belongs: positions, chat messages and statistics are
/// taken as coming from the logged-in user; a position sent before logging in is
/// answered with an error, and a chat message sent before logging in is dropped
/// without an answer. Statistics cannot be asked for before logging in.
pub fn route_request(session: &Session, request: ClientRequest) -> (r: Route)
    requires
        request is QueryStats ==> session.authenticated_user is Some,
    ensures
        match request {
            ClientRequest::Login { username, password } => r == Route::Login { username, password },
            ClientRequest::Register { username, password } => r == Route::Register { username, password },
            ClientRequest::PositionUpdate { position } => match session.authenticated_user {
                Some(u) => r == Route::Track { username: u, position },
                None => r matches Route::Reply(reply) && reply_view(&reply) == ReplyView::Error(unauthenticated_position_text()),
            },
            ClientRequest::ChatMessage { message, timestamp } => match session.authenticated_user {
                Some(u) => r == Route::ForwardChat(IncomingChat { from_username: u, message, timestamp }),
                None => r is Ignore,
            },
            ClientRequest::QueryStats { period } => r == Route::Stats { username: session.authenticated_user->0, period },
            ClientRequest::DeleteAccount { password } => r == Route::DeleteAccount { password },
        },
{
    match request {
        ClientRequest::Login { username, password } => Route::Login { username, password },
        ClientRequest::Register { username, password } => Route::Register { username, password },
        ClientRequest::PositionUpdate { position } => match &session.authenticated_user {
            Some(u) => Route::Track { username: u.clone(), position },
            None => Route::Reply(ServerReply::Error {
                message: text("Devi essere autenticato per inviare aggiornamenti di posizione."),
            }),
        },
        ClientRequest::ChatMessage { message, timestamp } => match &session.authenticated_user {
            Some(u) => Route::ForwardChat(IncomingChat { from_username: u.clone(), message, timestamp }),
            None => Route::Ignore,
        },
        ClientRequest::QueryStats { period } => match &session.authenticated_user {
            Some(u) => Route::Stats { username: u.clone(), period },
            None => Route::Ignore,
        },
        ClientRequest::DeleteAccount { password } => Route::DeleteAccount { password },
    }
}

/// The answer when the logged-in user has vanished from the store.
pub fn user_not_found_reply() -> (r: ServerReply)
    ensures
        reply_view(&r) == ReplyView::Error("Utente non trovato."@),
{
    ServerReply::Error { message: text("Utente non trovato.") }
}

/// A stored position of the user starts the timer that flags a silent vehicle.
pub fn position_stored(session: &mut Session)
    ensures
        final(session).watchdog_armed,
        final(session).authenticated_user == old(session).authenticated_user,
{
    session.watchdog_armed = true;
}

/// The timer ran out: the logged-in user, if any, is flagged as having a problem,
/// and the timer stops. Returns what the flagging did to the table.
pub fn watchdog_expired(session: &mut Session, statuses: &mut StatusMap) -> (r: Option<StatusUpdate>)
    requires
        old(statuses).wf(),
    ensures
        final(statuses).wf(),
        !final(session).watchdog_armed,
        final(session).authenticated_user == old(session).authenticated_user,
        match old(session).authenticated_user {
            Some(u) => {
                &&& r is Some
                &&& !old(statuses).view().contains_key(u@) ==> r == Some(StatusUpdate::UnknownUser) && final(statuses).view() == old(statuses).view()
                &&& old(statuses).view().contains_key(u@) ==> final(statuses).view() == old(statuses).view().insert(
                    u@, crate::user_status::Info { status: UserStatus::Problema, s: old(statuses).view()[u@].s })
                    && r == Some(if old(statuses).view()[u@].status == UserStatus::Problema { StatusUpdate::Unchanged } else { StatusUpdate::Changed })
            },
            None => r is None && final(statuses).view() == old(statuses).view(),
        },
{
    session.watchdog_armed = false;
    match &session.authenticated_user {
        Some(u) => Some(update_user_status(statuses, u, UserStatus::Problema)),
        None => None,
    }
}

/// What closing a connection leaves to do besides the table.
pub struct Cleanup {
    /// The user whose channel must be dropped from the connections, if one was logged in.
    pub user: Option<String>,
    /// Errors to report to the operator.
    pub errors: Vec<String>,
}

/// A connection closes: a logged-in user is shown disconnected with the counter
/// at zero; an error is reported for each of the two updates if the table lacks
/// the user.
pub fn clean_connection(session: &Session, statuses: &mut StatusMap) -> (c: Cleanup)
    requires
        old(statuses).wf(),
    ensures
        final(statuses).wf(),
        match session.authenticated_user {
            Some(u) => {
                &&& c.user == Some(u)
                &&& old(statuses).view().contains_key(u@) ==> final(statuses).view() == old(statuses).view().insert(u@, initial_info())
                    && c.errors@.len() == 0
                &&& !old(statuses).view().contains_key(u@) ==> final(statuses).view() == old(statuses).view()
                    && c.errors@.len() == 2
                    && c.errors@[0]@ == "Utente "@ + u@ + " non trovato nella mappa degli stati."@
                    && c.errors@[1]@ == c.errors@[0]@
            },
            None => c.user is None && c.errors@.len() == 0 && final(statuses).view() == old(statuses).view(),
        },
{
    let mut errors: Vec<String> = Vec::new();
    match &session.authenticated_user {
        Some(u) => {
            let ghost before = statuses.view();
            let st = update_user_status(statuses, u, UserStatus::Sconnesso);
            if st == StatusUpdate::UnknownUser {
                errors.push(unknown_user_message(u.as_str()));
            }
            let found = update_user_seconds(statuses, u, 0);
            if !found {
                errors.push(unknown_user_message(u.as_str()));
            }
            proof {
                if before.contains_key(u@) {
                    assert(statuses.view() =~= before.insert(u@, initial_info()));
                }
            }
            Cleanup { user: Some(u.clone()), errors }
        },
        None => Cleanup { user: None, errors },
    }
}

/// How a login attempt ends.
#[derive(Debug)]
pub struct LoginOutcome {
    pub reply: ServerReply,
    /// The connection must be registered as the user's.
    pub register_connection: bool,
    /// An error to report to the operator.
    pub operator_error: Option<String>,
}

/// What a login answers, given the hash stored for the name (`None` when no user
/// has it), the password given, and whether another connection holds the user.
pub open spec fn login_answer(stored_hash: Option<Seq<char>>, password: Seq<char>, connected_elsewhere: bool) -> ReplyView {
    match stored_hash {
        Some(h) => if !password_matches(h, password) {
            ReplyView::AuthResult(false, Some("Credenziali non valide"@))
        } else if connected_elsewhere {
            ReplyView::AuthResult(false, Some("Utente già connesso da un altro dispositivo"@))
        } else {
            ReplyView::AuthResult(true, None)
        },
        None => ReplyView::AuthResult(false, Some("Credenziali non valide"@)),
    }
}

/// The hash stored for a user as a lookup gave it, `None` when there is no such user.
pub open spec fn stored_hash(lookup: Result<Option<UserRecord>, String>) -> Option<Seq<char>> {
    match lookup {
        Ok(Some(user)) => Some(user.password_hash@),
        _ => None,
    }
}

/// Decides a login of `username` with `password`, given what looking the user up
/// in the store gave (`Err` carries the failure's text) and whether another
/// connection is registered as that user's. The login succeeds when the user exists,
/// the password matches and no other connection holds the user; then the session is
/// logged in as the user.
pub fn handle_login(
    session: &mut Session,
    username: String,
    password: &str,
    lookup: Result<Option<UserRecord>, String>,
    connected_elsewhere: bool,
) -> (o: LoginOutcome)
    ensures
        final(session).watchdog_armed == old(session).watchdog_armed,
        lookup is Ok ==> reply_view(&o.reply) == login_answer(stored_hash(lookup), password@, connected_elsewhere),
        match lookup {
            Ok(Some(user)) => if password_matches(user.password_hash@, password@) {
                if connected_elsewhere {
                    &&& reply_view(&o.reply) == ReplyView::AuthResult(false, Some("Utente già connesso da un altro dispositivo"@))
                    &&& !o.register_connection && o.operator_error is None
                    &&& final(session).authenticated_user == old(session).authenticated_user
                } else {
                    &&& reply_view(&o.reply) == ReplyView::AuthResult(true, None)
                    &&& o.register_connection && o.operator_error is None
                    &&& final(session).authenticated_user == Some(username)
                }
            } else {
                &&& reply_view(&o.reply) == ReplyView::AuthResult(false, Some("Credenziali non valide"@))
                &&& !o.register_connection && o.operator_error is None
                &&& final(session).authenticated_user == old(session).authenticated_user
            },
            Ok(None) => {
                &&& reply_view(&o.reply) == ReplyView::AuthResult(false, Some("Credenziali non valide"@))
                &&& !o.register_connection && o.operator_error is None
                &&& final(session).authenticated_user == old(session).authenticated_user
            },
            Err(e) => {
                &&& reply_view(&o.reply) == ReplyView::Error("Errore interno del server durante il recupero utente: "@ + e@)
                &&& !o.register_connection
                &&& o.operator_error matches Some(m) && m@ == "Errore DB durante login di "@ + username@ + ": "@ + e@
                &&& final(session).authenticated_user == old(session).authenticated_user
            },
        },
{
    match lookup {
        Ok(Some(user)) => {
            if verify_password(user.password_hash.as_str(), password) {
                if connected_elsewhere {
                    LoginOutcome {
                        reply: ServerReply::AuthResult {
                            success: false,
                            reason: Some(text("Utente già connesso da un altro dispositivo")),
                        },
                        register_connection: false,
                        operator_error: None,
                    }
                } else {
                    session.authenticated_user = Some(username);
                    LoginOutcome {
                        reply: ServerReply::AuthResult { success: true, reason: None },
                        register_connection: true,
                        operator_error: None,
                    }
                }
            } else {
                LoginOutcome {
                    reply: ServerReply::AuthResult { success: false, reason: Some(text("Credenziali non valide")) },
                    register_connection: false,
                    operator_error: None,
                }
            }
        },
        Ok(None) => LoginOutcome {
            reply: ServerReply::AuthResult { success: false, reason: Some(text("Credenziali non valide")) },
            register_connection: false,
            operator_error: None,
        },
        Err(e) => {
            let mut m = text3("Errore DB durante login di ", username.as_str(), ": ");
            m.append(e.as_str());
            LoginOutcome {
                reply: ServerReply::Error {
                    message: text2("Errore interno del server durante il recupero utente: ", e.as_str()),
                },
                register_connection: false,
                operator_error: Some(m),
            }
        },
    }
}

/// Registering and then logging in: the hash that a registration stores lets the
/// same password in, from a connection that is the only one of the user.
pub proof fn lemma_registered_password_logs_in(hash: Seq<char>, password: Seq<char>)
    requires
        password_matches(hash, password),
    ensures
        login_answer(Some(hash), password, false) == ReplyView::AuthResult(true, None),
{
}

/// Once an account is deleted, no password logs in with its name.
pub proof fn lemma_deleted_account_cannot_log_in(password: Seq<char>, connected_elsewhere: bool)
    ensures
        login_answer(None, password, connected_elsewhere) == ReplyView::AuthResult(false, Some("Credenziali non valide"@)),
{
}

/// The text of a registration refused because the name is taken.
pub open spec fn username_taken_text() -> Seq<char> {
    "Username già in uso."@
}

/// The first half of a registration, before anything is stored.
#[derive(Debug)]
pub enum RegistrationStart {
    /// Answer this: the registration is refused.
    Refuse(ServerReply),
    /// Store the user with this password hash.
    Store { password_hash: String },
    /// The password could not be hashed: the connection ends with this error.
    HashFailed,
}

/// Starts a registration: a name already registered is refused; otherwise the
/// password is hashed, to be stored with the name, which fails only for a password
/// longer than Argon2 takes.
pub fn begin_registration(password: &str, already_registered: bool) -> (r: RegistrationStart)
    ensures
        already_registered ==> (r matches RegistrationStart::Refuse(reply)
            && reply_view(&reply) == ReplyView::AuthResult(false, Some(username_taken_text()))),
        !already_registered && utf8_of(password@).len() <= MAX_PASSWORD_BYTES ==> r is Store,
        !already_registered && utf8_of(password@).len() > MAX_PASSWORD_BYTES ==> r is HashFailed,
        r matches RegistrationStart::Store { password_hash } ==> password_matches(password_hash@, password@)
            && argon2id_prefix().is_prefix_of(password_hash@),
{
    if already_registered {
        return RegistrationStart::Refuse(ServerReply::AuthResult {
            success: false,
            reason: Some(text("Username già in uso.")),
        });
    }
    match hash_password(password) {
        Ok(h) => RegistrationStart::Store { password_hash: h },
        Err(_) => RegistrationStart::HashFailed,
    }
}

/// How a registration ends.
#[derive(Debug)]
pub struct RegistrationEnd {
    pub reply: ServerReply,
    /// The connection must be registered as the user's.
    pub register_connection: bool,
}

/// Ends a registration of `username`, given whether storing it worked (`Err` carries
/// the failure's text). When it did, the session is logged in as the user and the
/// user enters the operator's table as disconnected with no seconds counted.
pub fn finish_registration(
    session: &mut Session,
    statuses: &mut StatusMap,
    username: String,
    stored: Result<(), String>,
) -> (e: RegistrationEnd)
    requires
        old(statuses).wf(),
    ensures
        final(statuses).wf(),
        final(session).watchdog_armed == old(session).watchdog_armed,
        match stored {
            Ok(()) => {
                &&& reply_view(&e.reply) == ReplyView::AuthResult(true, None)
                &&& e.register_connection
                &&& final(session).authenticated_user == Some(username)
                &&& final(statuses).view() == old(statuses).view().insert(username@, initial_info())
            },
            Err(err) => {
                &&& reply_view(&e.reply) == ReplyView::AuthResult(false, Some("Errore durante la registrazione: "@ + err@))
                &&& !e.register_connection
                &&& final(session).authenticated_user == old(session).authenticated_user
                &&& final(statuses).view() == old(statuses).view()
            },
        },
{
    match stored {
        Ok(()) => {
            session.authenticated_user = Some(username.clone());
            add_user_to_status_map(statuses, username);
            RegistrationEnd { reply: ServerReply::AuthResult { success: true, reason: None }, register_connection: true }
        },
        Err(err) => RegistrationEnd {
            reply: ServerReply::AuthResult {
                success: false,
                reason: Some(text2("Errore durante la registrazione: ", err.as_str())),
            },
            register_connection: false,
        },
    }
}

/// What to do about a request to delete the account.
#[derive(Debug)]
pub enum DeletionStep {
    /// Answer this and do nothing else.
    Reply { reply: ServerReply, operator_error: Option<String> },
    /// Delete the stored user with this id, then call `finish_deletion`.
    Delete { user_id: i64 },
}

/// What a request to delete the logged-in account decides, given the user logged
/// in (if any), the password given and what looking the user up in the store gave
/// (`Err` carries the failure's text). Only a logged-in user giving the right
/// password gets the account deleted.
pub open spec fn deletion_decided(
    logged_in: Option<String>,
    password: Seq<char>,
    lookup: Result<Option<UserRecord>, String>,
    d: DeletionStep,
) -> bool {
    match logged_in {
        None => d matches DeletionStep::Reply { reply, operator_error }
            && reply_view(&reply) == ReplyView::AccountDeleted(false, Some("Devi essere autenticato per eliminare l'account."@))
            && operator_error is None,
        Some(u) => match lookup {
            Ok(Some(user)) => if password_matches(user.password_hash@, password) {
                d == DeletionStep::Delete { user_id: user.id->0 }
            } else {
                d matches DeletionStep::Reply { reply, operator_error }
                    && reply_view(&reply) == ReplyView::AccountDeleted(false, Some("Password errata."@))
                    && operator_error is None
            },
            Ok(None) => d matches DeletionStep::Reply { reply, operator_error }
                && reply_view(&reply) == ReplyView::AccountDeleted(false, Some("Password errata."@))
                && operator_error is None,
            Err(e) => d matches DeletionStep::Reply { reply, operator_error }
                && reply_view(&reply) == ReplyView::AccountDeleted(false, Some("Errore interno del server: "@ + e@))
                && (operator_error matches Some(m)
                && m@ == "Errore DB durante l'eliminazione di "@ + u@ + ": "@ + e@),
        },
    }
}

/// The logged-in user's stored record has no id while the password matches it: the
/// account cannot be deleted, and the connection ends.
pub open spec fn deletion_without_id(
    logged_in: Option<String>,
    password: Seq<char>,
    lookup: Result<Option<UserRecord>, String>,
) -> bool {
    &&& logged_in is Some
    &&& lookup matches Ok(Some(user)) && password_matches(user.password_hash@, password) && user.id is None
}

/// Decides a request to delete the logged-in account with `password`, given what
/// looking the user up in the store gave, as `deletion_decided` says. A stored user
/// always has an id; one without it, whose password matches, cannot be deleted.
pub fn begin_deletion(
    session: &Session,
    password: &str,
    lookup: Result<Option<UserRecord>, String>,
) -> (d: DeletionStep)
    requires
        !deletion_without_id(session.authenticated_user, password@, lookup),
    ensures
        deletion_decided(session.authenticated_user, password@, lookup, d),
{
    let username = match &session.authenticated_user {
        Some(u) => u,
        None => {
            return DeletionStep::Reply {
                reply: ServerReply::AccountDeleted {
                    success: false,
                    reason: Some(text("Devi essere autenticato per eliminare l'account.")),
                },
                operator_error: None,
            };
        },
    };
    match lookup {
        Ok(Some(user)) => {
            if verify_password(user.password_hash.as_str(), password) {
                DeletionStep::Delete { user_id: user.id.unwrap() }
            } else {
                DeletionStep::Reply {
                    reply: ServerReply::AccountDeleted { success: false, reason: Some(text("Password errata.")) },
                    operator_error: None,
                }
            }
        },
        Ok(None) => DeletionStep::Reply {
            reply: ServerReply::AccountDeleted { success: false, reason: Some(text("Password errata.")) },
            operator_error: None,
        },
        Err(e) => {
            let mut m = text3("Errore DB durante l'eliminazione di ", username.as_str(), ": ");
            m.append(e.as_str());
            DeletionStep::Reply {
                reply: ServerReply::AccountDeleted {
                    success: false,
                    reason: Some(text2("Errore interno del server: ", e.as_str())),
                },
                operator_error: Some(m),
            }
        },
    }
}

/// Like `begin_deletion` for any lookup: `None` exactly when the logged-in user's
/// stored record has no id while the password matches it.
pub fn try_begin_deletion(
    session: &Session,
    password: &str,
    lookup: Result<Option<UserRecord>, String>,
) -> (d: Option<DeletionStep>)
    ensures
        d is None <==> deletion_without_id(session.authenticated_user, password@, lookup),
        d matches Some(step) ==> deletion_decided(session.authenticated_user, password@, lookup, step),
{
    if session.authenticated_user.is_some() {
        match &lookup {
            Ok(Some(user)) => {
                if user.id.is_none() && verify_password(user.password_hash.as_str(), password) {
                    return None;
                }
            },
            _ => {},
        }
    }
    Some(begin_deletion(session, password, lookup))
}

/// Ends the deletion of the logged-in account once the store has dropped it: the
/// user leaves the operator's table and the session is no longer logged in.
/// Returns the answer and the user whose channel must be dropped.
pub fn finish_deletion(session: &mut Session, statuses: &mut StatusMap) -> (r: (ServerReply, String))
    requires
        old(statuses).wf(),
        old(session).authenticated_user is Some,
    ensures
        final(statuses).wf(),
        r.1 == old(session).authenticated_user->0,
        final(statuses).view() == old(statuses).view().remove(r.1@),
        reply_view(&r.0) == ReplyView::AccountDeleted(true, None),
        final(session).authenticated_user is None,
        final(session).watchdog_armed == old(session).watchdog_armed,
{
    let mut user: Option<String> = None;
    std::mem::swap(&mut user, &mut session.authenticated_user);
    match user {
        Some(u) => {
            remove_user_from_status_map(statuses, &u);
            (ServerReply::AccountDeleted { success: true, reason: None }, u)
        },
        None => (ServerReply::AccountDeleted { success: true, reason: None }, String::new()),
    }
}

/// The answer when statistics are asked for a user the store lacks.
pub fn stats_user_not_found_reply(username: &str) -> (r: ServerReply)
    ensures
        reply_view(&r) == ReplyView::Error("Utente '"@ + username@ + "' non trovato"@),
{
    ServerReply::Error { message: text3("Utente '", username, "' non trovato") }
}

/// The countdown the clients get before the server stops, one message per second,
/// followed by the farewell.
pub fn shutdown_countdown() -> (v: Vec<String>)
    ensures
        v@.len() == 4,
        v@[0]@ == "Il server si sta arrestando, verrai disconnesso in 3 secondi..."@,
        v@[1]@ == "Il server si sta arrestando, verrai disconnesso in 2 secondi..."@,
        v@[2]@ == "Il server si sta arrestando, verrai disconnesso in 1 secondi..."@,
        v@[3]@ == "Alla prossima!"@,
{
    let mut v: Vec<String> = Vec::new();
    v.push(text("Il server si sta arrestando, verrai disconnesso in 3 secondi..."));
    v.push(text("Il server si sta arrestando, verrai disconnesso in 2 secondi..."));
    v.push(text("Il server si sta arrestando, verrai disconnesso in 1 secondi..."));
    v.push(text("Alla prossima!"));
    v
}

} // verus!
