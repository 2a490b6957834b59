//! How a new position report moves a user between "moving" and "stopped".

use vstd::prelude::*;
use crate::time::{Timestamp, whole_seconds_between, seconds_between};
use crate::user_status::{
    Info, UserStatus, StatusMap, get_user_info, update_user_status, update_user_seconds,
    entry_of,
};

verus! {

/// Seconds a user may stay at the same place before being shown as stopped.
pub const MAX_SEC: u64 = 180;

/// A position as the comparisons of the tracker see it. Each coordinate is a key
/// that two coordinates share exactly when they are equal numbers; `None` stands
/// for a coordinate that equals nothing, itself included.
#[derive(Clone, Copy, Debug, PartialEq, Eq, Structural)]
pub struct Place {
    pub lat: Option<u64>,
    pub lon: Option<u64>,
}

/// Two coordinates are equal.
pub open spec fn same_coordinate(a: Option<u64>, b: Option<u64>) -> bool {
    a is Some && a == b
}

/// Both coordinates of `a` and `b` are equal.
pub open spec fn same_place(a: Place, b: Place) -> bool {
    same_coordinate(a.lat, b.lat) && same_coordinate(a.lon, b.lon)
}

/// A position report: where the vehicle was, and when.
#[derive(Clone, Copy, Debug, PartialEq, Eq, Structural)]
pub struct TrackSample {
    pub place: Place,
    pub at: Timestamp,
}

/// Whether two coordinates are equal.
pub fn coordinates_equal(a: Option<u64>, b: Option<u64>) -> (r: bool)
    ensures
        r == same_coordinate(a, b),
{
    match (a, b) {
        (Some(x), Some(y)) => x == y,
        _ => false,
    }
}

/// Whether two places coincide.
pub fn places_equal(a: &Place, b: &Place) -> (r: bool)
    ensures
        r == same_place(*a, *b),
{
    coordinates_equal(a.lat, b.lat) && coordinates_equal(a.lon, b.lon)
}

/// Seconds since the previous report, never negative; zero when there is none.
pub open spec fn seconds_since(last: Option<TrackSample>, position: TrackSample) -> int {
    match last {
        Some(l) => {
            let d = whole_seconds_between(l.at, position.at);
            if d > 0 { d } else { 0 }
        },
        None => 0,
    }
}

/// The entry a user has after a report at `position`, given the entry before and
/// the previous report.
pub open spec fn next_info(info: Info, last: Option<TrackSample>, position: TrackSample) -> Info {
    let moving = Info { status: UserStatus::InMovimento, s: 0 };
    match last {
        None => moving,
        Some(l) => match info.status {
            UserStatus::Sconnesso | UserStatus::Problema => moving,
            UserStatus::InMovimento => if same_place(l.place, position.place) {
                let counted = info.s + seconds_since(last, position);
                if counted >= MAX_SEC {
                    Info { status: UserStatus::Fermo, s: counted as u64 }
                } else {
                    Info { status: UserStatus::InMovimento, s: counted as u64 }
                }
            } else {
                moving
            },
            UserStatus::Fermo => if same_place(l.place, position.place) {
                Info { status: UserStatus::Fermo, s: (info.s + seconds_since(last, position)) as u64 }
            } else {
                moving
            },
        },
    }
}

/// A report at `position` adds the time since `last` to the seconds counter: the
/// user stays at the same place, and is moving or stopped.
pub open spec fn adds_to_counter(info: Info, last: Option<TrackSample>, position: TrackSample) -> bool {
    &&& last matches Some(l) && same_place(l.place, position.place)
    &&& info.status == UserStatus::Fermo || info.status == UserStatus::InMovimento
}

/// The seconds counter can absorb what a report at `position` adds to it.
pub open spec fn counter_fits(info: Info, last: Option<TrackSample>, position: TrackSample) -> bool {
    adds_to_counter(info, last, position) ==> info.s + seconds_since(last, position) <= u64::MAX
}

/// Whether a report at `position` keeps the seconds counter of `info` within range.
pub fn report_fits_counter(info: &Info, last: &Option<TrackSample>, position: &TrackSample) -> (r: bool)
    requires
        position.at.wf(),
        last matches Some(l) ==> l.at.wf(),
    ensures
        r == counter_fits(*info, *last, *position),
{
    let adds = match last {
        Some(l) => places_equal(&l.place, &position.place) && (info.status == UserStatus::Fermo
            || info.status == UserStatus::InMovimento),
        None => false,
    };
    if !adds {
        return true;
    }
    let elapsed: u64 = elapsed_since(last, position);
    elapsed <= u64::MAX - info.s
}

fn elapsed_since(last: &Option<TrackSample>, position: &TrackSample) -> (r: u64)
    requires
        position.at.wf(),
        last matches Some(l) ==> l.at.wf(),
    ensures
        r == seconds_since(*last, *position),
{
    match last {
        Some(l) => {
            let d = seconds_between(&l.at, &position.at);
            if d > 0 { d as u64 } else { 0 }
        },
        None => 0,
    }
}

/// The text reported when a position arrives for a user the table lacks.
pub fn missing_info_message(username: &str) -> (m: String)
    ensures
        m@ == "Informazioni sull'utente "@ + username@ + " non trovate nella mappa degli stati."@,
{
    let mut m = String::from_str("Informazioni sull'utente ");
    m.append(username);
    m.append(" non trovate nella mappa degli stati.");
    m
}

/// Applies a position report of `username` to the table: `last` is the user's
/// previous report, if any. On success returns whether the user's status changed,
/// which is when the display must be refreshed; fails, leaving the table as it was,
/// when the table lacks the user.
pub fn handle_new_track_point(
    map: &mut StatusMap,
    username: &String,
    last: Option<TrackSample>,
    position: TrackSample,
) -> (r: Result<bool, String>)
    requires
        old(map).wf(),
        position.at.wf(),
        last matches Some(l) ==> l.at.wf(),
        old(map).view().contains_key(username@) ==> counter_fits(old(map).view()[username@], last, position),
    ensures
        final(map).wf(),
        r is Err <==> !old(map).view().contains_key(username@),
        r matches Err(m) ==> m@ == "Informazioni sull'utente "@ + username@ + " non trovate nella mappa degli stati."@
            && final(map).view() == old(map).view(),
        r matches Ok(changed) ==> {
            let before = old(map).view()[username@];
            let after = next_info(before, last, position);
            &&& final(map).view() == old(map).view().insert(username@, after)
            &&& changed == (after.status != before.status)
        },
{
    let info = match get_user_info(map, username) {
        Some(info) => info,
        None => {
            return Err(missing_info_message(username.as_str()));
        },
    };
    let elapsed: u64 = elapsed_since(&last, &position);
    let ghost m0 = map.view();
    let changed: bool;
    match last {
        None => {
            let u = update_user_status(map, username, UserStatus::InMovimento);
            update_user_seconds(map, username, 0);
            changed = u == crate::user_status::StatusUpdate::Changed;
        },
        Some(l) => {
            match info.status {
                UserStatus::Sconnesso | UserStatus::Problema => {
                    update_user_status(map, username, UserStatus::InMovimento);
                    update_user_seconds(map, username, 0);
                    changed = true;
                },
                UserStatus::InMovimento => {
                    if places_equal(&l.place, &position.place) {
                        let counted: u64 = info.s + elapsed;
                        if counted >= MAX_SEC {
                            update_user_status(map, username, UserStatus::Fermo);
                            update_user_seconds(map, username, counted);
                            changed = true;
                        } else {
                            update_user_seconds(map, username, counted);
                            changed = false;
                        }
                    } else {
                        update_user_status(map, username, UserStatus::InMovimento);
                        update_user_seconds(map, username, 0);
                        changed = false;
                    }
                },
                UserStatus::Fermo => {
                    if !places_equal(&l.place, &position.place) {
                        update_user_status(map, username, UserStatus::InMovimento);
                        update_user_seconds(map, username, 0);
                        changed = true;
                    } else {
                        update_user_seconds(map, username, info.s + elapsed);
                        changed = false;
                    }
                },
            }
        },
    }
    proof {
        assert(map.view() =~= m0.insert(username@, next_info(info, last, position)));
    }
    Ok(changed)
}

/// A position report always leaves the user shown as moving or as stopped.
pub proof fn lemma_report_means_active(info: Info, last: Option<TrackSample>, position: TrackSample)
    ensures
        next_info(info, last, position).status == UserStatus::InMovimento
            || next_info(info, last, position).status == UserStatus::Fermo,
{
}

/// The first report of a user, and any report at a new place, shows the user moving
/// with the counter reset.
pub proof fn lemma_new_place_means_moving(info: Info, last: Option<TrackSample>, position: TrackSample)
    requires
        last matches Some(l) ==> !same_place(l.place, position.place),
    ensures
        next_info(info, last, position) == (Info { status: UserStatus::InMovimento, s: 0 }),
{
}

/// A disconnected user, or one with a problem, is shown moving again at the next report.
pub proof fn lemma_report_recovers(info: Info, last: Option<TrackSample>, position: TrackSample)
    requires
        info.status == UserStatus::Sconnesso || info.status == UserStatus::Problema,
    ensures
        next_info(info, last, position) == (Info { status: UserStatus::InMovimento, s: 0 }),
{
}

/// A user becomes stopped exactly when a moving user reports the same place again
/// and the time counted at that place, this report included, reaches three minutes.
pub proof fn lemma_stop_after_three_minutes(info: Info, last: Option<TrackSample>, position: TrackSample)
    requires
        info.status != UserStatus::Fermo,
    ensures
        next_info(info, last, position).status == UserStatus::Fermo <==> (
            last is Some && info.status == UserStatus::InMovimento
            && same_place(last->0.place, position.place)
            && info.s + seconds_since(last, position) >= MAX_SEC),
{
}

/// While a moving or stopped user stays at the same place, the counter grows by the
/// time since the previous report; a stopped user stays stopped, and a moving one
/// stays moving until three minutes are counted.
pub proof fn lemma_still_user_accumulates(info: Info, last: TrackSample, position: TrackSample)
    requires
        same_place(last.place, position.place),
        info.status == UserStatus::Fermo || info.status == UserStatus::InMovimento,
        counter_fits(info, Some(last), position),
    ensures
        next_info(info, Some(last), position).s == info.s + seconds_since(Some(last), position),
        info.status == UserStatus::Fermo ==> next_info(info, Some(last), position).status == UserStatus::Fermo,
        info.status == UserStatus::InMovimento ==> next_info(info, Some(last), position).status == (
            if info.s + seconds_since(Some(last), position) >= MAX_SEC { UserStatus::Fermo } else { UserStatus::InMovimento }),
{
}

/// A stopped user stays stopped as long as the place does not change.
pub proof fn lemma_stopped_stays_stopped(info: Info, last: TrackSample, position: TrackSample)
    requires
        info.status == UserStatus::Fermo,
        same_place(last.place, position.place),
    ensures
        next_info(info, Some(last), position).status == UserStatus::Fermo,
{
}

/// The entry after a series of reports, each following the previous one.
pub open spec fn replay(info: Info, last: TrackSample, reports: Seq<TrackSample>) -> Info
    decreases reports.len(),
{
    if reports.len() == 0 {
        info
    } else {
        replay(next_info(info, Some(last), reports[0]), reports[0], reports.drop_first())
    }
}

/// Seconds counted over the first `n` steps of a series of reports.
pub open spec fn steps_seconds(last: TrackSample, reports: Seq<TrackSample>, n: nat) -> int
    decreases n,
{
    if n == 0 || reports.len() == 0 {
        0
    } else {
        seconds_since(Some(last), reports[0]) + steps_seconds(reports[0], reports.drop_first(), (n - 1) as nat)
    }
}

/// A moving user whose reports all stay at one place is shown stopped once three
/// minutes have been counted over the reports, the last one included.
pub proof fn lemma_same_place_for_three_minutes_means_stopped(
    info: Info,
    last: TrackSample,
    reports: Seq<TrackSample>,
)
    requires
        reports.len() > 0,
        info.status == UserStatus::InMovimento,
        forall|i: int| 0 <= i < reports.len() ==> same_place(last.place, #[trigger] reports[i].place),
        last.place.lat is Some && last.place.lon is Some,
        info.s + steps_seconds(last, reports, reports.len()) >= MAX_SEC,
    ensures
        replay(info, last, reports).status == UserStatus::Fermo,
    decreases reports.len(),
{
    let p = reports[0];
    let rest = reports.drop_first();
    assert(same_place(last.place, p.place));
    let next = next_info(info, Some(last), p);
    assert(steps_seconds(last, reports, reports.len())
        == seconds_since(Some(last), p) + steps_seconds(p, rest, rest.len()));
    assert forall|i: int| 0 <= i < rest.len() implies same_place(p.place, #[trigger] rest[i].place) by {
        assert(same_place(last.place, reports[i + 1].place));
    }
    if info.s + seconds_since(Some(last), p) >= MAX_SEC {
        assert(next.status == UserStatus::Fermo);
        lemma_stopped_series_stays_stopped(next, p, rest);
    } else {
        assert(rest.len() > 0) by {
            if rest.len() == 0 {
                assert(steps_seconds(p, rest, 0) == 0);
            }
        }
        assert(seconds_since(Some(last), p) >= 0);
        assert(next.s == info.s + seconds_since(Some(last), p));
        assert(next.status == UserStatus::InMovimento);
        lemma_same_place_for_three_minutes_means_stopped(next, p, rest);
    }
}

proof fn lemma_stopped_series_stays_stopped(info: Info, last: TrackSample, reports: Seq<TrackSample>)
    requires
        info.status == UserStatus::Fermo,
        forall|i: int| 0 <= i < reports.len() ==> same_place(last.place, #[trigger] reports[i].place),
        last.place.lat is Some && last.place.lon is Some,
    ensures
        replay(info, last, reports).status == UserStatus::Fermo,
    decreases reports.len(),
{
    if reports.len() > 0 {
        let p = reports[0];
        assert(same_place(last.place, p.place));
        let rest = reports.drop_first();
        assert forall|i: int| 0 <= i < rest.len() implies same_place(p.place, #[trigger] rest[i].place) by {
            assert(same_place(last.place, reports[i + 1].place));
        }
        lemma_stopped_series_stays_stopped(next_info(info, Some(last), p), p, rest);
    }
}

} // verus!
