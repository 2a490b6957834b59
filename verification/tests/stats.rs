use georuggine::stats::movement_totals;
use georuggine::time::Timestamp;
use georuggine::tracking::{Place, TrackSample};

fn key(x: f64) -> Option<u64> {
    if x.is_nan() {
        None
    } else if x == 0.0 {
        Some(0)
    } else {
        Some(x.to_bits())
    }
}

fn point(lat: f64, lon: f64, secs_offset: i64) -> TrackSample {
    TrackSample { place: Place { lat: key(lat), lon: key(lon) }, at: Timestamp { secs: secs_offset, nanos: 0 } }
}

#[test]
fn nessun_punto_restituisce_statistiche_vuote() {
    let stats = movement_totals(&vec![]);
    assert!(stats.moving_pairs.is_empty());
    assert_eq!(stats.moving_duration_secs, 0);
    assert_eq!(stats.paused_duration_secs, 0);
}

#[test]
fn punti_uguali_contano_come_sosta() {
    let points = vec![point(45.0, 9.0, 0), point(45.0, 9.0, 30)];
    let stats = movement_totals(&points);
    assert_eq!(stats.paused_duration_secs, 30);
    assert_eq!(stats.moving_duration_secs, 0);
    assert!(stats.moving_pairs.is_empty());
}

#[test]
fn gap_troppo_grande_viene_ignorato() {
    let points = vec![point(45.0, 9.0, 0), point(45.1, 9.1, 36)];
    let stats = movement_totals(&points);
    assert_eq!(stats.moving_duration_secs, 0);
    assert_eq!(stats.paused_duration_secs, 0);
    assert!(stats.moving_pairs.is_empty());
}

#[test]
fn movimento_reale_calcola_distanza_e_velocita() {
    let points = vec![point(45.0, 9.0, 0), point(45.001, 9.0, 30)];
    let stats = movement_totals(&points);
    assert_eq!(stats.moving_pairs, vec![0]);
    assert_eq!(stats.moving_duration_secs, 30);
    assert_eq!(stats.paused_duration_secs, 0);
}

#[test]
fn gap_of_exactly_the_limit_still_counts() {
    let points = vec![point(45.0, 9.0, 0), point(45.1, 9.1, 35)];
    let stats = movement_totals(&points);
    assert_eq!(stats.moving_duration_secs, 35);
    assert_eq!(stats.moving_pairs, vec![0]);
}

#[test]
fn reports_out_of_order_or_simultaneous_are_ignored() {
    let points = vec![point(45.0, 9.0, 30), point(45.1, 9.1, 30), point(45.2, 9.2, 10)];
    let stats = movement_totals(&points);
    assert_eq!(stats.moving_duration_secs, 0);
    assert_eq!(stats.paused_duration_secs, 0);
    assert!(stats.moving_pairs.is_empty());
}

#[test]
fn mixed_trip_splits_pause_and_movement() {
    let points = vec![
        point(45.0, 9.0, 0),
        point(45.0, 9.0, 30),
        point(45.1, 9.0, 60),
        point(45.1, 9.0, 200),
        point(45.2, 9.0, 230),
    ];
    let stats = movement_totals(&points);
    assert_eq!(stats.paused_duration_secs, 30);
    assert_eq!(stats.moving_duration_secs, 60);
    assert_eq!(stats.moving_pairs, vec![1, 3]);
}

#[test]
fn partial_seconds_are_dropped() {
    let a = TrackSample { place: Place { lat: key(1.0), lon: key(1.0) }, at: Timestamp { secs: 0, nanos: 900_000_000 } };
    let b = TrackSample { place: Place { lat: key(1.0), lon: key(1.0) }, at: Timestamp { secs: 10, nanos: 100_000_000 } };
    let stats = movement_totals(&vec![a, b]);
    assert_eq!(stats.paused_duration_secs, 9);
}

#[test]
fn nan_coordinates_never_match() {
    let points = vec![point(f64::NAN, 9.0, 0), point(f64::NAN, 9.0, 10)];
    let stats = movement_totals(&points);
    assert_eq!(stats.moving_duration_secs, 10);
    assert_eq!(stats.paused_duration_secs, 0);
}
