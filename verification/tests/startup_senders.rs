//! The order of the senders at startup.

use sp_playback::startup_senders::{
    find_sender_url, ndi_port_range, ordered_active_for_startup, port_wait_step,
    sender_url_record, wait_for_ports_free, Playlist, PortWaitOutcome, PortWaitStep, ReadyEvent,
};

fn pl(id: i64, ndi: &str) -> Playlist {
    Playlist {
        id,
        ndi_output_name: ndi.to_string(),
        is_active: true,
        ..Default::default()
    }
}

#[test]
fn port_range_is_base_through_base_plus_n_plus_one() {
    assert_eq!(ndi_port_range(3), vec![5960, 5961, 5962, 5963, 5964]);
}

#[test]
fn port_range_zero_outputs_still_covers_base_pair() {
    assert_eq!(ndi_port_range(0), vec![5960, 5961]);
}

#[test]
fn ordered_active_sorts_by_id_regardless_of_input_order() {
    let playlists = vec![pl(3, "SP-c"), pl(1, "SP-a"), pl(2, "SP-b")];
    assert_eq!(
        ordered_active_for_startup(&playlists),
        vec![
            (1, "SP-a".to_string()),
            (2, "SP-b".to_string()),
            (3, "SP-c".to_string()),
        ]
    );
}

#[test]
fn ordered_active_skips_empty_ndi_name() {
    let playlists = vec![pl(1, "SP-a"), pl(2, ""), pl(3, "SP-c")];
    assert_eq!(
        ordered_active_for_startup(&playlists),
        vec![(1, "SP-a".to_string()), (3, "SP-c".to_string())]
    );
}

#[test]
fn wait_free_immediately_never_sleeps() {
    let mut sleeps = 0u32;
    let outcome = wait_for_ports_free(|_| true, &[5960, 5961], 40, || sleeps += 1);
    assert_eq!(outcome, PortWaitOutcome::FreeImmediately);
    assert_eq!(sleeps, 0, "must not sleep when ports are already free");
}

#[test]
fn wait_free_after_three_polls() {
    let mut calls = 0u32;
    let mut sleeps = 0u32;
    let outcome = wait_for_ports_free(
        |_| {
            calls += 1;
            calls >= 4
        },
        &[5960],
        40,
        || sleeps += 1,
    );
    assert_eq!(outcome, PortWaitOutcome::FreeAfter(3));
    assert_eq!(sleeps, 3, "one sleep before each of the 3 retries");
}

#[test]
fn wait_times_out_after_max_polls() {
    let mut sleeps = 0u32;
    let outcome = wait_for_ports_free(|_| false, &[5960], 5, || sleeps += 1);
    assert_eq!(outcome, PortWaitOutcome::TimedOut(5));
    assert_eq!(sleeps, 5, "sleeps once per retry up to the bound");
}

#[test]
fn equal_ids_keep_their_order() {
    let playlists = vec![pl(2, "b"), pl(1, "x"), pl(2, "a"), pl(1, "y")];
    assert_eq!(
        ordered_active_for_startup(&playlists),
        vec![
            (1, "x".to_string()),
            (1, "y".to_string()),
            (2, "b".to_string()),
            (2, "a".to_string()),
        ]
    );
}

#[test]
fn the_prober_sees_the_ports_and_is_asked_once_more_than_the_bound() {
    let mut seen: Vec<Vec<u16>> = Vec::new();
    let outcome = wait_for_ports_free(
        |ports: &[u16]| {
            seen.push(ports.to_vec());
            false
        },
        &[5960, 5961],
        2,
        || {},
    );
    assert_eq!(outcome, PortWaitOutcome::TimedOut(2));
    assert_eq!(seen, vec![vec![5960, 5961]; 3]);
}

#[test]
fn a_look_decides_what_follows() {
    assert_eq!(port_wait_step(0, true, 5), PortWaitStep::Done(PortWaitOutcome::FreeImmediately));
    assert_eq!(port_wait_step(2, true, 5), PortWaitStep::Done(PortWaitOutcome::FreeAfter(2)));
    assert_eq!(port_wait_step(2, false, 5), PortWaitStep::Again { attempt: 3 });
    assert_eq!(port_wait_step(5, false, 5), PortWaitStep::Done(PortWaitOutcome::TimedOut(5)));
    assert_eq!(port_wait_step(0, false, 0), PortWaitStep::Done(PortWaitOutcome::TimedOut(0)));
}

#[test]
fn an_existing_output_keeps_its_address() {
    let url = Some("10.0.0.1:5961".to_string());
    assert_eq!(sender_url_record(ReadyEvent::Ready(url.clone())), Some(url));
    assert_eq!(sender_url_record(ReadyEvent::Ready(None)), Some(None));
    assert_eq!(sender_url_record(ReadyEvent::Existing), None);
    assert_eq!(sender_url_record(ReadyEvent::TimedOut), Some(None));
}

#[test]
fn the_first_discovered_address_of_a_playlist_counts() {
    let found = vec![(2, "b".to_string()), (1, "a".to_string()), (2, "c".to_string())];
    assert_eq!(find_sender_url(&found, 2), Some("b".to_string()));
    assert_eq!(find_sender_url(&found, 1), Some("a".to_string()));
    assert_eq!(find_sender_url(&found, 3), None);
}
