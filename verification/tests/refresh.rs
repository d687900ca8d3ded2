use bitcoin_rpc_web::dashboard_service::{
    build_snapshot, DashboardPartialUpdate, DashboardSnapshot, MempoolSummary,
};
use bitcoin_rpc_web::json::Json;
use bitcoin_rpc_web::refresh::{
    can_run_debounced_refresh, classify_topic, handle_dashboard, handle_zmq, poll_zmq_feed,
    schedule_pending_partial_if_ready, start_dashboard_refresh, start_partial_dashboard_refresh,
    DashboardAction, DashboardEvent, DashboardPartialSet, DashboardState, PeerSortField,
    ZmqViewState, ZMQ_REFRESH_DEBOUNCE_MS,
};
use bitcoin_rpc_web::rpc_client::parse_response;
use bitcoin_rpc_web::zmq::ZmqState;

fn json(text: &str) -> Json {
    parse_response(text).expect("test document should be JSON")
}

fn snapshot(peer_ids: &[i64]) -> DashboardSnapshot {
    let peers = peer_ids.iter().map(|id| format!(r#"{{"id": {}}}"#, id)).collect::<Vec<_>>();
    build_snapshot(&vec![
        json(r#"{"chain": "regtest", "blocks": 1, "headers": 1, "verificationprogress": 1}"#),
        json(r#"{"version": 1, "subversion": "s", "protocolversion": 2, "connections": 3}"#),
        json(r#"{"size": 2, "bytes": 3, "usage": 4, "maxmempool": 5}"#),
        json(&format!("[{}]", peers.join(","))),
        json("9"),
        json(r#"{"totalbytesrecv": 1, "totalbytessent": 2}"#),
    ])
    .unwrap()
}

fn loaded_state() -> DashboardState {
    let mut state = DashboardState::new();
    assert_eq!(
        handle_dashboard(&mut state, DashboardEvent::Tick, 1000),
        DashboardAction::LoadSnapshot { generation: 0 }
    );
    assert_eq!(
        handle_dashboard(&mut state, DashboardEvent::Loaded(0, Ok(snapshot(&[1, 2]))), 1100),
        DashboardAction::Idle
    );
    state
}

#[test]
fn merging_keeps_the_stronger_classification() {
    let merged = |pending: Option<DashboardPartialSet>, next: DashboardPartialSet| {
        let mut state = DashboardState::new();
        state.pending_partial = pending;
        state.merge_pending_partial(next);
        state.pending_partial
    };
    let chain = DashboardPartialSet::ChainAndMempool;
    let mempool = DashboardPartialSet::MempoolOnly;
    assert_eq!(merged(Some(mempool), chain), Some(chain));
    assert_eq!(merged(Some(chain), mempool), Some(chain));
    assert_eq!(merged(Some(mempool), mempool), Some(mempool));
    assert_eq!(merged(Some(chain), chain), Some(chain));
    assert_eq!(merged(None, mempool), Some(mempool));
    assert_eq!(merged(None, chain), Some(chain));
}

#[test]
fn topics_are_classified() {
    assert_eq!(classify_topic("hashblock"), Some(DashboardPartialSet::ChainAndMempool));
    assert_eq!(classify_topic("hashtx"), Some(DashboardPartialSet::MempoolOnly));
    assert_eq!(classify_topic("rawtx"), None);
    assert_eq!(classify_topic("HASHBLOCK"), None);
    assert_eq!(classify_topic(""), None);
}

#[test]
fn debounce_window_is_eight_hundred_milliseconds() {
    assert_eq!(ZMQ_REFRESH_DEBOUNCE_MS, 800);
    let mut state = DashboardState::new();
    assert!(can_run_debounced_refresh(&state, 0));
    state.last_refresh_at = Some(1000);
    assert!(!can_run_debounced_refresh(&state, 1000));
    assert!(!can_run_debounced_refresh(&state, 1799));
    assert!(can_run_debounced_refresh(&state, 1800));
    assert!(!can_run_debounced_refresh(&state, 999));
    assert!(!can_run_debounced_refresh(&state, 0));
}

#[test]
fn events_inside_the_window_are_dispatched_once() {
    let mut state = loaded_state();
    state.merge_pending_partial(DashboardPartialSet::MempoolOnly);
    assert_eq!(handle_zmq(&mut state, 1200), DashboardAction::Idle);
    state.merge_pending_partial(DashboardPartialSet::ChainAndMempool);
    assert_eq!(handle_zmq(&mut state, 1500), DashboardAction::Idle);
    assert_eq!(state.pending_partial, Some(DashboardPartialSet::ChainAndMempool));
    assert_eq!(
        handle_zmq(&mut state, 1800),
        DashboardAction::RequestPartial(DashboardPartialSet::ChainAndMempool)
    );
    assert_eq!(state.pending_partial, None);
    assert_eq!(handle_zmq(&mut state, 1900), DashboardAction::Idle);
}

#[test]
fn an_event_after_the_window_is_dispatched_on_its_own() {
    let mut state = loaded_state();
    state.merge_pending_partial(DashboardPartialSet::MempoolOnly);
    let action = handle_zmq(&mut state, 1800);
    assert_eq!(action, DashboardAction::RequestPartial(DashboardPartialSet::MempoolOnly));
    let action = handle_dashboard(
        &mut state,
        DashboardEvent::PartialRefreshRequested(DashboardPartialSet::MempoolOnly),
        1800,
    );
    assert_eq!(
        action,
        DashboardAction::LoadPartial { generation: 0, partial: DashboardPartialSet::MempoolOnly }
    );
    assert!(state.in_flight);

    state.merge_pending_partial(DashboardPartialSet::ChainAndMempool);
    assert_eq!(handle_zmq(&mut state, 5000), DashboardAction::Idle);

    let update = DashboardPartialUpdate::Mempool(MempoolSummary {
        transactions: 7,
        bytes: 8,
        usage: 9,
        maxmempool: 10,
    });
    let action = handle_dashboard(&mut state, DashboardEvent::PartialLoaded(0, Ok(update)), 1900);
    assert_eq!(action, DashboardAction::Idle);
    assert!(!state.in_flight);
    assert_eq!(state.snapshot.as_ref().unwrap().mempool.transactions, 7);
    assert_eq!(
        handle_zmq(&mut state, 2600),
        DashboardAction::RequestPartial(DashboardPartialSet::ChainAndMempool)
    );
}

#[test]
fn a_finished_refresh_dispatches_what_is_pending() {
    let mut state = loaded_state();
    assert_eq!(
        handle_dashboard(&mut state, DashboardEvent::Tick, 3000),
        DashboardAction::LoadSnapshot { generation: 0 }
    );
    state.merge_pending_partial(DashboardPartialSet::MempoolOnly);
    let action = handle_dashboard(&mut state, DashboardEvent::Loaded(0, Ok(snapshot(&[1]))), 3900);
    assert_eq!(action, DashboardAction::RequestPartial(DashboardPartialSet::MempoolOnly));
    assert_eq!(state.pending_partial, None);
}

#[test]
fn stale_results_are_discarded() {
    let mut state = loaded_state();
    assert_eq!(
        handle_dashboard(&mut state, DashboardEvent::Tick, 5000),
        DashboardAction::LoadSnapshot { generation: 0 }
    );
    state.advance_generation();
    assert_eq!(state.request_gen, 1);
    let action = handle_dashboard(&mut state, DashboardEvent::Loaded(0, Ok(snapshot(&[9]))), 6000);
    assert_eq!(action, DashboardAction::Idle);
    assert!(!state.in_flight);
    assert_eq!(state.snapshot.as_ref().unwrap().peers.len(), 2);
    assert!(state.error.is_none());

    start_dashboard_refresh(&mut state, 7000);
    let action = handle_dashboard(
        &mut state,
        DashboardEvent::PartialLoaded(0, Err("late".to_string())),
        7100,
    );
    assert_eq!(action, DashboardAction::Idle);
    assert!(state.error.is_none());

    start_dashboard_refresh(&mut state, 8000);
    handle_dashboard(&mut state, DashboardEvent::Loaded(1, Err("now".to_string())), 8100);
    assert_eq!(state.error.as_deref(), Some("now"));
    assert_eq!(state.snapshot.as_ref().unwrap().peers.len(), 2);
}

#[test]
fn generation_wraps_around() {
    let mut state = DashboardState::new();
    state.request_gen = u64::MAX;
    state.advance_generation();
    assert_eq!(state.request_gen, 0);
}

#[test]
fn ticks_and_requests_wait_for_the_flight() {
    let mut state = DashboardState::new();
    assert_eq!(
        handle_dashboard(
            &mut state,
            DashboardEvent::PartialRefreshRequested(DashboardPartialSet::MempoolOnly),
            10
        ),
        DashboardAction::LoadSnapshot { generation: 0 }
    );
    assert_eq!(state.last_refresh_at, Some(10));
    assert_eq!(handle_dashboard(&mut state, DashboardEvent::Tick, 20), DashboardAction::Idle);
    assert_eq!(
        handle_dashboard(
            &mut state,
            DashboardEvent::PartialRefreshRequested(DashboardPartialSet::ChainAndMempool),
            30
        ),
        DashboardAction::Idle
    );
    assert_eq!(state.last_refresh_at, Some(10));
}

#[test]
fn a_partial_update_without_a_snapshot_starts_a_full_refresh() {
    let mut state = DashboardState::new();
    start_partial_dashboard_refresh(&mut state, DashboardPartialSet::MempoolOnly, 100);
    let update = DashboardPartialUpdate::Mempool(MempoolSummary {
        transactions: 1,
        bytes: 1,
        usage: 1,
        maxmempool: 1,
    });
    let action = handle_dashboard(&mut state, DashboardEvent::PartialLoaded(0, Ok(update)), 200);
    assert_eq!(action, DashboardAction::LoadSnapshot { generation: 0 });
    assert!(state.in_flight);
    assert!(state.snapshot.is_none());
    assert_eq!(state.last_refresh_at, Some(200));
}

#[test]
fn selection_sorting_and_level_follow_the_events() {
    let mut state = loaded_state();
    handle_dashboard(&mut state, DashboardEvent::PeerSelected(2), 0);
    assert_eq!(state.selected_peer_id, Some(2));
    start_dashboard_refresh(&mut state, 2000);
    handle_dashboard(&mut state, DashboardEvent::Loaded(0, Ok(snapshot(&[2, 3]))), 2100);
    assert_eq!(state.selected_peer_id, Some(2));
    start_dashboard_refresh(&mut state, 3000);
    handle_dashboard(&mut state, DashboardEvent::Loaded(0, Ok(snapshot(&[3]))), 3100);
    assert_eq!(state.selected_peer_id, None);
    handle_dashboard(&mut state, DashboardEvent::PeerSelected(3), 0);
    handle_dashboard(&mut state, DashboardEvent::PeerDetailClosed, 0);
    assert_eq!(state.selected_peer_id, None);

    assert_eq!(state.peer_sort, PeerSortField::default());
    handle_dashboard(&mut state, DashboardEvent::PeerSortPressed(PeerSortField::MinPing), 0);
    assert!(state.peer_sort_desc);
    handle_dashboard(&mut state, DashboardEvent::PeerSortPressed(PeerSortField::MinPing), 0);
    assert!(!state.peer_sort_desc);
    handle_dashboard(&mut state, DashboardEvent::PeerSortPressed(PeerSortField::MinPing), 0);
    handle_dashboard(&mut state, DashboardEvent::PeerSortPressed(PeerSortField::Age), 0);
    assert_eq!(state.peer_sort, PeerSortField::Age);
    assert!(!state.peer_sort_desc);

    assert_eq!(state.netinfo_level, 3);
    handle_dashboard(&mut state, DashboardEvent::NetinfoLevelChanged(9), 0);
    assert_eq!(state.netinfo_level, 4);
    handle_dashboard(&mut state, DashboardEvent::NetinfoLevelChanged(0), 0);
    assert_eq!(state.netinfo_level, 0);
}

#[test]
fn scheduling_needs_a_pending_classification_and_an_open_window() {
    let mut state = DashboardState::new();
    assert_eq!(schedule_pending_partial_if_ready(&mut state, 0), DashboardAction::Idle);
    state.last_refresh_at = Some(100);
    state.pending_partial = Some(DashboardPartialSet::MempoolOnly);
    assert_eq!(schedule_pending_partial_if_ready(&mut state, 899), DashboardAction::Idle);
    assert_eq!(state.pending_partial, Some(DashboardPartialSet::MempoolOnly));
    assert_eq!(
        schedule_pending_partial_if_ready(&mut state, 900),
        DashboardAction::RequestPartial(DashboardPartialSet::MempoolOnly)
    );
}

#[test]
fn polling_the_feed_updates_the_view_and_the_pending_classification() {
    let mut feed = ZmqState::new();
    feed.mark_connected("tcp://a");
    feed.record(&vec![b"hashtx".to_vec(), vec![1; 32], vec![1, 0, 0, 0]], 10);
    feed.record(&vec![b"rawtx".to_vec(), vec![2; 3], vec![2, 0, 0, 0]], 11);
    let mut view = ZmqViewState::new();
    let mut dashboard = DashboardState::new();
    poll_zmq_feed(&mut view, &mut dashboard, &feed);
    assert!(view.connected);
    assert_eq!(view.connected_address, "tcp://a");
    assert_eq!(view.events_seen, 2);
    assert_eq!(view.last_cursor, 2);
    assert_eq!(view.last_topic.as_deref(), Some("rawtx"));
    assert_eq!(view.last_event_at, Some(11));
    assert_eq!(view.recent_events.len(), 2);
    assert_eq!(view.recent_events[0].event_hash, "01".repeat(32));
    assert_eq!(view.recent_events[1].event_hash, "020202");
    assert_eq!(view.recent_events[1].topic, "rawtx");
    assert_eq!(dashboard.pending_partial, Some(DashboardPartialSet::MempoolOnly));

    poll_zmq_feed(&mut view, &mut dashboard, &feed);
    assert_eq!(view.recent_events.len(), 2);
    assert_eq!(dashboard.pending_partial, Some(DashboardPartialSet::MempoolOnly));

    feed.record(&vec![b"hashblock".to_vec(), vec![3; 32], vec![3, 0, 0, 0]], 12);
    feed.record(&vec![b"hashtx".to_vec(), vec![4; 32], vec![4, 0, 0, 0]], 13);
    poll_zmq_feed(&mut view, &mut dashboard, &feed);
    assert_eq!(view.last_cursor, 4);
    assert_eq!(view.recent_events.len(), 4);
    assert_eq!(dashboard.pending_partial, Some(DashboardPartialSet::ChainAndMempool));
}

#[test]
fn the_view_keeps_the_latest_eighty_events() {
    let mut feed = ZmqState::new();
    for i in 0..100u64 {
        feed.record(&vec![b"other".to_vec(), vec![i as u8], vec![]], i);
    }
    let mut view = ZmqViewState::new();
    let mut dashboard = DashboardState::new();
    poll_zmq_feed(&mut view, &mut dashboard, &feed);
    assert_eq!(view.recent_events.len(), 80);
    assert_eq!(view.recent_events[0].timestamp, 20);
    assert_eq!(view.recent_events[79].timestamp, 99);
    assert_eq!(dashboard.pending_partial, None);
    view.reset();
    assert_eq!(view.last_cursor, 0);
    assert!(view.recent_events.is_empty() && view.last_topic.is_none());
}
