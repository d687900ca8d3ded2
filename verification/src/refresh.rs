use crate::dashboard_service::{
    applied, apply_partial, has_peer, lists_peer, DashboardPartialUpdate, DashboardSnapshot,
};
use crate::text::str_eq;
use crate::zmq::{ZmqMessage, ZmqState};
use vstd::prelude::*;

verus! {

/// The least time, in milliseconds, between the starts of two refreshes.
pub const ZMQ_REFRESH_DEBOUNCE_MS: u64 = 800;

/// The highest level of network detail that can be shown.
pub const MAX_NETINFO_LEVEL: u8 = 4;

/// Which part of a snapshot an event asks to refresh.
#[derive(Clone, Copy, Debug, PartialEq, Eq, Structural)]
pub enum DashboardPartialSet {
    MempoolOnly,
    ChainAndMempool,
}

/// What the peer table is sorted by.
#[derive(Clone, Copy, Debug, PartialEq, Eq, Structural)]
pub enum PeerSortField {
    Id,
    Direction,
    ConnectionType,
    Network,
    MinPing,
    Ping,
    Age,
    Address,
    Version,
}

impl Default for PeerSortField {
    fn default() -> (r: PeerSortField)
        ensures
            r == PeerSortField::MinPing,
    {
        PeerSortField::MinPing
    }
}

/// What the caller is to do after a step of the coordinator.
#[derive(Clone, Copy, Debug, PartialEq, Eq, Structural)]
pub enum DashboardAction {
    /// Nothing.
    Idle,
    /// Fetch a full snapshot and hand the result back under this generation.
    LoadSnapshot { generation: u64 },
    /// Fetch a partial update and hand the result back under this generation.
    LoadPartial { generation: u64, partial: DashboardPartialSet },
    /// Hand this classification back as a request for a partial refresh.
    RequestPartial(DashboardPartialSet),
}

/// What can happen to the dashboard.
#[derive(Debug)]
pub enum DashboardEvent {
    Tick,
    Loaded(u64, Result<DashboardSnapshot, String>),
    PeerSelected(i64),
    PeerDetailClosed,
    PeerSortPressed(PeerSortField),
    NetinfoLevelChanged(u8),
    PartialRefreshRequested(DashboardPartialSet),
    PartialLoaded(u64, Result<DashboardPartialUpdate, String>),
}

/// The dashboard: the snapshot it shows, what the user chose, and what the
/// refresh coordinator keeps track of.
#[derive(Debug)]
pub struct DashboardState {
    pub snapshot: Option<DashboardSnapshot>,
    pub in_flight: bool,
    pub error: Option<String>,
    pub selected_peer_id: Option<i64>,
    pub peer_sort: PeerSortField,
    pub peer_sort_desc: bool,
    pub pending_partial: Option<DashboardPartialSet>,
    /// When the last refresh started, in milliseconds of the caller's clock.
    pub last_refresh_at: Option<u64>,
    pub netinfo_level: u8,
    pub request_gen: u64,
}

/// What the coordinator decides by.
pub struct RefreshCore {
    pub in_flight: bool,
    pub pending: Option<DashboardPartialSet>,
    pub last_refresh_at: Option<u64>,
    pub request_gen: u64,
    pub has_snapshot: bool,
}

/// The stronger of a pending classification and a new one.
pub open spec fn merged(
    pending: Option<DashboardPartialSet>,
    next: DashboardPartialSet,
) -> DashboardPartialSet {
    if pending == Some(DashboardPartialSet::ChainAndMempool) || next
        == DashboardPartialSet::ChainAndMempool {
        DashboardPartialSet::ChainAndMempool
    } else {
        DashboardPartialSet::MempoolOnly
    }
}

/// What a feed topic asks for: a block asks for chain and mempool, a
/// transaction for the mempool, any other topic for nothing.
pub open spec fn class_of(topic: Seq<char>) -> Option<DashboardPartialSet> {
    if topic == "hashblock"@ {
        Some(DashboardPartialSet::ChainAndMempool)
    } else if topic == "hashtx"@ {
        Some(DashboardPartialSet::MempoolOnly)
    } else {
        None
    }
}

/// Whether the debounce interval has passed at `now` since the last
/// refresh started.
pub open spec fn window_open(last_refresh_at: Option<u64>, now: u64) -> bool {
    match last_refresh_at {
        None => true,
        Some(t) => now >= t && now - t >= ZMQ_REFRESH_DEBOUNCE_MS,
    }
}

impl RefreshCore {
    /// After a classification was observed.
    pub open spec fn observed(self, class: DashboardPartialSet) -> RefreshCore {
        RefreshCore { pending: Some(merged(self.pending, class)), ..self }
    }

    /// After a refresh started at `now`.
    pub open spec fn started(self, now: u64) -> RefreshCore {
        RefreshCore { in_flight: true, last_refresh_at: Some(now), ..self }
    }

    /// Whether a pending classification is dispatched at `now`.
    pub open spec fn ready(self, now: u64) -> bool {
        self.pending is Some && window_open(self.last_refresh_at, now)
    }

    /// After the pending classification, if there is one and the window is
    /// open, was handed out.
    pub open spec fn scheduled(self, now: u64) -> (RefreshCore, DashboardAction) {
        if self.ready(now) {
            (
                RefreshCore { pending: None, ..self },
                DashboardAction::RequestPartial(self.pending->0),
            )
        } else {
            (self, DashboardAction::Idle)
        }
    }

    /// After a poll of the feed at `now`: the pending classification is
    /// handed out if no refresh is in flight and the window is open.
    pub open spec fn polled(self, now: u64) -> (RefreshCore, DashboardAction) {
        if self.in_flight {
            (self, DashboardAction::Idle)
        } else {
            self.scheduled(now)
        }
    }

    /// After a tick at `now`: a full refresh starts unless one is in flight.
    pub open spec fn ticked(self, now: u64) -> (RefreshCore, DashboardAction) {
        if self.in_flight {
            (self, DashboardAction::Idle)
        } else {
            (self.started(now), DashboardAction::LoadSnapshot { generation: self.request_gen })
        }
    }

    /// After a partial refresh was requested at `now`: nothing while a
    /// refresh is in flight; a full refresh where there is no snapshot to
    /// update; the partial refresh otherwise.
    pub open spec fn requested(self, partial: DashboardPartialSet, now: u64) -> (
        RefreshCore,
        DashboardAction,
    ) {
        if self.in_flight {
            (self, DashboardAction::Idle)
        } else if !self.has_snapshot {
            (self.started(now), DashboardAction::LoadSnapshot { generation: self.request_gen })
        } else {
            (
                self.started(now),
                DashboardAction::LoadPartial { generation: self.request_gen, partial },
            )
        }
    }

    /// After the result of a full refresh arrived at `now` under
    /// `generation`; `ok` says whether it holds a snapshot.
    pub open spec fn loaded(self, generation: u64, ok: bool, now: u64) -> (
        RefreshCore,
        DashboardAction,
    ) {
        if generation != self.request_gen {
            (RefreshCore { in_flight: false, ..self }, DashboardAction::Idle)
        } else {
            (RefreshCore {
                in_flight: false,
                has_snapshot: self.has_snapshot || ok,
                ..self
            }).scheduled(now)
        }
    }

    /// After the result of a partial refresh arrived at `now` under
    /// `generation`. An update that finds no snapshot starts a full refresh.
    pub open spec fn partial_loaded(self, generation: u64, ok: bool, now: u64) -> (
        RefreshCore,
        DashboardAction,
    ) {
        if generation != self.request_gen {
            (RefreshCore { in_flight: false, ..self }, DashboardAction::Idle)
        } else if ok && !self.has_snapshot {
            (
                (RefreshCore { in_flight: false, ..self }).started(now),
                DashboardAction::LoadSnapshot { generation: self.request_gen },
            )
        } else {
            (RefreshCore { in_flight: false, ..self }).scheduled(now)
        }
    }

    /// After the configuration changed: results of refreshes that started
    /// before are stale.
    pub open spec fn reconfigured(self) -> RefreshCore {
        RefreshCore {
            request_gen: if self.request_gen == u64::MAX {
                0
            } else {
                (self.request_gen + 1) as u64
            },
            ..self
        }
    }
}

/// Merging keeps the stronger classification, in either order: with chain
/// and mempool on either side the result is chain and mempool, and two
/// mempool-only classifications give mempool only.
pub proof fn lemma_merge(a: DashboardPartialSet, b: DashboardPartialSet)
    ensures
        merged(Some(a), b) == merged(Some(b), a),
        a == DashboardPartialSet::ChainAndMempool || b == DashboardPartialSet::ChainAndMempool
            ==> merged(Some(a), b) == DashboardPartialSet::ChainAndMempool,
        a == DashboardPartialSet::MempoolOnly && b == DashboardPartialSet::MempoolOnly ==> merged(
            Some(a),
            b,
        ) == DashboardPartialSet::MempoolOnly,
        merged(None, a) == a,
{
}

/// Two classifications that arrive inside the debounce window are
/// dispatched once: neither poll inside the window hands anything out, the
/// first poll after the window hands out their merge, and the poll after
/// that hands out nothing.
pub proof fn lemma_coalescing(
    start: RefreshCore,
    a: DashboardPartialSet,
    b: DashboardPartialSet,
    t1: u64,
    t2: u64,
    t3: u64,
    t4: u64,
)
    requires
        !start.in_flight,
        start.pending is None,
        !window_open(start.last_refresh_at, t1),
        !window_open(start.last_refresh_at, t2),
        window_open(start.last_refresh_at, t3),
    ensures
        ({
            let first = start.observed(a).polled(t1);
            let second = first.0.observed(b).polled(t2);
            let third = second.0.polled(t3);
            let fourth = third.0.polled(t4);
            &&& first.1 == DashboardAction::Idle
            &&& second.1 == DashboardAction::Idle
            &&& third.1 == DashboardAction::RequestPartial(merged(Some(a), b))
            &&& third.0.pending is None
            &&& fourth.1 == DashboardAction::Idle
        }),
{
}

/// A classification that arrives after the window has passed, and after the
/// refresh before it has completed, is dispatched on its own.
pub proof fn lemma_second_dispatch(
    start: RefreshCore,
    first: DashboardPartialSet,
    second: DashboardPartialSet,
    t1: u64,
    t2: u64,
    t3: u64,
    ok: bool,
)
    requires
        !start.in_flight,
        start.has_snapshot,
        start.pending is None,
        window_open(start.last_refresh_at, t1),
        t1 <= t2,
        t3 >= t1,
        t3 - t1 >= ZMQ_REFRESH_DEBOUNCE_MS,
    ensures
        ({
            let dispatched = start.observed(first).polled(t1);
            let running = dispatched.0.requested(first, t1);
            let done = running.0.partial_loaded(start.request_gen, ok, t2);
            let again = done.0.observed(second).polled(t3);
            &&& dispatched.1 == DashboardAction::RequestPartial(first)
            &&& running.1 == DashboardAction::LoadPartial {
                generation: start.request_gen,
                partial: first,
            }
            &&& done.1 == DashboardAction::Idle
            &&& again.1 == DashboardAction::RequestPartial(second)
        }),
{
}

/// A result that carries the generation from before a change of
/// configuration is stale after it: it ends the flight and changes nothing
/// else, whenever it arrives.
pub proof fn lemma_stale_result_discarded(core: RefreshCore, ok: bool, now: u64)
    ensures
        core.reconfigured().request_gen != core.request_gen,
        core.reconfigured().loaded(core.request_gen, ok, now) == (
            RefreshCore { in_flight: false, ..core.reconfigured() },
            DashboardAction::Idle,
        ),
        core.reconfigured().partial_loaded(core.request_gen, ok, now) == (
            RefreshCore { in_flight: false, ..core.reconfigured() },
            DashboardAction::Idle,
        ),
{
}

/// What a feed topic asks for.
pub fn classify_topic(topic: &str) -> (r: Option<DashboardPartialSet>)
    ensures
        r == class_of(topic@),
{
    if str_eq(topic, "hashblock") {
        Some(DashboardPartialSet::ChainAndMempool)
    } else if str_eq(topic, "hashtx") {
        Some(DashboardPartialSet::MempoolOnly)
    } else {
        None
    }
}

impl DashboardState {
    /// What the coordinator decides by, out of the whole state.
    pub open spec fn coordinator(&self) -> RefreshCore {
        RefreshCore {
            in_flight: self.in_flight,
            pending: self.pending_partial,
            last_refresh_at: self.last_refresh_at,
            request_gen: self.request_gen,
            has_snapshot: self.snapshot is Some,
        }
    }

    /// Whether two states show the same to the user: snapshot, error,
    /// selection, sorting and level of detail.
    pub open spec fn same_display(&self, other: &DashboardState) -> bool {
        &&& self.snapshot == other.snapshot
        &&& self.error == other.error
        &&& self.selected_peer_id == other.selected_peer_id
        &&& self.peer_sort == other.peer_sort
        &&& self.peer_sort_desc == other.peer_sort_desc
        &&& self.netinfo_level == other.netinfo_level
    }

    /// A dashboard that has loaded nothing yet.
    pub fn new() -> (r: DashboardState)
        ensures
            r.snapshot is None,
            !r.in_flight,
            r.error is None,
            r.selected_peer_id is None,
            r.peer_sort == PeerSortField::MinPing,
            !r.peer_sort_desc,
            r.pending_partial is None,
            r.last_refresh_at is None,
            r.netinfo_level == 3,
            r.request_gen == 0,
    {
        DashboardState {
            snapshot: None,
            in_flight: false,
            error: None,
            selected_peer_id: None,
            peer_sort: PeerSortField::MinPing,
            peer_sort_desc: false,
            pending_partial: None,
            last_refresh_at: None,
            netinfo_level: 3,
            request_gen: 0,
        }
    }

    /// Notes a classification seen on the feed.
    pub fn merge_pending_partial(&mut self, next: DashboardPartialSet)
        ensures
            final(self).coordinator() == old(self).coordinator().observed(next),
            final(self).same_display(old(self)),
    {
        let stronger = match (self.pending_partial, next) {
            (Some(DashboardPartialSet::ChainAndMempool), _) => DashboardPartialSet::ChainAndMempool,
            (_, DashboardPartialSet::ChainAndMempool) => DashboardPartialSet::ChainAndMempool,
            _ => DashboardPartialSet::MempoolOnly,
        };
        self.pending_partial = Some(stronger);
    }

    /// Advances the request generation after a change of configuration.
    pub fn advance_generation(&mut self)
        ensures
            final(self).coordinator() == old(self).coordinator().reconfigured(),
            final(self).same_display(old(self)),
    {
        self.request_gen = if self.request_gen == u64::MAX {
            0
        } else {
            self.request_gen + 1
        };
    }
}

/// Whether the debounce interval has passed since the last refresh started.
pub fn can_run_debounced_refresh(state: &DashboardState, now: u64) -> (r: bool)
    ensures
        r == window_open(state.last_refresh_at, now),
{
    match state.last_refresh_at {
        None => true,
        Some(t) => now >= t && now - t >= ZMQ_REFRESH_DEBOUNCE_MS,
    }
}

/// Hands out the pending classification if there is one and the window is
/// open.
pub fn schedule_pending_partial_if_ready(state: &mut DashboardState, now: u64) -> (action:
    DashboardAction)
    ensures
        (final(state).coordinator(), action) == old(state).coordinator().scheduled(now),
        final(state).same_display(old(state)),
{
    match state.pending_partial {
        Some(partial) => {
            if can_run_debounced_refresh(state, now) {
                state.pending_partial = None;
                return DashboardAction::RequestPartial(partial);
            }
        },
        None => {},
    }
    DashboardAction::Idle
}

/// Starts a full refresh at `now`.
pub fn start_dashboard_refresh(state: &mut DashboardState, now: u64) -> (action: DashboardAction)
    ensures
        final(state).coordinator() == old(state).coordinator().started(now),
        action == (DashboardAction::LoadSnapshot { generation: old(state).request_gen }),
        final(state).same_display(old(state)),
{
    state.in_flight = true;
    state.last_refresh_at = Some(now);
    DashboardAction::LoadSnapshot { generation: state.request_gen }
}

/// Starts a partial refresh at `now`.
pub fn start_partial_dashboard_refresh(
    state: &mut DashboardState,
    partial: DashboardPartialSet,
    now: u64,
) -> (action: DashboardAction)
    ensures
        final(state).coordinator() == old(state).coordinator().started(now),
        action == (DashboardAction::LoadPartial { generation: old(state).request_gen, partial }),
        final(state).same_display(old(state)),
{
    state.in_flight = true;
    state.last_refresh_at = Some(now);
    DashboardAction::LoadPartial { generation: state.request_gen, partial }
}

/// After a poll of the feed: hands out the pending classification if no
/// refresh is in flight and the window is open.
pub fn handle_zmq(state: &mut DashboardState, now: u64) -> (action: DashboardAction)
    ensures
        (final(state).coordinator(), action) == old(state).coordinator().polled(now),
        final(state).same_display(old(state)),
{
    if state.in_flight {
        return DashboardAction::Idle;
    }
    schedule_pending_partial_if_ready(state, now)
}

/// The selection after a snapshot arrived: it stays where the snapshot
/// lists the selected peer.
pub open spec fn kept_selection(selected: Option<i64>, snapshot: DashboardSnapshot) -> Option<i64> {
    match selected {
        Some(id) => if has_peer(snapshot.peers@, id) {
            selected
        } else {
            None
        },
        None => None,
    }
}

impl DashboardState {
    /// Whether sorting and level of detail are as in `other`.
    pub open spec fn same_settings(&self, other: &DashboardState) -> bool {
        &&& self.peer_sort == other.peer_sort
        &&& self.peer_sort_desc == other.peer_sort_desc
        &&& self.netinfo_level == other.netinfo_level
    }

    /// Takes in the result of a full refresh. A result of another
    /// generation is stale: it ends the flight and changes nothing else.
    pub fn loaded(
        &mut self,
        generation: u64,
        result: Result<DashboardSnapshot, String>,
        now: u64,
    ) -> (action: DashboardAction)
        ensures
            (final(self).coordinator(), action) == old(self).coordinator().loaded(
                generation,
                result is Ok,
                now,
            ),
            final(self).same_settings(old(self)),
            generation != old(self).request_gen ==> final(self).same_display(old(self)),
            generation == old(self).request_gen ==> match result {
                Ok(snapshot) => {
                    &&& final(self).snapshot == Some(snapshot)
                    &&& final(self).error is None
                    &&& final(self).selected_peer_id == kept_selection(
                        old(self).selected_peer_id,
                        snapshot,
                    )
                },
                Err(error) => {
                    &&& final(self).snapshot == old(self).snapshot
                    &&& final(self).error == Some(error)
                    &&& final(self).selected_peer_id == old(self).selected_peer_id
                },
            },
    {
        self.in_flight = false;
        if generation != self.request_gen {
            return DashboardAction::Idle;
        }
        match result {
            Ok(snapshot) => {
                let valid = match self.selected_peer_id {
                    Some(id) => lists_peer(&snapshot.peers, id),
                    None => false,
                };
                if !valid {
                    self.selected_peer_id = None;
                }
                self.snapshot = Some(snapshot);
                self.error = None;
            },
            Err(error) => {
                self.error = Some(error);
            },
        }
        schedule_pending_partial_if_ready(self, now)
    }

    /// Takes in the result of a partial refresh. A result of another
    /// generation is stale: it ends the flight and changes nothing else. An
    /// update is applied to the snapshot in place; where there is no
    /// snapshot, a full refresh starts instead.
    pub fn partial_loaded(
        &mut self,
        generation: u64,
        result: Result<DashboardPartialUpdate, String>,
        now: u64,
    ) -> (action: DashboardAction)
        ensures
            (final(self).coordinator(), action) == old(self).coordinator().partial_loaded(
                generation,
                result is Ok,
                now,
            ),
            final(self).same_settings(old(self)),
            final(self).selected_peer_id == old(self).selected_peer_id,
            generation != old(self).request_gen ==> final(self).same_display(old(self)),
            generation == old(self).request_gen ==> match result {
                Ok(update) => match old(self).snapshot {
                    Some(snapshot) => {
                        &&& final(self).snapshot == Some(applied(snapshot, update))
                        &&& final(self).error is None
                    },
                    None => final(self).same_display(old(self)),
                },
                Err(error) => {
                    &&& final(self).snapshot == old(self).snapshot
                    &&& final(self).error == Some(error)
                },
            },
    {
        self.in_flight = false;
        if generation != self.request_gen {
            return DashboardAction::Idle;
        }
        match result {
            Ok(update) => {
                match self.snapshot.take() {
                    Some(mut snapshot) => {
                        apply_partial(&mut snapshot, update);
                        self.snapshot = Some(snapshot);
                        self.error = None;
                    },
                    None => {
                        return start_dashboard_refresh(self, now);
                    },
                }
            },
            Err(error) => {
                self.error = Some(error);
            },
        }
        schedule_pending_partial_if_ready(self, now)
    }
}

/// One step of the dashboard: takes in what happened at `now` and says what
/// the caller is to do next.
pub fn handle_dashboard(state: &mut DashboardState, message: DashboardEvent, now: u64) -> (action:
    DashboardAction)
    ensures
        match message {
            DashboardEvent::Tick => {
                &&& (final(state).coordinator(), action) == old(state).coordinator().ticked(now)
                &&& final(state).same_display(old(state))
            },
            DashboardEvent::Loaded(generation, result) => {
                &&& (final(state).coordinator(), action) == old(state).coordinator().loaded(
                    generation,
                    result is Ok,
                    now,
                )
                &&& final(state).same_settings(old(state))
                &&& generation != old(state).request_gen ==> final(state).same_display(old(state))
                &&& generation == old(state).request_gen ==> match result {
                    Ok(snapshot) => {
                        &&& final(state).snapshot == Some(snapshot)
                        &&& final(state).error is None
                        &&& final(state).selected_peer_id == kept_selection(
                            old(state).selected_peer_id,
                            snapshot,
                        )
                    },
                    Err(error) => {
                        &&& final(state).snapshot == old(state).snapshot
                        &&& final(state).error == Some(error)
                        &&& final(state).selected_peer_id == old(state).selected_peer_id
                    },
                }
            },
            DashboardEvent::PeerSelected(id) => {
                &&& action == DashboardAction::Idle
                &&& final(state).coordinator() == old(state).coordinator()
                &&& final(state).selected_peer_id == Some(id)
                &&& final(state).snapshot == old(state).snapshot
                &&& final(state).error == old(state).error
                &&& final(state).same_settings(old(state))
            },
            DashboardEvent::PeerDetailClosed => {
                &&& action == DashboardAction::Idle
                &&& final(state).coordinator() == old(state).coordinator()
                &&& final(state).selected_peer_id is None
                &&& final(state).snapshot == old(state).snapshot
                &&& final(state).error == old(state).error
                &&& final(state).same_settings(old(state))
            },
            DashboardEvent::PeerSortPressed(field) => {
                &&& action == DashboardAction::Idle
                &&& final(state).coordinator() == old(state).coordinator()
                &&& final(state).peer_sort == field
                &&& final(state).peer_sort_desc == (old(state).peer_sort == field && !old(
                    state,
                ).peer_sort_desc)
                &&& final(state).snapshot == old(state).snapshot
                &&& final(state).error == old(state).error
                &&& final(state).selected_peer_id == old(state).selected_peer_id
                &&& final(state).netinfo_level == old(state).netinfo_level
            },
            DashboardEvent::NetinfoLevelChanged(level) => {
                &&& action == DashboardAction::Idle
                &&& final(state).coordinator() == old(state).coordinator()
                &&& final(state).netinfo_level == if level > MAX_NETINFO_LEVEL {
                    MAX_NETINFO_LEVEL
                } else {
                    level
                }
                &&& final(state).snapshot == old(state).snapshot
                &&& final(state).error == old(state).error
                &&& final(state).selected_peer_id == old(state).selected_peer_id
                &&& final(state).peer_sort == old(state).peer_sort
                &&& final(state).peer_sort_desc == old(state).peer_sort_desc
            },
            DashboardEvent::PartialRefreshRequested(partial) => {
                &&& (final(state).coordinator(), action) == old(state).coordinator().requested(
                    partial,
                    now,
                )
                &&& final(state).same_display(old(state))
            },
            DashboardEvent::PartialLoaded(generation, result) => {
                &&& (final(state).coordinator(), action) == old(
                    state,
                ).coordinator().partial_loaded(generation, result is Ok, now)
                &&& final(state).same_settings(old(state))
                &&& final(state).selected_peer_id == old(state).selected_peer_id
                &&& generation != old(state).request_gen ==> final(state).same_display(old(state))
                &&& generation == old(state).request_gen ==> match result {
                    Ok(update) => match old(state).snapshot {
                        Some(snapshot) => {
                            &&& final(state).snapshot == Some(applied(snapshot, update))
                            &&& final(state).error is None
                        },
                        None => final(state).same_display(old(state)),
                    },
                    Err(error) => {
                        &&& final(state).snapshot == old(state).snapshot
                        &&& final(state).error == Some(error)
                    },
                }
            },
        },
{
    match message {
        DashboardEvent::Tick => {
            if state.in_flight {
                return DashboardAction::Idle;
            }
            start_dashboard_refresh(state, now)
        },
        DashboardEvent::Loaded(generation, result) => state.loaded(generation, result, now),
        DashboardEvent::PeerSelected(id) => {
            state.selected_peer_id = Some(id);
            DashboardAction::Idle
        },
        DashboardEvent::PeerDetailClosed => {
            state.selected_peer_id = None;
            DashboardAction::Idle
        },
        DashboardEvent::PeerSortPressed(field) => {
            if state.peer_sort == field {
                state.peer_sort_desc = !state.peer_sort_desc;
            } else {
                state.peer_sort = field;
                state.peer_sort_desc = false;
            }
            DashboardAction::Idle
        },
        DashboardEvent::NetinfoLevelChanged(level) => {
            state.netinfo_level = if level > MAX_NETINFO_LEVEL {
                MAX_NETINFO_LEVEL
            } else {
                level
            };
            DashboardAction::Idle
        },
        DashboardEvent::PartialRefreshRequested(partial) => {
            if state.in_flight {
                return DashboardAction::Idle;
            }
            if state.snapshot.is_none() {
                return start_dashboard_refresh(state, now);
            }
            start_partial_dashboard_refresh(state, partial, now)
        },
        DashboardEvent::PartialLoaded(generation, result) => state.partial_loaded(
            generation,
            result,
            now,
        ),
    }
}

/// How many of the latest feed events the view keeps.
pub const ZMQ_RECENT_EVENTS_CAP: usize = 80;

/// One feed event as the view shows it.
#[derive(Debug)]
pub struct ZmqUiEvent {
    pub topic: String,
    pub event_hash: String,
    pub timestamp: u64,
}

/// What the view knows of the feed.
#[derive(Debug)]
pub struct ZmqViewState {
    pub connected: bool,
    pub connected_address: String,
    pub last_cursor: u64,
    pub events_seen: u64,
    pub last_topic: Option<String>,
    pub last_event_at: Option<u64>,
    pub recent_events: Vec<ZmqUiEvent>,
}

/// The cursor that a view has seen after it went through the buffer: each
/// message with a higher cursor than seen so far raises it.
pub open spec fn seen_after(messages: Seq<ZmqMessage>, cursor: u64) -> u64
    decreases messages.len(),
{
    if messages.len() == 0 {
        cursor
    } else {
        let before = seen_after(messages.drop_last(), cursor);
        if messages.last().cursor > before {
            messages.last().cursor
        } else {
            before
        }
    }
}

/// The messages that are new to a view that has seen `cursor`, oldest
/// first.
pub open spec fn fresh(messages: Seq<ZmqMessage>, cursor: u64) -> Seq<ZmqMessage>
    decreases messages.len(),
{
    if messages.len() == 0 {
        Seq::empty()
    } else if messages.last().cursor > seen_after(messages.drop_last(), cursor) {
        fresh(messages.drop_last(), cursor).push(messages.last())
    } else {
        fresh(messages.drop_last(), cursor)
    }
}

/// Whether one of the messages has this topic.
pub open spec fn saw(messages: Seq<ZmqMessage>, topic: Seq<char>) -> bool {
    exists|i: int| 0 <= i < messages.len() && (#[trigger] messages[i]).topic@ == topic
}

/// What a run of messages asks for: chain and mempool if a block is among
/// them, else the mempool if a transaction is, else nothing.
pub open spec fn class_of_all(messages: Seq<ZmqMessage>) -> Option<DashboardPartialSet> {
    if saw(messages, "hashblock"@) {
        Some(DashboardPartialSet::ChainAndMempool)
    } else if saw(messages, "hashtx"@) {
        Some(DashboardPartialSet::MempoolOnly)
    } else {
        None
    }
}

impl ZmqUiEvent {
    /// The event shows the message: its topic, its hash, or the preview of
    /// its payload where it has no hash, and its time.
    pub open spec fn shows(&self, message: &ZmqMessage) -> bool {
        &&& self.topic@ == message.topic@
        &&& self.event_hash@ == match message.event_hash {
            Some(hash) => hash@,
            None => message.body_hex@,
        }
        &&& self.timestamp == message.timestamp
    }

    /// The event that shows a message.
    pub fn of(message: &ZmqMessage) -> (r: ZmqUiEvent)
        ensures
            r.shows(message),
    {
        ZmqUiEvent {
            topic: message.topic.clone(),
            event_hash: match &message.event_hash {
                Some(hash) => hash.clone(),
                None => message.body_hex.clone(),
            },
            timestamp: message.timestamp,
        }
    }
}

impl ZmqViewState {
    /// A view that has seen nothing.
    pub fn new() -> (r: ZmqViewState)
        ensures
            !r.connected,
            r.connected_address@.len() == 0,
            r.last_cursor == 0,
            r.events_seen == 0,
            r.last_topic is None,
            r.last_event_at is None,
            r.recent_events@.len() == 0,
    {
        ZmqViewState {
            connected: false,
            connected_address: String::new(),
            last_cursor: 0,
            events_seen: 0,
            last_topic: None,
            last_event_at: None,
            recent_events: Vec::new(),
        }
    }

    /// Forgets the feed: done when the feed is switched off.
    pub fn reset(&mut self)
        ensures
            !final(self).connected,
            final(self).connected_address@.len() == 0,
            final(self).last_cursor == 0,
            final(self).events_seen == old(self).events_seen,
            final(self).last_topic is None,
            final(self).last_event_at is None,
            final(self).recent_events@.len() == 0,
    {
        self.connected = false;
        self.connected_address = String::new();
        self.last_cursor = 0;
        self.last_topic = None;
        self.last_event_at = None;
        self.recent_events = Vec::new();
    }
}

/// How many of `total` events the view keeps.
pub open spec fn kept_events(total: int) -> int {
    if total > ZMQ_RECENT_EVENTS_CAP {
        ZMQ_RECENT_EVENTS_CAP as int
    } else {
        total
    }
}

/// Brings the view up to date with the feed and notes what the new
/// messages ask for. The view takes over the feed's connection state, sees
/// every message that is new to it, keeps the latest events up to its cap,
/// and the strongest classification among the new messages is merged into
/// the pending one.
pub fn poll_zmq_feed(view: &mut ZmqViewState, dashboard: &mut DashboardState, feed: &ZmqState)
    ensures
        final(view).connected == feed.connected,
        final(view).connected_address@ == feed.address@,
        final(view).events_seen == if feed.next_cursor > 0 {
            feed.next_cursor - 1
        } else {
            0
        },
        final(view).last_cursor == seen_after(feed.messages@, old(view).last_cursor),
        ({
            let news = fresh(feed.messages@, old(view).last_cursor);
            let total = (old(view).recent_events@.len() + news.len()) as int;
            let kept = kept_events(total);
            &&& news.len() == 0 ==> final(view).last_topic == old(view).last_topic
            &&& news.len() == 0 ==> final(view).last_event_at == old(view).last_event_at
            &&& news.len() > 0 ==> final(view).last_topic is Some && final(view).last_topic->0@
                == news.last().topic@ && final(view).last_event_at == Some(news.last().timestamp)
            &&& final(view).recent_events@.len() == kept
            &&& forall|k: int|
                0 <= k < kept ==> {
                    let at = total - kept + k;
                    if at < old(view).recent_events@.len() {
                        (#[trigger] final(view).recent_events@[k]) == old(view).recent_events@[at]
                    } else {
                        final(view).recent_events@[k].shows(
                            &news[at - old(view).recent_events@.len()],
                        )
                    }
                }
            &&& final(dashboard).coordinator() == match class_of_all(news) {
                Some(class) => old(dashboard).coordinator().observed(class),
                None => old(dashboard).coordinator(),
            }
        }),
        final(dashboard).same_display(old(dashboard)),
{
    let mut saw_hashblock = false;
    let mut saw_hashtx = false;
    view.connected = feed.connected;
    view.connected_address = feed.address.clone();
    view.events_seen = if feed.next_cursor > 0 {
        feed.next_cursor - 1
    } else {
        0
    };
    let ghost start = old(view).last_cursor;
    let ghost before = old(view).recent_events@;
    let mut i: usize = 0;
    assert(feed.messages@.take(0) =~= Seq::<ZmqMessage>::empty());
    while i < feed.messages.len()
        invariant
            i <= feed.messages@.len(),
            view.connected == feed.connected,
            view.connected_address@ == feed.address@,
            view.events_seen == if feed.next_cursor > 0 {
                feed.next_cursor - 1
            } else {
                0
            },
            view.last_cursor == seen_after(feed.messages@.take(i as int), start),
            fresh(feed.messages@.take(i as int), start).len() == 0 ==> view.last_topic == old(view).last_topic,
            fresh(feed.messages@.take(i as int), start).len() == 0 ==> view.last_event_at == old(view).last_event_at,
            fresh(feed.messages@.take(i as int), start).len() > 0 ==> view.last_topic is Some && view.last_topic->0@ == fresh(feed.messages@.take(i as int), start).last().topic@
                && view.last_event_at == Some(fresh(feed.messages@.take(i as int), start).last().timestamp),
            view.recent_events@.len() == before.len() + fresh(feed.messages@.take(i as int), start).len(),
            before == old(view).recent_events@,
            forall|k: int| 0 <= k < before.len() ==> (#[trigger] view.recent_events@[k]) == before[k],
            forall|k: int|
                0 <= k < fresh(feed.messages@.take(i as int), start).len() ==> (#[trigger] view.recent_events@[before.len() + k]).shows(
                    &fresh(feed.messages@.take(i as int), start)[k],
                ),
            saw_hashblock == saw(fresh(feed.messages@.take(i as int), start), "hashblock"@),
            saw_hashtx == saw(fresh(feed.messages@.take(i as int), start), "hashtx"@),
            *dashboard == *old(dashboard),
        decreases feed.messages@.len() - i,
    {
        let ghost prior = fresh(feed.messages@.take(i as int), start);
        proof {
            let next = feed.messages@.take(i + 1);
            assert(next.drop_last() =~= feed.messages@.take(i as int));
            assert(next.last() == feed.messages@[i as int]);
        }
        let message = &feed.messages[i];
        proof {
            reveal_strlit("hashblock");
            reveal_strlit("hashtx");
            assert("hashblock"@.len() == 9);
            assert("hashtx"@.len() == 6);
        }
        if message.cursor > view.last_cursor {
            view.last_cursor = message.cursor;
            view.last_topic = Some(message.topic.clone());
            view.last_event_at = Some(message.timestamp);
            view.recent_events.push(ZmqUiEvent::of(message));
            if str_eq(message.topic.as_str(), "hashblock") {
                saw_hashblock = true;
            } else if str_eq(message.topic.as_str(), "hashtx") {
                saw_hashtx = true;
            }
            proof {
                let news = fresh(feed.messages@.take(i + 1), start);
                assert(news == prior.push(*message));
                assert(news[prior.len() as int] == *message);
                assert forall|topic: Seq<char>| #[trigger]
                    saw(news, topic) == (saw(prior, topic) || message.topic@ == topic) by {
                    if saw(prior, topic) {
                        let w = choose|w: int|
                            0 <= w < prior.len() && (#[trigger] prior[w]).topic@ == topic;
                        assert(news[w].topic@ == topic);
                    }
                    if saw(news, topic) {
                        let w = choose|w: int|
                            0 <= w < news.len() && (#[trigger] news[w]).topic@ == topic;
                        if w < prior.len() {
                            assert(prior[w].topic@ == topic);
                        }
                    }
                }
                assert(saw(news, "hashblock"@) == (saw(prior, "hashblock"@) || message.topic@
                    == "hashblock"@));
                assert(saw(news, "hashtx"@) == (saw(prior, "hashtx"@) || message.topic@
                    == "hashtx"@));
            }
        }
        i += 1;
    }
    proof {
        assert(feed.messages@.take(feed.messages@.len() as int) =~= feed.messages@);
    }
    let count: usize = view.recent_events.len();
    let ghost full = view.recent_events@;
    if count > ZMQ_RECENT_EVENTS_CAP {
        let kept = view.recent_events.split_off(count - ZMQ_RECENT_EVENTS_CAP);
        view.recent_events = kept;
        proof {
            assert(forall|k: int|
                0 <= k < ZMQ_RECENT_EVENTS_CAP ==> view.recent_events@[k] == full[count
                    - ZMQ_RECENT_EVENTS_CAP + k]);
        }
    }
    proof {
        let news = fresh(feed.messages@, old(view).last_cursor);
        let total = (before.len() + news.len()) as int;
        let kept = kept_events(total);
        assert forall|k: int| 0 <= k < kept && total - kept + k >= before.len() implies (
        #[trigger] view.recent_events@[k]).shows(&news[total - kept + k - before.len()]) by {
            let j = total - kept + k - before.len();
            assert(full[before.len() + j].shows(&news[j]));
        }
    }
    if saw_hashblock {
        dashboard.merge_pending_partial(DashboardPartialSet::ChainAndMempool);
    } else if saw_hashtx {
        dashboard.merge_pending_partial(DashboardPartialSet::MempoolOnly);
    }
}

} // verus!
