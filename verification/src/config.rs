use crate::config_store::ConfigStore;
use crate::host::{is_safe_rpc_host, safe_url, validate_rpc_host, UNSAFE_HOST_ERROR};
use crate::json::{parsed, Json, JsonView};
use crate::refresh::{DashboardState, ZmqViewState};
use crate::rpc_page::RpcState;
use crate::schema::SchemaIndex;
use crate::rpc_client::{clamp_buffer_limit, clamped_limit, RpcClient, RpcConfig};
use crate::text::{
    decimal_of, joined, parse_u64, parsed_u64, str_eq, trim, trimmed, u64_to_string,
};
use crate::zmq::{trimmed as trimmed_buffer, ZmqState};
use vstd::prelude::*;
use vstd::string::*;
use vstd::utf8::encode_utf8;

verus! {

/// The shortest and the longest interval between two polls, in seconds.
pub const MIN_POLL_INTERVAL_SECS: u64 = 1;

pub const MAX_POLL_INTERVAL_SECS: u64 = 3600;

/// The configuration as the user edits it: every field as text.
#[derive(Debug)]
pub struct ConfigForm {
    pub url: String,
    pub user: String,
    pub password: String,
    pub wallet: String,
    pub poll_interval_secs: String,
    pub zmq_address: String,
    pub zmq_buffer_limit: String,
}

/// What an update of the configuration did.
#[derive(Clone, Copy, Debug, PartialEq, Eq, Structural)]
pub struct ConfigUpdateResult {
    pub zmq_changed: bool,
    pub insecure_blocked: bool,
}

/// What is to be done with the feed's subscriber after the configuration
/// changed.
#[derive(Debug)]
pub enum FeedAction {
    /// Leave it as it is.
    Keep,
    /// Stop it.
    Stop,
    /// Stop it and start one for this address.
    Restart(String),
}

/// A poll interval brought into the accepted range.
pub open spec fn clamped_interval(secs: u64) -> u64 {
    if secs < MIN_POLL_INTERVAL_SECS {
        MIN_POLL_INTERVAL_SECS
    } else if secs > MAX_POLL_INTERVAL_SECS {
        MAX_POLL_INTERVAL_SECS
    } else {
        secs
    }
}

/// The number that a form field holds, white space around it aside.
pub open spec fn field_number(text: Seq<char>) -> Option<u64> {
    parsed_u64(encode_utf8(trimmed(text)))
}

/// The buffer limit that a form field holds: a number that fits the
/// machine's word.
pub open spec fn field_limit(text: Seq<char>) -> Option<usize> {
    match field_number(text) {
        Some(n) => if n <= usize::MAX {
            Some(n as usize)
        } else {
            None
        },
        None => None,
    }
}

impl ConfigForm {
    /// Why the form makes no configuration, if it makes none: the first of
    /// a missing URL, a poll interval that is no number, and a buffer limit
    /// that is no number.
    pub open spec fn fault(&self) -> Option<Seq<char>> {
        if trimmed(self.url@).len() == 0 {
            Some("RPC URL is required"@)
        } else if field_number(self.poll_interval_secs@) is None {
            Some("Poll interval must be a positive integer"@)
        } else if field_limit(self.zmq_buffer_limit@) is None {
            Some("ZMQ buffer limit must be an integer"@)
        } else {
            None
        }
    }

    /// The form shows this configuration.
    pub open spec fn shows(&self, config: &RpcConfig) -> bool {
        &&& self.url@ == config.url@
        &&& self.user@ == config.user@
        &&& self.password@ == config.password@
        &&& self.wallet@ == config.wallet@
        &&& self.poll_interval_secs@ == decimal_of(config.poll_interval_secs as int)
        &&& self.zmq_address@ == config.zmq_address@
        &&& self.zmq_buffer_limit@ == decimal_of(config.zmq_buffer_limit as int)
    }

    /// The configuration that a form without fault makes: texts trimmed
    /// where white space means nothing, numbers brought into their ranges.
    pub open spec fn makes(&self, config: &RpcConfig) -> bool {
        &&& config.url@ == trimmed(self.url@)
        &&& config.user@ == self.user@
        &&& config.password@ == self.password@
        &&& config.wallet@ == self.wallet@
        &&& field_number(self.poll_interval_secs@) matches Some(secs)
        &&& config.poll_interval_secs == clamped_interval(secs)
        &&& config.zmq_address@ == trimmed(self.zmq_address@)
        &&& field_limit(self.zmq_buffer_limit@) matches Some(limit)
        &&& config.zmq_buffer_limit == clamped_limit(limit as int)
    }

    /// The form that shows a configuration.
    pub fn from_config(config: &RpcConfig) -> (r: ConfigForm)
        ensures
            r.shows(config),
    {
        ConfigForm {
            url: config.url.clone(),
            user: config.user.clone(),
            password: config.password.clone(),
            wallet: config.wallet.clone(),
            poll_interval_secs: u64_to_string(config.poll_interval_secs),
            zmq_address: config.zmq_address.clone(),
            zmq_buffer_limit: u64_to_string(config.zmq_buffer_limit as u64),
        }
    }
}

fn read_number(text: &str) -> (r: Option<u64>)
    ensures
        r == field_number(text@),
{
    parse_u64(trim(text).as_bytes())
}

fn read_limit(text: &str) -> (r: Option<usize>)
    ensures
        r == field_limit(text@),
{
    match read_number(text) {
        Some(n) => if n <= usize::MAX as u64 {
            Some(n as usize)
        } else {
            None
        },
        None => None,
    }
}

/// Makes a configuration of the form, or says why it makes none.
pub fn parse_config_form(form: &ConfigForm) -> (r: Result<RpcConfig, String>)
    ensures
        match r {
            Ok(config) => form.fault() is None && form.makes(&config) && config.wf(),
            Err(reason) => form.fault() == Some(reason@),
        },
{
    let url = trim(form.url.as_str());
    if url.is_empty() {
        return Err("RPC URL is required".to_owned());
    }
    let secs = match read_number(form.poll_interval_secs.as_str()) {
        Some(secs) => secs,
        None => {
            return Err("Poll interval must be a positive integer".to_owned());
        },
    };
    let poll_interval_secs = if secs < MIN_POLL_INTERVAL_SECS {
        MIN_POLL_INTERVAL_SECS
    } else if secs > MAX_POLL_INTERVAL_SECS {
        MAX_POLL_INTERVAL_SECS
    } else {
        secs
    };
    let limit = match read_limit(form.zmq_buffer_limit.as_str()) {
        Some(limit) => limit,
        None => {
            return Err("ZMQ buffer limit must be an integer".to_owned());
        },
    };
    Ok(
        RpcConfig {
            url: url.to_owned(),
            user: form.user.clone(),
            password: form.password.clone(),
            wallet: form.wallet.clone(),
            poll_interval_secs,
            zmq_address: trim(form.zmq_address.as_str()).to_owned(),
            zmq_buffer_limit: clamp_buffer_limit(limit),
        },
    )
}

/// The text that an update carries for a field, if it carries one.
pub open spec fn update_text(update: JsonView, key: Seq<char>) -> Option<Seq<char>> {
    update.at(key).as_str()
}

/// The buffer limit that an update carries: a number, or a text that holds
/// one, that fits the machine's word.
pub open spec fn update_limit(update: JsonView) -> Option<usize> {
    match update.at("zmq_buffer_limit"@).as_u64() {
        Some(n) => if n <= usize::MAX {
            Some(n as usize)
        } else {
            None
        },
        None => match update.at("zmq_buffer_limit"@).as_str() {
            Some(text) => field_limit(text),
            None => None,
        },
    }
}

/// Whether an update brings a URL that is refused: one whose host is not
/// safe while the override is off.
pub open spec fn url_blocked(update: JsonView, allow_insecure: bool) -> bool {
    update_text(update, "url"@) matches Some(url) && !safe_url(encode_utf8(url)) && !allow_insecure
}

/// A text field after an update: the update's text where it carries one.
pub open spec fn text_after(before: Seq<char>, update: JsonView, key: Seq<char>) -> Seq<char> {
    match update_text(update, key) {
        Some(text) => text,
        None => before,
    }
}

/// The configuration after an update: each field that the update carries
/// is taken over, but a refused URL is not, and the buffer limit is
/// brought into its range.
pub open spec fn updated(
    before: &RpcConfig,
    after: &RpcConfig,
    update: JsonView,
    allow_insecure: bool,
) -> bool {
    &&& after.url@ == if url_blocked(update, allow_insecure) {
        before.url@
    } else {
        text_after(before.url@, update, "url"@)
    }
    &&& after.user@ == text_after(before.user@, update, "user"@)
    &&& after.password@ == text_after(before.password@, update, "password"@)
    &&& after.wallet@ == text_after(before.wallet@, update, "wallet"@)
    &&& after.zmq_address@ == text_after(before.zmq_address@, update, "zmq_address"@)
    &&& after.poll_interval_secs == before.poll_interval_secs
    &&& after.zmq_buffer_limit == match update_limit(update) {
        Some(limit) => clamped_limit(limit as int) as usize,
        None => before.zmq_buffer_limit,
    }
}

fn text_of<'a>(update: &'a Json, key: &str) -> (r: Option<&'a str>)
    ensures
        match r {
            Some(text) => update_text(update@, key@) == Some(text@),
            None => update_text(update@, key@) is None,
        },
{
    match update.get(key) {
        Some(v) => v.as_str(),
        None => None,
    }
}

fn limit_of(update: &Json) -> (r: Option<usize>)
    ensures
        r == update_limit(update@),
{
    let value = match update.get("zmq_buffer_limit") {
        Some(v) => v,
        None => {
            return None;
        },
    };
    match value.as_u64() {
        Some(n) => if n <= usize::MAX as u64 {
            Some(n as usize)
        } else {
            None
        },
        None => match value.as_str() {
            Some(text) => read_limit(text),
            None => None,
        },
    }
}

/// Applies an update that was read as JSON to the configuration.
pub fn apply_update(update: &Json, config: &mut RpcConfig, allow_insecure: bool) -> (r:
    ConfigUpdateResult)
    ensures
        updated(old(config), final(config), update@, allow_insecure),
        r.insecure_blocked == url_blocked(update@, allow_insecure),
        r.zmq_changed == (update_text(update@, "zmq_address"@) matches Some(address) && address
            != old(config).zmq_address@),
        update_limit(update@) is Some || old(config).wf() ==> final(config).wf(),
{
    let mut insecure_blocked = false;
    match text_of(update, "url") {
        Some(url) => {
            if is_safe_rpc_host(url) || allow_insecure {
                config.url = url.to_owned();
            } else {
                insecure_blocked = true;
            }
        },
        None => {},
    }
    match text_of(update, "user") {
        Some(user) => {
            config.user = user.to_owned();
        },
        None => {},
    }
    match text_of(update, "password") {
        Some(password) => {
            config.password = password.to_owned();
        },
        None => {},
    }
    match text_of(update, "wallet") {
        Some(wallet) => {
            config.wallet = wallet.to_owned();
        },
        None => {},
    }
    let mut zmq_changed = false;
    match text_of(update, "zmq_address") {
        Some(address) => {
            if !str_eq(config.zmq_address.as_str(), address) {
                config.zmq_address = address.to_owned();
                zmq_changed = true;
            }
        },
        None => {},
    }
    match limit_of(update) {
        Some(limit) => {
            config.zmq_buffer_limit = clamp_buffer_limit(limit);
        },
        None => {},
    }
    ConfigUpdateResult { zmq_changed, insecure_blocked }
}

/// Applies an update given as JSON text to the configuration. Each field
/// that the text carries is taken over; a URL whose host is not safe is
/// refused, unless the override is on, and the URL then stays as it was. A
/// text that is no JSON changes nothing.
pub fn update_config(body: &str, config: &mut RpcConfig, allow_insecure: bool) -> (r:
    ConfigUpdateResult)
    ensures
        match parsed(body@) {
            Some(update) => {
                &&& updated(old(config), final(config), update, allow_insecure)
                &&& r.insecure_blocked == url_blocked(update, allow_insecure)
                &&& r.zmq_changed == (update_text(update, "zmq_address"@) matches Some(address)
                    && address != old(config).zmq_address@)
            },
            None => *final(config) == *old(config) && !r.zmq_changed && !r.insecure_blocked,
        },
        old(config).wf() ==> final(config).wf(),
{
    match Json::parse(body) {
        Ok(update) => apply_update(&update, config, allow_insecure),
        Err(_) => ConfigUpdateResult { zmq_changed: false, insecure_blocked: false },
    }
}

/// The state of the configuration page.
#[derive(Debug)]
pub struct ConfigState {
    pub store: Option<ConfigStore>,
    pub store_path: Option<String>,
    pub store_error: Option<String>,
    pub form: ConfigForm,
    pub runtime: RpcConfig,
    pub connect_in_flight: bool,
    pub save_in_flight: bool,
    pub status: Option<String>,
    pub error: Option<String>,
}

/// What the configuration steps work on: the configuration page, the
/// gateway, the page that runs calls by hand, the dashboard and the view of
/// the feed.
#[derive(Debug)]
pub struct State {
    pub config: ConfigState,
    pub client: RpcClient,
    pub rpc: RpcState,
    pub dashboard: DashboardState,
    pub zmq: ZmqViewState,
}

/// What can happen on the configuration page.
#[derive(Debug)]
pub enum ConfigEvent {
    UrlChanged(String),
    UserChanged(String),
    PasswordChanged(String),
    WalletChanged(String),
    PollIntervalChanged(String),
    ZmqAddressChanged(String),
    ZmqBufferLimitChanged(String),
    ConnectPressed,
    ConnectFinished(Result<RpcConfig, String>),
    ReloadPressed,
    ReloadFinished(Result<RpcConfig, String>),
    SavePressed,
    SaveFinished(Result<RpcConfig, String>),
}

/// What the caller is to do after a step of the configuration page.
#[derive(Debug)]
pub enum ConfigAction {
    /// Nothing.
    Idle,
    /// Try a call with this configuration and hand it back as
    /// `ConnectFinished`.
    TestConnection(RpcConfig),
    /// Load the configuration from the store and hand it back as
    /// `ReloadFinished`.
    Reload(ConfigStore),
    /// Save the configuration to the store and hand it back as
    /// `SaveFinished`.
    Save(ConfigStore, RpcConfig),
    /// The configuration is in effect: deal with the feed's subscriber as
    /// said, then refresh the dashboard.
    Applied(FeedAction),
}

/// The value of a text that may be missing.
pub open spec fn option_text(text: Option<String>) -> Option<Seq<char>> {
    match text {
        Some(t) => Some(t@),
        None => None,
    }
}

impl ConfigState {
    /// Whether the form is as in `other`, but for the URL field.
    pub open spec fn same_form_but(&self, other: &ConfigState, field: int) -> bool {
        &&& field == 0 || self.form.url == other.form.url
        &&& field == 1 || self.form.user == other.form.user
        &&& field == 2 || self.form.password == other.form.password
        &&& field == 3 || self.form.wallet == other.form.wallet
        &&& field == 4 || self.form.poll_interval_secs == other.form.poll_interval_secs
        &&& field == 5 || self.form.zmq_address == other.form.zmq_address
        &&& field == 6 || self.form.zmq_buffer_limit == other.form.zmq_buffer_limit
    }

    /// Whether all but form, status and error is as in `other`.
    pub open spec fn same_rest(&self, other: &ConfigState) -> bool {
        &&& self.store == other.store
        &&& self.store_path == other.store_path
        &&& self.store_error == other.store_error
        &&& self.runtime == other.runtime
        &&& self.connect_in_flight == other.connect_in_flight
        &&& self.save_in_flight == other.save_in_flight
    }

    /// A page for a configuration, with nothing in flight.
    pub fn new(store: Option<ConfigStore>, store_error: Option<String>, runtime: RpcConfig) -> (r:
        ConfigState)
        ensures
            r.store == store,
            r.store_error == store_error,
            option_text(r.store_path) == match store {
                Some(s) => Some(s.spec_path()),
                None => None,
            },
            r.form.shows(&runtime),
            r.runtime == runtime,
            !r.connect_in_flight,
            !r.save_in_flight,
            r.status is None,
            r.error is None,
    {
        let store_path = match &store {
            Some(s) => Some(s.path().to_owned()),
            None => None,
        };
        ConfigState {
            store,
            store_path,
            store_error,
            form: ConfigForm::from_config(&runtime),
            runtime,
            connect_in_flight: false,
            save_in_flight: false,
            status: None,
            error: None,
        }
    }

    fn fail(&mut self, reason: String)
        ensures
            final(self).error == Some(reason),
            final(self).status is None,
            final(self).form == old(self).form,
            final(self).same_rest(old(self)),
    {
        self.error = Some(reason);
        self.status = None;
    }

    fn edited(&mut self)
        ensures
            final(self).error is None,
            final(self).status is None,
            final(self).form == old(self).form,
            final(self).same_rest(old(self)),
    {
        self.error = None;
        self.status = None;
    }
}

impl State {
    /// Sets everything up at startup from what was found on disk: the store,
    /// if its place could be resolved, and the configuration loaded from
    /// it. Where either failed, the default configuration is used and the
    /// reason is kept. The feed's buffer gets the configured limit, and a
    /// subscriber is to be started where a feed address is configured.
    pub fn new(store: Result<ConfigStore, String>, loaded: Result<RpcConfig, String>) -> (r: (
        State,
        ZmqState,
        FeedAction,
    ))
        ensures
            ({
                let (state, feed, action) = r;
                &&& match store {
                    Ok(found) => {
                        &&& state.config.store == Some(found)
                        &&& option_text(state.config.store_path) == Some(found.spec_path())
                        &&& match loaded {
                            Ok(config) => state.config.runtime == config
                                && state.config.store_error is None,
                            Err(reason) => {
                                &&& state.config.runtime.is_default()
                                &&& option_text(state.config.store_error) == Some(
                                    "failed to load config: "@ + reason@,
                                )
                            },
                        }
                    },
                    Err(reason) => {
                        &&& state.config.store is None
                        &&& state.config.store_path is None
                        &&& state.config.runtime.is_default()
                        &&& option_text(state.config.store_error) == Some(
                            "failed to resolve config path: "@ + reason@,
                        )
                    },
                }
                &&& state.config.form.shows(&state.config.runtime)
                &&& state.client.config().same(&state.config.runtime)
                &&& !state.config.connect_in_flight && !state.config.save_in_flight
                &&& state.config.status is None && state.config.error is None
                &&& state.rpc.selected_method is Some && !state.rpc.batch_mode
                &&& !state.rpc.execute_in_flight && state.rpc.error is None
                &&& state.rpc.schema is Some ==> state.rpc.collapsed_categories@.len()
                    == state.rpc.schema->0.spec_methods().len()
                &&& state.dashboard.snapshot is None && !state.dashboard.in_flight
                &&& state.dashboard.pending_partial is None && state.dashboard.request_gen == 0
                &&& state.zmq.last_cursor == 0 && state.zmq.recent_events@.len() == 0
                &&& feed.buffer_limit == clamped_limit(state.config.runtime.zmq_buffer_limit as int)
                &&& feed.messages@.len() == 0 && feed.next_cursor == 1 && !feed.connected
                &&& feed.wf()
                &&& if trimmed(state.config.runtime.zmq_address@).len() == 0 {
                    action is Keep
                } else {
                    action matches FeedAction::Restart(address) && address@ == trimmed(
                        state.config.runtime.zmq_address@,
                    )
                }
            }),
    {
        let mut store_error: Option<String> = None;
        let mut kept: Option<ConfigStore> = None;
        let runtime = match store {
            Ok(found) => {
                kept = Some(found);
                match loaded {
                    Ok(config) => config,
                    Err(reason) => {
                        store_error = Some(joined("failed to load config: ", reason.as_str()));
                        RpcConfig::default()
                    },
                }
            },
            Err(reason) => {
                store_error = Some(joined("failed to resolve config path: ", reason.as_str()));
                RpcConfig::default()
            },
        };
        let mut feed = ZmqState::new();
        feed.set_buffer_limit(runtime.zmq_buffer_limit);
        let address = trim(runtime.zmq_address.as_str()).to_owned();
        let action = if address.as_str().is_empty() {
            FeedAction::Keep
        } else {
            FeedAction::Restart(address)
        };
        let client = RpcClient::new(runtime.duplicate());
        let state = State {
            config: ConfigState::new(kept, store_error, runtime),
            client,
            rpc: RpcState::new(SchemaIndex::load_default()),
            dashboard: DashboardState::new(),
            zmq: ZmqViewState::new(),
        };
        (state, feed, action)
    }
}

/// The configuration that the form makes and that may be used: the form is
/// without fault and the host is safe or the override is on. Else the
/// reason why not.
pub fn checked_form(form: &ConfigForm, allow_insecure: bool) -> (r: Result<RpcConfig, String>)
    ensures
        match r {
            Ok(config) => {
                &&& form.fault() is None
                &&& form.makes(&config)
                &&& config.wf()
                &&& safe_url(encode_utf8(config.url@)) || allow_insecure
            },
            Err(reason) => match form.fault() {
                Some(fault) => reason@ == fault,
                None => !safe_url(encode_utf8(trimmed(form.url@))) && !allow_insecure && reason@
                    == UNSAFE_HOST_ERROR@,
            },
        },
{
    let config = parse_config_form(form)?;
    match validate_rpc_host(&config, allow_insecure) {
        Ok(()) => Ok(config),
        Err(reason) => Err(reason),
    }
}

/// Puts a configuration into effect: the gateway, the form and the running
/// configuration take it over, results of refreshes that started before
/// become stale, and the feed's buffer gets its limit. The feed's
/// subscriber is kept where the address is as before, stopped where there
/// is no address any more, and restarted for a new address.
pub fn apply_runtime_config(state: &mut State, feed: &mut ZmqState, config: RpcConfig) -> (action:
    FeedAction)
    ensures
        final(state).config.runtime.same(&config),
        final(state).client.config().same(&config),
        final(state).config.form.shows(&config),
        final(state).config.error is None,
        final(state).config.status == old(state).config.status,
        final(state).config.store == old(state).config.store,
        final(state).config.store_path == old(state).config.store_path,
        final(state).config.store_error == old(state).config.store_error,
        final(state).config.connect_in_flight == old(state).config.connect_in_flight,
        final(state).config.save_in_flight == old(state).config.save_in_flight,
        final(state).rpc == old(state).rpc,
        final(state).dashboard.same_display(&old(state).dashboard),
        final(state).dashboard.request_gen == old(
            state,
        ).dashboard.coordinator().reconfigured().request_gen,
        final(state).dashboard.in_flight == old(state).dashboard.in_flight,
        final(state).dashboard.last_refresh_at == old(state).dashboard.last_refresh_at,
        final(feed).buffer_limit == clamped_limit(config.zmq_buffer_limit as int),
        final(feed).messages@ == trimmed_buffer(
            old(feed).messages@,
            clamped_limit(config.zmq_buffer_limit as int),
        ),
        final(feed).connected == old(feed).connected,
        final(feed).address == old(feed).address,
        final(feed).next_cursor == old(feed).next_cursor,
        old(feed).wf() ==> final(feed).wf(),
        ({
            let current = trimmed(config.zmq_address@);
            if current == old(state).config.runtime.zmq_address@ {
                &&& action is Keep
                &&& final(state).zmq == old(state).zmq
                &&& final(state).dashboard.pending_partial == old(state).dashboard.pending_partial
            } else if current.len() == 0 {
                &&& action is Stop
                &&& !final(state).zmq.connected
                &&& final(state).zmq.connected_address@.len() == 0
                &&& final(state).zmq.last_cursor == 0
                &&& final(state).zmq.last_topic is None
                &&& final(state).zmq.last_event_at is None
                &&& final(state).zmq.recent_events@.len() == 0
                &&& final(state).dashboard.pending_partial is None
            } else {
                &&& action matches FeedAction::Restart(address)
                &&& address@ == current
                &&& final(state).zmq == old(state).zmq
                &&& final(state).dashboard.pending_partial == old(state).dashboard.pending_partial
            }
        }),
{
    let previous = state.config.runtime.zmq_address.clone();
    let limit = config.zmq_buffer_limit;
    let current = trim(config.zmq_address.as_str()).to_owned();
    state.client = RpcClient::new(config.duplicate());
    state.config.form = ConfigForm::from_config(&config);
    state.config.runtime = config;
    state.config.error = None;
    state.dashboard.advance_generation();
    feed.set_buffer_limit(limit);
    if str_eq(current.as_str(), previous.as_str()) {
        return FeedAction::Keep;
    }
    if current.as_str().is_empty() {
        state.zmq.reset();
        state.dashboard.pending_partial = None;
        return FeedAction::Stop;
    }
    FeedAction::Restart(current)
}

/// One step of the configuration page. An edit of a field sets the field
/// and clears status and error. Connecting and saving need a form without
/// fault and a safe host, and nothing of the same kind in flight; reloading
/// and saving need a store. A configuration that connected, was reloaded
/// with a safe host, or was saved is put into effect.
pub fn handle_config(
    state: &mut State,
    feed: &mut ZmqState,
    message: ConfigEvent,
    allow_insecure: bool,
) -> (action: ConfigAction)
    ensures
        match message {
            ConfigEvent::UrlChanged(value) => {
                &&& action is Idle
                &&& final(state).config.form.url == value
                &&& final(state).config.same_form_but(&old(state).config, 0)
                &&& final(state).config.error is None && final(state).config.status is None
                &&& final(state).config.same_rest(&old(state).config)
            },
            ConfigEvent::UserChanged(value) => {
                &&& action is Idle
                &&& final(state).config.form.user == value
                &&& final(state).config.same_form_but(&old(state).config, 1)
                &&& final(state).config.error is None && final(state).config.status is None
                &&& final(state).config.same_rest(&old(state).config)
            },
            ConfigEvent::PasswordChanged(value) => {
                &&& action is Idle
                &&& final(state).config.form.password == value
                &&& final(state).config.same_form_but(&old(state).config, 2)
                &&& final(state).config.error is None && final(state).config.status is None
                &&& final(state).config.same_rest(&old(state).config)
            },
            ConfigEvent::WalletChanged(value) => {
                &&& action is Idle
                &&& final(state).config.form.wallet == value
                &&& final(state).config.same_form_but(&old(state).config, 3)
                &&& final(state).config.error is None && final(state).config.status is None
                &&& final(state).config.same_rest(&old(state).config)
            },
            ConfigEvent::PollIntervalChanged(value) => {
                &&& action is Idle
                &&& final(state).config.form.poll_interval_secs == value
                &&& final(state).config.same_form_but(&old(state).config, 4)
                &&& final(state).config.error is None && final(state).config.status is None
                &&& final(state).config.same_rest(&old(state).config)
            },
            ConfigEvent::ZmqAddressChanged(value) => {
                &&& action is Idle
                &&& final(state).config.form.zmq_address == value
                &&& final(state).config.same_form_but(&old(state).config, 5)
                &&& final(state).config.error is None && final(state).config.status is None
                &&& final(state).config.same_rest(&old(state).config)
            },
            ConfigEvent::ZmqBufferLimitChanged(value) => {
                &&& action is Idle
                &&& final(state).config.form.zmq_buffer_limit == value
                &&& final(state).config.same_form_but(&old(state).config, 6)
                &&& final(state).config.error is None && final(state).config.status is None
                &&& final(state).config.same_rest(&old(state).config)
            },
            ConfigEvent::ConnectPressed => {
                &&& final(state).config.form == old(state).config.form
                &&& final(state).config.runtime == old(state).config.runtime
                &&& final(state).config.save_in_flight == old(state).config.save_in_flight
                &&& if old(state).config.connect_in_flight {
                    action is Idle && final(state).config == old(state).config
                } else if old(state).config.form.fault() is Some {
                    &&& action is Idle
                    &&& option_text(final(state).config.error) == old(state).config.form.fault()
                    &&& final(state).config.status is None
                    &&& !final(state).config.connect_in_flight
                } else if !safe_url(encode_utf8(trimmed(old(state).config.form.url@)))
                    && !allow_insecure {
                    &&& action is Idle
                    &&& option_text(final(state).config.error) == Some(UNSAFE_HOST_ERROR@)
                    &&& final(state).config.status is None
                    &&& !final(state).config.connect_in_flight
                } else {
                    &&& action matches ConfigAction::TestConnection(config)
                    &&& old(state).config.form.makes(&config)
                    &&& config.wf()
                    &&& final(state).config.connect_in_flight
                    &&& final(state).config.error is None
                    &&& option_text(final(state).config.status) == Some("Connecting..."@)
                }
            },
            ConfigEvent::ConnectFinished(result) => {
                &&& !final(state).config.connect_in_flight
                &&& match result {
                    Ok(config) => {
                        &&& action is Applied
                        &&& final(state).config.runtime.same(&config)
                        &&& final(state).client.config().same(&config)
                        &&& final(state).config.error is None
                        &&& option_text(final(state).config.status) == Some(
                            "Connected successfully."@,
                        )
                    },
                    Err(reason) => {
                        &&& action is Idle
                        &&& final(state).config.error == Some(reason)
                        &&& final(state).config.status is None
                        &&& final(state).config.runtime == old(state).config.runtime
                        &&& final(state).client == old(state).client
                        &&& *final(feed) == *old(feed)
                    },
                }
            },
            ConfigEvent::ReloadPressed => {
                &&& final(state).config.runtime == old(state).config.runtime
                &&& final(state).config.form == old(state).config.form
                &&& match old(state).config.store {
                    Some(store) => {
                        &&& action matches ConfigAction::Reload(target)
                        &&& target.spec_path() == store.spec_path()
                        &&& final(state).config.error is None
                        &&& option_text(final(state).config.status) == Some("Reloading..."@)
                    },
                    None => {
                        &&& action is Idle
                        &&& option_text(final(state).config.error) == Some(
                            "config store unavailable"@,
                        )
                        &&& final(state).config.status is None
                    },
                }
            },
            ConfigEvent::ReloadFinished(result) => match result {
                Ok(config) => if safe_url(encode_utf8(config.url@)) || allow_insecure {
                    &&& action is Applied
                    &&& final(state).config.runtime.same(&config)
                    &&& final(state).client.config().same(&config)
                    &&& final(state).config.error is None
                    &&& option_text(final(state).config.status) == Some("Settings reloaded."@)
                } else {
                    &&& action is Idle
                    &&& option_text(final(state).config.error) == Some(UNSAFE_HOST_ERROR@)
                    &&& final(state).config.status is None
                    &&& final(state).config.runtime == old(state).config.runtime
                    &&& final(state).client == old(state).client
                    &&& *final(feed) == *old(feed)
                },
                Err(reason) => {
                    &&& action is Idle
                    &&& final(state).config.error == Some(reason)
                    &&& final(state).config.status is None
                    &&& final(state).config.runtime == old(state).config.runtime
                    &&& final(state).client == old(state).client
                    &&& *final(feed) == *old(feed)
                },
            },
            ConfigEvent::SavePressed => {
                &&& final(state).config.form == old(state).config.form
                &&& final(state).config.runtime == old(state).config.runtime
                &&& final(state).config.connect_in_flight == old(state).config.connect_in_flight
                &&& if old(state).config.save_in_flight {
                    action is Idle && final(state).config == old(state).config
                } else if old(state).config.store is None {
                    &&& action is Idle
                    &&& option_text(final(state).config.error) == Some(
                        "config store unavailable"@,
                    )
                    &&& final(state).config.status is None
                    &&& !final(state).config.save_in_flight
                } else if old(state).config.form.fault() is Some {
                    &&& action is Idle
                    &&& option_text(final(state).config.error) == old(state).config.form.fault()
                    &&& final(state).config.status is None
                    &&& !final(state).config.save_in_flight
                } else if !safe_url(encode_utf8(trimmed(old(state).config.form.url@)))
                    && !allow_insecure {
                    &&& action is Idle
                    &&& option_text(final(state).config.error) == Some(UNSAFE_HOST_ERROR@)
                    &&& final(state).config.status is None
                    &&& !final(state).config.save_in_flight
                } else {
                    &&& action matches ConfigAction::Save(target, config)
                    &&& target.spec_path() == old(state).config.store->0.spec_path()
                    &&& old(state).config.form.makes(&config)
                    &&& config.wf()
                    &&& final(state).config.save_in_flight
                    &&& final(state).config.error is None
                    &&& option_text(final(state).config.status) == Some("Saving..."@)
                }
            },
            ConfigEvent::SaveFinished(result) => {
                &&& !final(state).config.save_in_flight
                &&& match result {
                    Ok(config) => {
                        &&& action is Applied
                        &&& final(state).config.runtime.same(&config)
                        &&& final(state).client.config().same(&config)
                        &&& final(state).config.error is None
                        &&& option_text(final(state).config.status) == Some("Settings saved."@)
                    },
                    Err(reason) => {
                        &&& action is Idle
                        &&& final(state).config.error == Some(reason)
                        &&& final(state).config.status is None
                        &&& final(state).config.runtime == old(state).config.runtime
                        &&& final(state).client == old(state).client
                        &&& *final(feed) == *old(feed)
                    },
                }
            },
        },
        !(action is Applied) ==> final(state).dashboard == old(state).dashboard && final(state).zmq
            == old(state).zmq && final(state).client == old(state).client && *final(feed) == *old(
            feed,
        ),
        final(state).rpc == old(state).rpc,
{
    match message {
        ConfigEvent::UrlChanged(value) => {
            state.config.form.url = value;
            state.config.edited();
        },
        ConfigEvent::UserChanged(value) => {
            state.config.form.user = value;
            state.config.edited();
        },
        ConfigEvent::PasswordChanged(value) => {
            state.config.form.password = value;
            state.config.edited();
        },
        ConfigEvent::WalletChanged(value) => {
            state.config.form.wallet = value;
            state.config.edited();
        },
        ConfigEvent::PollIntervalChanged(value) => {
            state.config.form.poll_interval_secs = value;
            state.config.edited();
        },
        ConfigEvent::ZmqAddressChanged(value) => {
            state.config.form.zmq_address = value;
            state.config.edited();
        },
        ConfigEvent::ZmqBufferLimitChanged(value) => {
            state.config.form.zmq_buffer_limit = value;
            state.config.edited();
        },
        ConfigEvent::ConnectPressed => {
            if state.config.connect_in_flight {
                return ConfigAction::Idle;
            }
            match checked_form(&state.config.form, allow_insecure) {
                Ok(config) => {
                    state.config.connect_in_flight = true;
                    state.config.error = None;
                    state.config.status = Some("Connecting...".to_owned());
                    return ConfigAction::TestConnection(config);
                },
                Err(reason) => {
                    state.config.fail(reason);
                },
            }
        },
        ConfigEvent::ConnectFinished(result) => {
            state.config.connect_in_flight = false;
            match result {
                Ok(config) => {
                    let feed_action = apply_runtime_config(state, feed, config);
                    state.config.status = Some("Connected successfully.".to_owned());
                    return ConfigAction::Applied(feed_action);
                },
                Err(reason) => {
                    state.config.fail(reason);
                },
            }
        },
        ConfigEvent::ReloadPressed => {
            let target = match &state.config.store {
                Some(store) => store.duplicate(),
                None => {
                    state.config.fail("config store unavailable".to_owned());
                    return ConfigAction::Idle;
                },
            };
            state.config.error = None;
            state.config.status = Some("Reloading...".to_owned());
            return ConfigAction::Reload(target);
        },
        ConfigEvent::ReloadFinished(result) => {
            match result {
                Ok(config) => {
                    match validate_rpc_host(&config, allow_insecure) {
                        Ok(()) => {},
                        Err(reason) => {
                            state.config.fail(reason);
                            return ConfigAction::Idle;
                        },
                    }
                    let feed_action = apply_runtime_config(state, feed, config);
                    state.config.status = Some("Settings reloaded.".to_owned());
                    return ConfigAction::Applied(feed_action);
                },
                Err(reason) => {
                    state.config.fail(reason);
                },
            }
        },
        ConfigEvent::SavePressed => {
            if state.config.save_in_flight {
                return ConfigAction::Idle;
            }
            let target = match &state.config.store {
                Some(store) => store.duplicate(),
                None => {
                    state.config.fail("config store unavailable".to_owned());
                    return ConfigAction::Idle;
                },
            };
            match checked_form(&state.config.form, allow_insecure) {
                Ok(config) => {
                    state.config.save_in_flight = true;
                    state.config.error = None;
                    state.config.status = Some("Saving...".to_owned());
                    return ConfigAction::Save(target, config);
                },
                Err(reason) => {
                    state.config.fail(reason);
                },
            }
        },
        ConfigEvent::SaveFinished(result) => {
            state.config.save_in_flight = false;
            match result {
                Ok(config) => {
                    let feed_action = apply_runtime_config(state, feed, config);
                    state.config.status = Some("Settings saved.".to_owned());
                    return ConfigAction::Applied(feed_action);
                },
                Err(reason) => {
                    state.config.fail(reason);
                },
            }
        },
    }
    ConfigAction::Idle
}

} // verus!
