use vstd::prelude::*;

use crate::config::{list_contains, same_text, Endpoint, ObsInstanceConfig, TargetGroup};
use crate::ops::ObsEvent;
use crate::status::{ConnectionStatus, InstanceStatus};
use crate::table::{lemma_take_next_contains, Table};
use crate::text::{trim, trimmed};

verus! {

/// Tunables for connection and retry behaviour, in milliseconds.
pub struct PoolOptions {
    pub connect_timeout_ms: u64,
    pub initial_backoff_ms: u64,
    pub max_backoff_ms: u64,
}

impl Default for PoolOptions {
    fn default() -> (o: Self)
        ensures
            o.connect_timeout_ms == 5000,
            o.initial_backoff_ms == 500,
            o.max_backoff_ms == 30000,
    {
        PoolOptions { connect_timeout_ms: 5000, initial_backoff_ms: 500, max_backoff_ms: 30000 }
    }
}

impl PoolOptions {
    /// Fast retries for tests against a local mock server.
    pub fn for_tests() -> (o: Self)
        ensures
            o.connect_timeout_ms == 2000,
            o.initial_backoff_ms == 40,
            o.max_backoff_ms == 200,
    {
        PoolOptions { connect_timeout_ms: 2000, initial_backoff_ms: 40, max_backoff_ms: 200 }
    }
}

/// Why a call into OBS failed.
pub enum ObsFailure {
    /// The instance refused the password.
    AuthFailed { message: String },
    /// OBS answered a request with a failure status.
    Request { code: i64, comment: Option<String>, message: String },
    /// Any other failure, with its message.
    Other { message: String },
}

/// Why the pool could not run a call.
pub enum CallError {
    Unknown(String),
    Unavailable { id: String, status: String },
    Obs(ObsFailure),
}

/// Events emitted by every supervised instance.
pub enum PoolEvent {
    Status(InstanceStatus),
    Obs { id: String, event: ObsEvent },
}

pub open spec fn failure_message(f: ObsFailure) -> Seq<char> {
    match f {
        ObsFailure::AuthFailed { message } => message@,
        ObsFailure::Request { message, .. } => message@,
        ObsFailure::Other { message } => message@,
    }
}

pub open spec fn spec_call_error_message(e: CallError) -> Seq<char> {
    match e {
        CallError::Unknown(id) => "instance `"@ + id@ + "` is not configured"@,
        CallError::Unavailable { id, status } => "instance `"@ + id@ + "` is not connected ("@
            + status@ + ")"@,
        CallError::Obs(f) => failure_message(f),
    }
}

impl CallError {
    /// The error's message.
    pub fn message(&self) -> (m: String)
        ensures
            m@ == spec_call_error_message(*self),
    {
        match self {
            CallError::Unknown(id) => {
                let mut m = String::from_str("instance `");
                m.append(id.as_str());
                m.append("` is not configured");
                m
            },
            CallError::Unavailable { id, status } => {
                let mut m = String::from_str("instance `");
                m.append(id.as_str());
                m.append("` is not connected (");
                m.append(status.as_str());
                m.append(")");
                m
            },
            CallError::Obs(ObsFailure::AuthFailed { message }) => message.clone(),
            CallError::Obs(ObsFailure::Request { message, .. }) => message.clone(),
            CallError::Obs(ObsFailure::Other { message }) => message.clone(),
        }
    }
}

/// How `{:?}` writes a string: quoted, with escapes.
pub uninterp spec fn debug_quoted(text: Seq<char>) -> Seq<char>;

/// Calls `format!("{:?}", text)`, std's `Debug` for `str`; the contract
/// names the result `debug_quoted` of the text.
#[verifier::external_body]
fn debug_text(text: &str) -> (quoted: String)
    ensures
        quoted@ == debug_quoted(text@),
{
    format!("{:?}", text)
}

/// How `{:?}` writes a connection status.
pub open spec fn spec_status_text(status: ConnectionStatus) -> Seq<char> {
    match status {
        ConnectionStatus::Disabled => "Disabled"@,
        ConnectionStatus::Connecting => "Connecting"@,
        ConnectionStatus::Connected { obs_version, websocket_version } => "Connected { obs_version: "@
            + debug_quoted(obs_version@) + ", websocket_version: "@ + debug_quoted(
            websocket_version@,
        ) + " }"@,
        ConnectionStatus::AuthFailed { message } => "AuthFailed { message: "@ + debug_quoted(message@)
            + " }"@,
        ConnectionStatus::Unreachable { message } => "Unreachable { message: "@ + debug_quoted(
            message@,
        ) + " }"@,
    }
}

/// The status as `{:?}` writes it.
pub fn status_text(status: &ConnectionStatus) -> (text: String)
    ensures
        text@ == spec_status_text(*status),
{
    match status {
        ConnectionStatus::Disabled => String::from_str("Disabled"),
        ConnectionStatus::Connecting => String::from_str("Connecting"),
        ConnectionStatus::Connected { obs_version, websocket_version } => {
            let mut t = String::from_str("Connected { obs_version: ");
            t.append(debug_text(obs_version.as_str()).as_str());
            t.append(", websocket_version: ");
            t.append(debug_text(websocket_version.as_str()).as_str());
            t.append(" }");
            t
        },
        ConnectionStatus::AuthFailed { message } => {
            let mut t = String::from_str("AuthFailed { message: ");
            t.append(debug_text(message.as_str()).as_str());
            t.append(" }");
            t
        },
        ConnectionStatus::Unreachable { message } => {
            let mut t = String::from_str("Unreachable { message: ");
            t.append(debug_text(message.as_str()).as_str());
            t.append(" }");
            t
        },
    }
}

/// The status an instance reports after a failed connection.
pub open spec fn spec_classify_error(failure: ObsFailure) -> ConnectionStatus {
    match failure {
        ObsFailure::AuthFailed { message } => ConnectionStatus::AuthFailed { message },
        ObsFailure::Request { message, .. } => ConnectionStatus::Unreachable { message },
        ObsFailure::Other { message } => ConnectionStatus::Unreachable { message },
    }
}

pub fn classify_error(failure: &ObsFailure) -> (status: ConnectionStatus)
    ensures
        status == spec_classify_error(*failure),
{
    match failure {
        ObsFailure::AuthFailed { message } => ConnectionStatus::AuthFailed { message: message.clone() },
        ObsFailure::Request { message, .. } => ConnectionStatus::Unreachable { message: message.clone() },
        ObsFailure::Other { message } => ConnectionStatus::Unreachable { message: message.clone() },
    }
}

/// The status of an instance that just connected; a version that could not be
/// read shows as "unknown".
pub open spec fn spec_connected_status(version: Option<(Seq<char>, Seq<char>)>) -> (Seq<char>, Seq<char>) {
    match version {
        Some((obs, ws)) => (obs, ws),
        None => ("unknown"@, "unknown"@),
    }
}

pub fn connected_status(version: Option<(String, String)>) -> (status: ConnectionStatus)
    ensures
        status matches ConnectionStatus::Connected { obs_version, websocket_version } && (
        obs_version@, websocket_version@) == spec_connected_status(
            match version {
                Some((o, w)) => Some((o@, w@)),
                None => None,
            },
        ),
{
    match version {
        Some((obs, ws)) => ConnectionStatus::Connected { obs_version: obs, websocket_version: ws },
        None => ConnectionStatus::Connected {
            obs_version: String::from_str("unknown"),
            websocket_version: String::from_str("unknown"),
        },
    }
}

/// Exponential backoff between connection attempts.
pub struct Backoff {
    pub current_ms: u64,
    pub initial_ms: u64,
    pub max_ms: u64,
}

pub open spec fn doubled_capped(current: u64, max: u64) -> u64 {
    if 2 * current > max {
        max
    } else {
        (2 * current) as u64
    }
}

impl Backoff {
    pub fn new(options: &PoolOptions) -> (b: Backoff)
        ensures
            b.current_ms == options.initial_backoff_ms,
            b.initial_ms == options.initial_backoff_ms,
            b.max_ms == options.max_backoff_ms,
    {
        Backoff {
            current_ms: options.initial_backoff_ms,
            initial_ms: options.initial_backoff_ms,
            max_ms: options.max_backoff_ms,
        }
    }

    /// A connection succeeded: start over from the initial delay.
    pub fn reset(&mut self)
        ensures
            final(self).current_ms == old(self).initial_ms,
            final(self).initial_ms == old(self).initial_ms,
            final(self).max_ms == old(self).max_ms,
    {
        self.current_ms = self.initial_ms;
    }

    /// The delay to wait now; the next delay doubles, capped at the maximum.
    pub fn next_delay(&mut self) -> (wait_ms: u64)
        ensures
            wait_ms == old(self).current_ms,
            final(self).current_ms == doubled_capped(old(self).current_ms, old(self).max_ms),
            final(self).initial_ms == old(self).initial_ms,
            final(self).max_ms == old(self).max_ms,
    {
        let wait_ms = self.current_ms;
        self.current_ms = match wait_ms.checked_mul(2) {
            Some(d) => if d > self.max_ms {
                self.max_ms
            } else {
                d
            },
            None => self.max_ms,
        };
        wait_ms
    }
}

/// Once the delay is within the maximum it stays within it, and it never
/// shrinks below where it was while it is below the maximum.
pub proof fn backoff_stays_capped(current: u64, max: u64)
    requires
        current <= max,
    ensures
        doubled_capped(current, max) <= max,
        current <= doubled_capped(current, max),
{
}

/// Two to the power `k`.
pub open spec fn doubling(k: nat) -> nat
    decreases k,
{
    if k == 0 {
        1
    } else {
        2 * doubling((k - 1) as nat)
    }
}

/// The delay a `Backoff` holds after `k` waits since it started (or was
/// reset) at `initial`: the delay doubled `k` times, capped at `max` each time.
pub open spec fn delay_after(initial: u64, max: u64, k: nat) -> u64
    decreases k,
{
    if k == 0 {
        initial
    } else {
        doubled_capped(delay_after(initial, max, (k - 1) as nat), max)
    }
}

/// After `k` failed attempts in a row the supervisor waits
/// min(initial * 2^k, max): retries never stop and no wait exceeds the
/// maximum (given an initial delay within the maximum).
pub proof fn backoff_after_failures(initial: u64, max: u64, k: nat)
    requires
        initial <= max,
    ensures
        delay_after(initial, max, k) == if initial * doubling(k) < max {
            initial * doubling(k)
        } else {
            max as int
        },
        delay_after(initial, max, k) <= max,
    decreases k,
{
    if k == 0 {
        assert(doubling(0) == 1);
        assert(initial * doubling(k) == initial) by (nonlinear_arith)
            requires
                doubling(k) == 1,
        ;
    } else {
        let k1 = (k - 1) as nat;
        backoff_after_failures(initial, max, k1);
        let d = doubling(k1);
        let x: int = initial * d;
        let y: int = initial * doubling(k);
        assert(doubling(k) == 2 * d);
        assert(y == 2 * x) by (nonlinear_arith)
            requires
                doubling(k) == 2 * d,
                x == initial * d,
                y == initial * doubling(k),
        ;
        assert(x >= 0) by (nonlinear_arith)
            requires
                x == initial * d,
        ;
        let prev = delay_after(initial, max, k1);
        assert(prev == if x < max { x } else { max as int });
        assert(delay_after(initial, max, k) == doubled_capped(prev, max));
    }
}

/// One supervisor slot: the generation of the task that owns the instance,
/// and the endpoint it connects to (none once a reconnect is forced).
pub struct Slot {
    pub generation: u64,
    pub endpoint: Option<Endpoint>,
}

/// Which supervisors a reconcile stops and which it starts.
pub struct ReconcilePlan {
    pub stopped: Vec<String>,
    pub started: Vec<(String, u64)>,
}

/// What a supervisor does at the top of its loop.
pub enum Attempt {
    /// Cancelled or replaced: stop.
    Stop,
    /// The instance is no longer configured: stop.
    Gone,
    /// Report `Disabled` and wait for a change.
    Disabled,
    /// Connect to this endpoint.
    Connect(ConnectTarget),
}

/// Where and how to connect.
pub struct ConnectTarget {
    pub host: String,
    pub port: u16,
    pub password: Option<String>,
    pub timeout_ms: u64,
}

pub enum AttemptView {
    Stop,
    Gone,
    Disabled,
    Connect { host: Seq<char>, port: u16, password: Option<Seq<char>>, timeout_ms: u64 },
}

impl View for Attempt {
    type V = AttemptView;

    open spec fn view(&self) -> AttemptView {
        match self {
            Attempt::Stop => AttemptView::Stop,
            Attempt::Gone => AttemptView::Gone,
            Attempt::Disabled => AttemptView::Disabled,
            Attempt::Connect(t) => AttemptView::Connect {
                host: t.host@,
                port: t.port,
                password: match t.password {
                    Some(p) => Some(p@),
                    None => None,
                },
                timeout_ms: t.timeout_ms,
            },
        }
    }
}

/// What the supervisor of `generation` does next: stop once cancelled or
/// replaced, stop when the instance is gone, wait while it is disabled, or
/// connect to its trimmed host and port with its password (none when empty).
pub open spec fn spec_attempt<C>(pool: PoolState<C>, id: Seq<char>, generation: u64, cancelled: bool) -> AttemptView {
    let current = pool.slot_map().contains_key(id) && pool.slot_map()[id].generation == generation;
    if cancelled || !current {
        AttemptView::Stop
    } else {
        match config_at(pool.configs_seq(), id) {
            None => AttemptView::Gone,
            Some(k) => {
                let c = pool.configs_seq()[k];
                if !c.enabled {
                    AttemptView::Disabled
                } else {
                    AttemptView::Connect {
                        host: trimmed(c.host@),
                        port: c.port,
                        password: if c.password@.len() > 0 {
                            Some(c.password@)
                        } else {
                            None
                        },
                        timeout_ms: pool.options_of().connect_timeout_ms,
                    }
                }
            },
        }
    }
}

/// The status a supervisor reports as it begins an attempt: `Disabled` while
/// its instance is disabled, `Connecting` before it connects, none when it stops.
pub open spec fn attempt_status(attempt: AttemptView) -> Option<ConnectionStatus> {
    match attempt {
        AttemptView::Disabled => Some(ConnectionStatus::Disabled),
        AttemptView::Connect { .. } => Some(ConnectionStatus::Connecting),
        _ => None,
    }
}

/// The index of the first configuration with the given id.
pub open spec fn config_at(configs: Seq<ObsInstanceConfig>, id: Seq<char>) -> Option<int> {
    if exists|k: int| 0 <= k < configs.len() && configs[k].id@ == id {
        Some(
            choose|k: int|
                0 <= k < configs.len() && configs[k].id@ == id && forall|j: int|
                    0 <= j < k ==> configs[j].id@ != id,
        )
    } else {
        None
    }
}

pub(crate) proof fn lemma_config_at(configs: Seq<ObsInstanceConfig>, id: Seq<char>, k: int)
    requires
        0 <= k < configs.len(),
        configs[k].id@ == id,
        forall|j: int| 0 <= j < k ==> configs[j].id@ != id,
    ensures
        config_at(configs, id) == Some(k),
{
    let c = choose|c: int|
        0 <= c < configs.len() && configs[c].id@ == id && forall|j: int|
            0 <= j < c ==> configs[j].id@ != id;
    assert(c == k);
}

proof fn lemma_config_at_some(configs: Seq<ObsInstanceConfig>, id: Seq<char>)
    requires
        exists|k: int| 0 <= k < configs.len() && configs[k].id@ == id,
    ensures
        config_at(configs, id) matches Some(k) && 0 <= k < configs.len() && configs[k].id@ == id,
{
    let k0 = choose|k: int| 0 <= k < configs.len() && configs[k].id@ == id;
    lemma_first_exists(configs, id, k0);
}

proof fn lemma_first_exists(configs: Seq<ObsInstanceConfig>, id: Seq<char>, k0: int)
    requires
        0 <= k0 < configs.len(),
        configs[k0].id@ == id,
    ensures
        exists|k: int|
            0 <= k < configs.len() && configs[k].id@ == id && forall|j: int|
                0 <= j < k ==> configs[j].id@ != id,
    decreases k0,
{
    if exists|j: int| 0 <= j < k0 && configs[j].id@ == id {
        let j = choose|j: int| 0 <= j < k0 && configs[j].id@ == id;
        lemma_first_exists(configs, id, j);
    } else {
        assert(forall|j: int| 0 <= j < k0 ==> configs[j].id@ != id);
    }
}

/// The endpoint a configuration connects to.
pub open spec fn endpoint_of(c: ObsInstanceConfig) -> (Seq<char>, u16, Seq<char>) {
    (c.host@, c.port, c.password@)
}

/// Whether a reconcile keeps the supervisor of `id` as it is: it exists and
/// already connects to the endpoint now configured for that id.
pub open spec fn keeps(slots: Map<Seq<char>, Slot>, configs: Seq<ObsInstanceConfig>, id: Seq<char>) -> bool {
    &&& slots.contains_key(id)
    &&& config_at(configs, id) is Some
    &&& slots[id].endpoint matches Some(e) && e@ == endpoint_of(configs[config_at(configs, id)->0])
}

/// The slots once the supervisor of `id` (if any) has forgotten its endpoint.
pub open spec fn released(slots: Map<Seq<char>, Slot>, id: Seq<char>) -> Map<Seq<char>, Slot> {
    if slots.contains_key(id) {
        slots.insert(id, Slot { generation: slots[id].generation, endpoint: None })
    } else {
        slots
    }
}

pub open spec fn ids_of(configs: Seq<ObsInstanceConfig>) -> Set<Seq<char>> {
    Set::new(|k: Seq<char>| exists|i: int| 0 <= i < configs.len() && configs[i].id@ == k)
}

/// The snapshot of one configured instance, with its last status (or `Connecting`).
pub open spec fn snapshot(c: ObsInstanceConfig, statuses: Map<Seq<char>, ConnectionStatus>) -> InstanceStatus {
    InstanceStatus {
        id: c.id,
        name: c.name,
        color: c.color,
        host: c.host,
        port: c.port,
        enabled: c.enabled,
        status: if statuses.contains_key(c.id@) {
            statuses[c.id@]
        } else {
            ConnectionStatus::Connecting
        },
    }
}

/// The bookkeeping of the connection pool: configuration, one supervisor slot
/// per configured instance, live clients and last known statuses.
pub struct PoolState<C> {
    options: PoolOptions,
    configs: Vec<ObsInstanceConfig>,
    groups: Vec<TargetGroup>,
    slots: Table<Slot>,
    clients: Table<C>,
    statuses: Table<ConnectionStatus>,
    next_generation: u64,
}

impl<C> PoolState<C> {
    pub closed spec fn configs_seq(self) -> Seq<ObsInstanceConfig> {
        self.configs@
    }

    pub closed spec fn groups_seq(self) -> Seq<TargetGroup> {
        self.groups@
    }

    pub closed spec fn slot_map(self) -> Map<Seq<char>, Slot> {
        self.slots.map()
    }

    pub closed spec fn client_map(self) -> Map<Seq<char>, C> {
        self.clients.map()
    }

    pub closed spec fn status_map(self) -> Map<Seq<char>, ConnectionStatus> {
        self.statuses.map()
    }

    pub closed spec fn next_gen(self) -> u64 {
        self.next_generation
    }

    pub closed spec fn options_of(self) -> PoolOptions {
        self.options
    }

    /// Every client and status belongs to a live supervisor slot, and every
    /// slot's generation was handed out before the next one.
    pub open spec fn wf(self) -> bool {
        &&& forall|k: Seq<char>| #[trigger] self.client_map().contains_key(k) ==> self.slot_map().contains_key(k)
        &&& forall|k: Seq<char>| #[trigger] self.status_map().contains_key(k) ==> self.slot_map().contains_key(k)
        &&& forall|k: Seq<char>| #[trigger] self.slot_map().contains_key(k) ==> self.slot_map()[k].generation < self.next_gen()
        &&& self.next_gen() >= 1
    }

    pub fn new(options: PoolOptions) -> (pool: Self)
        ensures
            pool.wf(),
            pool.configs_seq().len() == 0,
            pool.groups_seq().len() == 0,
            pool.slot_map() == Map::<Seq<char>, Slot>::empty(),
            pool.client_map() == Map::<Seq<char>, C>::empty(),
            pool.status_map() == Map::<Seq<char>, ConnectionStatus>::empty(),
            pool.next_gen() == 1,
            pool.options_of() == options,
    {
        PoolState {
            options,
            configs: Vec::new(),
            groups: Vec::new(),
            slots: Table::new(),
            clients: Table::new(),
            statuses: Table::new(),
            next_generation: 1,
        }
    }

    pub fn options(&self) -> (o: &PoolOptions)
        ensures
            *o == self.options_of(),
    {
        &self.options
    }

    pub fn configs(&self) -> (c: &Vec<ObsInstanceConfig>)
        ensures
            c@ == self.configs_seq(),
    {
        &self.configs
    }

    pub fn groups(&self) -> (g: &Vec<TargetGroup>)
        ensures
            g@ == self.groups_seq(),
    {
        &self.groups
    }

    /// The next generation a started supervisor gets.
    pub fn next_generation(&self) -> (g: u64)
        ensures
            g == self.next_gen(),
    {
        self.next_generation
    }

    /// The first configuration with this id.
    pub fn config(&self, id: &str) -> (c: Option<&ObsInstanceConfig>)
        ensures
            match c {
                Some(c) => config_at(self.configs_seq(), id@) matches Some(k) && *c == self.configs_seq()[k],
                None => config_at(self.configs_seq(), id@) is None,
            },
    {
        let mut i: usize = 0;
        while i < self.configs.len()
            invariant
                i <= self.configs.len(),
                forall|j: int| 0 <= j < i ==> self.configs@[j].id@ != id@,
            decreases self.configs.len() - i,
        {
            if crate::text::same_str(self.configs[i].id.as_str(), id) {
                proof {
                    lemma_config_at(self.configs@, id@, i as int);
                }
                return Some(&self.configs[i]);
            }
            i = i + 1;
        }
        None
    }

    /// The last status an instance reported.
    pub fn status(&self, id: &str) -> (s: Option<&ConnectionStatus>)
        ensures
            match s {
                Some(s) => self.status_map().contains_key(id@) && *s == self.status_map()[id@],
                None => !self.status_map().contains_key(id@),
            },
    {
        self.statuses.get(id)
    }

    /// A snapshot of every configured instance, in configuration order.
    pub fn statuses(&self) -> (all: Vec<InstanceStatus>)
        ensures
            all@.len() == self.configs_seq().len(),
            forall|i: int| 0 <= i < all@.len() ==> #[trigger] all@[i] == snapshot(self.configs_seq()[i], self.status_map()),
    {
        let mut all: Vec<InstanceStatus> = Vec::new();
        let mut i: usize = 0;
        while i < self.configs.len()
            invariant
                i <= self.configs.len(),
                all@.len() == i,
                forall|j: int| 0 <= j < i ==> #[trigger] all@[j] == snapshot(self.configs@[j], self.statuses.map()),
            decreases self.configs.len() - i,
        {
            all.push(self.snapshot_of(&self.configs[i]));
            i = i + 1;
        }
        all
    }

    fn snapshot_of(&self, c: &ObsInstanceConfig) -> (s: InstanceStatus)
        ensures
            s == snapshot(*c, self.status_map()),
    {
        let status = match self.statuses.get(c.id.as_str()) {
            Some(s) => s.clone(),
            None => ConnectionStatus::Connecting,
        };
        InstanceStatus {
            id: c.id.clone(),
            name: c.name.clone(),
            color: c.color.clone(),
            host: c.host.clone(),
            port: c.port,
            enabled: c.enabled,
            status,
        }
    }

    /// The live client of an instance, or why there is none.
    pub fn client(&self, id: &String) -> (c: Result<&C, CallError>)
        ensures
            config_at(self.configs_seq(), id@) is None ==> (c matches Err(CallError::Unknown(u)) && u@ == id@),
            config_at(self.configs_seq(), id@) is Some && self.client_map().contains_key(id@) ==> (c matches Ok(
                client,
            ) && *client == self.client_map()[id@]),
            config_at(self.configs_seq(), id@) is Some && !self.client_map().contains_key(id@) ==> (c matches Err(
                CallError::Unavailable { id: u, status },
            ) && u@ == id@ && status@ == (if self.status_map().contains_key(id@) {
                spec_status_text(self.status_map()[id@])
            } else {
                "missing"@
            })),
    {
        if self.config(id.as_str()).is_none() {
            return Err(CallError::Unknown(id.clone()));
        }
        if let Some(client) = self.clients.get(id.as_str()) {
            return Ok(client);
        }
        let status = match self.statuses.get(id.as_str()) {
            Some(s) => status_text(s),
            None => String::from_str("missing"),
        };
        Err(CallError::Unavailable { id: id.clone(), status })
    }

    /// Whether `generation` still owns the instance.
    pub fn generation_current(&self, id: &str, generation: u64) -> (b: bool)
        ensures
            b == (self.slot_map().contains_key(id@) && self.slot_map()[id@].generation == generation),
    {
        match self.slots.get(id) {
            Some(slot) => slot.generation == generation,
            None => false,
        }
    }

    /// Record a status from the supervisor of `generation`; a stale supervisor
    /// changes nothing. Returns the snapshot to broadcast.
    pub fn publish_status(&mut self, id: &String, generation: u64, status: ConnectionStatus) -> (snap: Option<InstanceStatus>)
        requires
            old(self).wf(),
        ensures
            final(self).wf(),
            final(self).configs_seq() == old(self).configs_seq(),
            final(self).groups_seq() == old(self).groups_seq(),
            final(self).slot_map() == old(self).slot_map(),
            final(self).client_map() == old(self).client_map(),
            final(self).next_gen() == old(self).next_gen(),
            final(self).options_of() == old(self).options_of(),
            if old(self).slot_map().contains_key(id@) && old(self).slot_map()[id@].generation == generation {
                &&& final(self).status_map() == old(self).status_map().insert(id@, status)
                &&& snap == match config_at(old(self).configs_seq(), id@) {
                    Some(k) => Some(snapshot(old(self).configs_seq()[k], final(self).status_map())),
                    None => None,
                }
            } else {
                final(self).status_map() == old(self).status_map() && snap is None
            },
    {
        if !self.generation_current(id.as_str(), generation) {
            return None;
        }
        self.statuses.insert(id.clone(), status);
        assert forall|k: Seq<char>| #[trigger] self.status_map().contains_key(k) implies self.slot_map().contains_key(k) by {
            if k != id@ {
                assert(old(self).status_map().contains_key(k));
            }
        }
        assert(self.client_map() == old(self).client_map());
        assert(self.slot_map() == old(self).slot_map());
        match self.config(id.as_str()) {
            Some(c) => Some(self.snapshot_of(c)),
            None => None,
        }
    }

    /// Keep the client of a supervisor that still owns its instance.
    pub fn store_client(&mut self, id: &String, generation: u64, client: C) -> (stored: bool)
        requires
            old(self).wf(),
        ensures
            final(self).wf(),
            final(self).configs_seq() == old(self).configs_seq(),
            final(self).groups_seq() == old(self).groups_seq(),
            final(self).slot_map() == old(self).slot_map(),
            final(self).status_map() == old(self).status_map(),
            final(self).next_gen() == old(self).next_gen(),
            final(self).options_of() == old(self).options_of(),
            stored == (old(self).slot_map().contains_key(id@) && old(self).slot_map()[id@].generation == generation),
            stored ==> final(self).client_map() == old(self).client_map().insert(id@, client),
            !stored ==> final(self).client_map() == old(self).client_map(),
    {
        if !self.generation_current(id.as_str(), generation) {
            return false;
        }
        self.clients.insert(id.clone(), client);
        assert forall|k: Seq<char>| #[trigger] self.client_map().contains_key(k) implies self.slot_map().contains_key(k) by {
            if k != id@ {
                assert(old(self).client_map().contains_key(k));
            }
        }
        assert(self.status_map() == old(self).status_map());
        assert(self.slot_map() == old(self).slot_map());
        true
    }

    /// Drop the client of a supervisor that still owns its instance.
    pub fn clear_client(&mut self, id: &str, generation: u64)
        requires
            old(self).wf(),
        ensures
            final(self).wf(),
            final(self).configs_seq() == old(self).configs_seq(),
            final(self).groups_seq() == old(self).groups_seq(),
            final(self).slot_map() == old(self).slot_map(),
            final(self).status_map() == old(self).status_map(),
            final(self).next_gen() == old(self).next_gen(),
            final(self).options_of() == old(self).options_of(),
            if old(self).slot_map().contains_key(id@) && old(self).slot_map()[id@].generation == generation {
                final(self).client_map() == old(self).client_map().remove(id@)
            } else {
                final(self).client_map() == old(self).client_map()
            },
    {
        if self.generation_current(id, generation) {
            self.clients.remove(id);
            assert forall|k: Seq<char>| #[trigger] self.client_map().contains_key(k) implies self.slot_map().contains_key(k) by {
                assert(old(self).client_map().contains_key(k));
            }
        }
        assert(self.status_map() == old(self).status_map());
        assert(self.slot_map() == old(self).slot_map());
    }
}

/// What a reconcile with `configs` does, from `before` to `after`:
/// the configuration is replaced; there is a slot for exactly the configured
/// ids; a slot that already connects to the configured endpoint stays as it
/// was, every other one gets that endpoint and a generation never handed out
/// before, and is listed as started; the supervisors of all other old slots
/// are listed as stopped; clients survive only with their kept slot, statuses
/// with their configured instance.
pub open spec fn reconciled<C>(
    before: PoolState<C>,
    after: PoolState<C>,
    configs: Seq<ObsInstanceConfig>,
    plan: ReconcilePlan,
) -> bool {
    let old_slots = before.slot_map();
    &&& after.configs_seq() == configs
    &&& after.next_gen() >= before.next_gen()
    &&& forall|k: Seq<char>| #[trigger] after.slot_map().contains_key(k) <==> ids_of(configs).contains(k)
    &&& forall|k: Seq<char>| #[trigger] after.slot_map().contains_key(k) && keeps(old_slots, configs, k) ==> after.slot_map()[k] == old_slots[k]
    &&& forall|k: Seq<char>| #[trigger] after.slot_map().contains_key(k) && !keeps(old_slots, configs, k) ==> {
        &&& after.slot_map()[k].endpoint matches Some(e) && e@ == endpoint_of(configs[config_at(configs, k)->0])
        &&& after.slot_map()[k].generation >= before.next_gen()
        &&& exists|j: int| 0 <= j < plan.started@.len() && #[trigger] plan.started@[j].0@ == k
    }
    &&& forall|k: Seq<char>| #[trigger] after.client_map().contains_key(k) <==> (before.client_map().contains_key(k) && keeps(old_slots, configs, k))
    &&& forall|k: Seq<char>| #[trigger] after.client_map().contains_key(k) ==> after.client_map()[k] == before.client_map()[k]
    &&& forall|k: Seq<char>| #[trigger] after.status_map().contains_key(k) <==> (before.status_map().contains_key(k) && ids_of(configs).contains(k))
    &&& forall|k: Seq<char>| #[trigger] after.status_map().contains_key(k) ==> after.status_map()[k] == before.status_map()[k]
    &&& forall|k: Seq<char>| #[trigger] plan.stopped.deep_view().contains(k) <==> (old_slots.contains_key(k) && !keeps(old_slots, configs, k))
    &&& forall|j: int| 0 <= j < plan.started@.len() ==> {
        let k = #[trigger] plan.started@[j].0@;
        &&& after.slot_map().contains_key(k)
        &&& after.slot_map()[k].generation == plan.started@[j].1
        &&& !keeps(old_slots, configs, k)
    }
    &&& forall|j: int, l: int| 0 <= j < l < plan.started@.len() ==> plan.started@[j].1 < plan.started@[l].1
}

/// Reconciling again with the same configuration stops and starts nothing and
/// leaves every slot and client as it was.
pub proof fn reconcile_again_changes_nothing<C>(
    p0: PoolState<C>,
    p1: PoolState<C>,
    p2: PoolState<C>,
    configs: Seq<ObsInstanceConfig>,
    plan1: ReconcilePlan,
    plan2: ReconcilePlan,
)
    requires
        reconciled(p0, p1, configs, plan1),
        reconciled(p1, p2, configs, plan2),
    ensures
        p2.slot_map() == p1.slot_map(),
        p2.client_map() == p1.client_map(),
        plan2.stopped@.len() == 0,
        plan2.started@.len() == 0,
{
    assert forall|k: Seq<char>| #[trigger] p1.slot_map().contains_key(k) implies keeps(p1.slot_map(), configs, k) by {
        lemma_config_at_some(configs, k);
    }
    assert(p2.slot_map() =~= p1.slot_map());
    assert(p2.client_map() =~= p1.client_map()) by {
        assert forall|k: Seq<char>| #[trigger] p1.client_map().contains_key(k) implies p1.slot_map().contains_key(k) by {
            if p1.client_map().contains_key(k) {
                assert(p0.client_map().contains_key(k) && keeps(p0.slot_map(), configs, k));
                lemma_config_at_some(configs, k);
            }
        }
    }
    if plan2.stopped@.len() > 0 {
        assert(plan2.stopped.deep_view()[0] == plan2.stopped@[0]@);
        assert(plan2.stopped.deep_view().contains(plan2.stopped@[0]@));
    }
    if plan2.started@.len() > 0 {
        let k = plan2.started@[0].0@;
        assert(p2.slot_map().contains_key(k));
    }
}

/// Whether one of the first `n` configurations has this id.
pub open spec fn among_first(configs: Seq<ObsInstanceConfig>, n: int, id: Seq<char>) -> bool {
    exists|j: int| 0 <= j < n && #[trigger] configs[j].id@ == id
}

impl<C> PoolState<C> {
    /// Stop the supervisors of instances that are no longer configured.
    fn drop_stale(&mut self, ids: &Vec<String>, stopped: &mut Vec<String>)
        requires
            old(self).wf(),
        ensures
            final(self).wf(),
            final(self).configs_seq() == old(self).configs_seq(),
            final(self).groups_seq() == old(self).groups_seq(),
            final(self).next_gen() == old(self).next_gen(),
            final(self).options_of() == old(self).options_of(),
            forall|k: Seq<char>| #[trigger] final(self).slot_map().contains_key(k) <==> (old(self).slot_map().contains_key(k) && ids.deep_view().contains(k)),
            forall|k: Seq<char>| #[trigger] final(self).slot_map().contains_key(k) ==> final(self).slot_map()[k] == old(self).slot_map()[k],
            forall|k: Seq<char>| #[trigger] final(self).client_map().contains_key(k) <==> (old(self).client_map().contains_key(k) && ids.deep_view().contains(k)),
            forall|k: Seq<char>| #[trigger] final(self).client_map().contains_key(k) ==> final(self).client_map()[k] == old(self).client_map()[k],
            forall|k: Seq<char>| #[trigger] final(self).status_map().contains_key(k) <==> (old(self).status_map().contains_key(k) && ids.deep_view().contains(k)),
            forall|k: Seq<char>| #[trigger] final(self).status_map().contains_key(k) ==> final(self).status_map()[k] == old(self).status_map()[k],
            forall|k: Seq<char>| #[trigger] final(stopped).deep_view().contains(k) <==> (old(stopped).deep_view().contains(k) || (old(self).slot_map().contains_key(k) && !ids.deep_view().contains(k))),
    {
        let keys = self.slots.keys();
        let ghost kv = keys.deep_view();
        let ghost s0 = self.slot_map();
        let ghost c0 = self.client_map();
        let ghost t0 = self.status_map();
        let ghost st0 = stopped.deep_view();
        let ghost idv = ids.deep_view();
        let mut i: usize = 0;
        while i < keys.len()
            invariant
                i <= keys.len(),
                kv == keys.deep_view(),
                kv.no_duplicates(),
                forall|k: Seq<char>| #[trigger] s0.contains_key(k) <==> kv.contains(k),
                idv == ids.deep_view(),
                self.wf(),
                self.configs_seq() == old(self).configs_seq(),
                self.groups_seq() == old(self).groups_seq(),
                self.next_gen() == old(self).next_gen(),
                self.options_of() == old(self).options_of(),
                s0 == old(self).slot_map(),
                c0 == old(self).client_map(),
                t0 == old(self).status_map(),
                st0 == old(stopped).deep_view(),
                forall|k: Seq<char>| #[trigger] self.slot_map().contains_key(k) <==> (s0.contains_key(k) && !(kv.take(i as int).contains(k) && !idv.contains(k))),
                forall|k: Seq<char>| #[trigger] self.slot_map().contains_key(k) ==> self.slot_map()[k] == s0[k],
                forall|k: Seq<char>| #[trigger] self.client_map().contains_key(k) <==> (c0.contains_key(k) && !(kv.take(i as int).contains(k) && !idv.contains(k))),
                forall|k: Seq<char>| #[trigger] self.client_map().contains_key(k) ==> self.client_map()[k] == c0[k],
                forall|k: Seq<char>| #[trigger] self.status_map().contains_key(k) <==> (t0.contains_key(k) && !(kv.take(i as int).contains(k) && !idv.contains(k))),
                forall|k: Seq<char>| #[trigger] self.status_map().contains_key(k) ==> self.status_map()[k] == t0[k],
                forall|k: Seq<char>| #[trigger] stopped.deep_view().contains(k) <==> (st0.contains(k) || (kv.take(i as int).contains(k) && !idv.contains(k))),
            decreases keys.len() - i,
        {
            let ghost key = kv[i as int];
            let ghost pre = kv.take(i as int);
            let ghost post = kv.take(i + 1);
            proof {
                lemma_take_next_contains(kv, i as int);
            }
            if !list_contains(ids, &keys[i]) {
                let ghost before = stopped.deep_view();
                let ghost sb = self.slot_map();
                let ghost cb = self.client_map();
                let ghost tb = self.status_map();
                self.slots.remove(keys[i].as_str());
                self.clients.remove(keys[i].as_str());
                self.statuses.remove(keys[i].as_str());
                stopped.push(keys[i].clone());
                assert(stopped.deep_view() =~= before.push(key));
                assert forall|k: Seq<char>| #[trigger] stopped.deep_view().contains(k) <==> (st0.contains(k) || (post.contains(k) && !idv.contains(k))) by {
                    if stopped.deep_view().contains(k) && k != key {
                        let j = choose|j: int| 0 <= j < stopped.deep_view().len() && stopped.deep_view()[j] == k;
                        assert(j < before.len());
                        assert(before[j] == k);
                        assert(before.contains(k));
                    }
                    if k == key {
                        assert(stopped.deep_view()[before.len() as int] == key);
                    }
                    if st0.contains(k) || (pre.contains(k) && !idv.contains(k)) {
                        assert(before.contains(k));
                        let j = choose|j: int| 0 <= j < before.len() && before[j] == k;
                        assert(stopped.deep_view()[j] == k);
                    }
                }
                assert forall|k: Seq<char>| #[trigger] self.client_map().contains_key(k) implies self.slot_map().contains_key(k) by {
                    assert(cb.contains_key(k));
                }
                assert forall|k: Seq<char>| #[trigger] self.status_map().contains_key(k) implies self.slot_map().contains_key(k) by {
                    assert(tb.contains_key(k));
                }
                assert forall|k: Seq<char>| #[trigger] self.slot_map().contains_key(k) implies self.slot_map()[k].generation < self.next_gen() by {
                    assert(sb.contains_key(k));
                }
            }
            i = i + 1;
        }
        proof {
            assert(kv.take(keys.len() as int) =~= kv);
        }
    }
}

impl<C> PoolState<C> {
    /// The position of the first configuration with this id.
    fn config_index(&self, id: &str) -> (i: Option<usize>)
        ensures
            match i {
                Some(i) => config_at(self.configs_seq(), id@) == Some(i as int) && i < self.configs_seq().len(),
                None => config_at(self.configs_seq(), id@) is None,
            },
    {
        let mut i: usize = 0;
        while i < self.configs.len()
            invariant
                i <= self.configs.len(),
                forall|j: int| 0 <= j < i ==> self.configs@[j].id@ != id@,
            decreases self.configs.len() - i,
        {
            if crate::text::same_str(self.configs[i].id.as_str(), id) {
                proof {
                    lemma_config_at(self.configs@, id@, i as int);
                }
                return Some(i);
            }
            i = i + 1;
        }
        None
    }

    /// Replace the desired configuration. Supervisors whose endpoint is
    /// unchanged keep their socket; the others are stopped, and every
    /// configured instance without a matching supervisor gets a new one with a
    /// fresh generation. Clients of stopped supervisors are dropped; statuses
    /// are kept for every instance still configured.
    #[verifier::rlimit(50)]
    pub fn reconcile(&mut self, configs: Vec<ObsInstanceConfig>, groups: Vec<TargetGroup>) -> (plan: ReconcilePlan)
        requires
            old(self).wf(),
            old(self).next_gen() + configs@.len() < u64::MAX,
        ensures
            final(self).wf(),
            final(self).groups_seq() == groups@,
            final(self).options_of() == old(self).options_of(),
            reconciled(*old(self), *final(self), configs@, plan),
    {
        let ghost old_slots = self.slot_map();
        let ghost old_clients = self.client_map();
        let ghost old_statuses = self.status_map();
        let ghost g0 = self.next_gen();
        let ghost cs = configs@;
        let ids = config_ids(&configs);
        let mut stopped: Vec<String> = Vec::new();
        let mut started: Vec<(String, u64)> = Vec::new();
        self.drop_stale(&ids, &mut stopped);
        let ghost s_a = self.slot_map();
        let ghost c_a = self.client_map();
        let ghost t_a = self.status_map();
        let ghost st_a = stopped.deep_view();
        proof {
            assert forall|k: Seq<char>| #[trigger] c_a.contains_key(k) <==> (old_clients.contains_key(k) && ids_of(cs).contains(k)) by {
                assert(ids.deep_view().contains(k) == ids_of(cs).contains(k));
            }
            assert forall|k: Seq<char>| #[trigger] t_a.contains_key(k) <==> (old_statuses.contains_key(k) && ids_of(cs).contains(k)) by {
                assert(ids.deep_view().contains(k) == ids_of(cs).contains(k));
            }
        }
        self.configs = configs;
        self.groups = groups;
        assert(self.slot_map() == s_a);
        assert(self.client_map() == c_a);
        assert(self.status_map() == t_a);
        proof {
            assert forall|k: Seq<char>| #[trigger] s_a.contains_key(k) <==> (old_slots.contains_key(k) && ids_of(cs).contains(k)) by {
                assert(ids.deep_view().contains(k) == ids_of(cs).contains(k));
            }
            assert forall|k: Seq<char>| #[trigger] st_a.contains(k) <==> (old_slots.contains_key(k) && !ids_of(cs).contains(k)) by {
                assert(ids.deep_view().contains(k) == ids_of(cs).contains(k));
            }
            lemma_keeps_after_drop(old_slots, s_a, cs);
            assert(placed(*self, s_a, c_a, t_a, st_a, stopped.deep_view(), started@, cs, 0, g0)) by {
                reveal(placed);
                assert forall|k: Seq<char>| !#[trigger] among_first(cs, 0, k) by {}
            }
        }
        let mut i: usize = 0;
        while i < self.configs.len()
            invariant
                i <= cs.len(),
                self.configs_seq() == cs,
                self.groups_seq() == groups@,
                self.options_of() == old(self).options_of(),
                g0 + cs.len() < u64::MAX,
                self.next_gen() <= g0 + i,
                placed(*self, s_a, c_a, t_a, st_a, stopped.deep_view(), started@, cs, i as int, g0),
            decreases cs.len() - i,
        {
            self.place_config(i, &mut stopped, &mut started, Ghost(s_a), Ghost(c_a), Ghost(t_a), Ghost(st_a), Ghost(g0));
            i = i + 1;
        }
        proof {
            lemma_reconcile_done(*self, old_slots, old_clients, old_statuses, s_a, c_a, t_a, st_a, stopped.deep_view(), started@, cs, g0);
        }
        ReconcilePlan { stopped, started }
    }

    /// Drop the current socket of an instance so that a new supervisor connects
    /// again at once: its client goes, its supervisor forgets its endpoint, and
    /// the configuration is reconciled again.
    pub fn reconnect(&mut self, id: &str) -> (plan: ReconcilePlan)
        requires
            old(self).wf(),
            old(self).next_gen() + old(self).configs_seq().len() < u64::MAX,
        ensures
            final(self).wf(),
            final(self).configs_seq() == old(self).configs_seq(),
            final(self).groups_seq() == old(self).groups_seq(),
            final(self).options_of() == old(self).options_of(),
            final(self).next_gen() >= old(self).next_gen(),
            old(self).slot_map().contains_key(id@) ==> !final(self).client_map().contains_key(id@) && plan.stopped.deep_view().contains(id@),
            old(self).slot_map().contains_key(id@) && ids_of(old(self).configs_seq()).contains(id@) ==> final(self).slot_map().contains_key(id@)
                && final(self).slot_map()[id@].generation >= old(self).next_gen(),
            exists|mid: PoolState<C>| #[trigger] reconciled(mid, *final(self), old(self).configs_seq(), plan) && {
                &&& mid.slot_map() == released(old(self).slot_map(), id@)
                &&& mid.client_map() == old(self).client_map().remove(id@)
                &&& mid.status_map() == old(self).status_map()
                &&& mid.next_gen() == old(self).next_gen()
            },
    {
        let configs = copy_configs(&self.configs);
        let mut groups: Vec<TargetGroup> = Vec::new();
        std::mem::swap(&mut groups, &mut self.groups);
        assert(groups@ == old(self).groups_seq());
        assert(self.slot_map() == old(self).slot_map());
        assert(self.client_map() == old(self).client_map());
        assert(self.status_map() == old(self).status_map());
        assert(self.configs_seq() == old(self).configs_seq());
        assert(self.next_gen() == old(self).next_gen());
        assert(self.options_of() == old(self).options_of());
        let ghost cb = self.client_map();
        self.clients.remove(id);
        match self.slots.remove(id) {
            Some(slot) => {
                let ghost sb = self.slot_map();
                self.slots.insert(id.to_owned(), Slot { generation: slot.generation, endpoint: None });
                assert(self.slot_map() =~= sb.insert(id@, Slot { generation: slot.generation, endpoint: None }));
            },
            None => {},
        }
        proof {
            assert forall|k: Seq<char>| #[trigger] self.client_map().contains_key(k) implies self.slot_map().contains_key(k) by {
                assert(cb.contains_key(k));
                assert(old(self).slot_map().contains_key(k));
            }
            assert(self.status_map() == old(self).status_map());
            assert forall|k: Seq<char>| #[trigger] self.status_map().contains_key(k) implies self.slot_map().contains_key(k) by {
                assert(old(self).slot_map().contains_key(k));
            }
            assert forall|k: Seq<char>| #[trigger] self.slot_map().contains_key(k) implies self.slot_map()[k].generation < self.next_gen() by {
                assert(old(self).slot_map().contains_key(k));
            }
        }
        let ghost mid = self.slot_map();
        let ghost mid_state = *self;
        proof {
            assert(mid =~= released(old(self).slot_map(), id@));
            assert(mid_state.client_map() =~= old(self).client_map().remove(id@));
        }
        let plan = self.reconcile(configs, groups);
        proof {
            if old(self).slot_map().contains_key(id@) {
                assert(mid.contains_key(id@));
                assert(!keeps(mid, old(self).configs_seq(), id@));
            }
        }
        plan
    }
}

/// The progress of a reconcile after placing the first `n` configurations,
/// starting from slots `s_a`, clients `c_a`, statuses `t_a` and stopped ids `st_a`.
#[verifier::opaque]
pub open spec fn placed<C>(
    pool: PoolState<C>,
    s_a: Map<Seq<char>, Slot>,
    c_a: Map<Seq<char>, C>,
    t_a: Map<Seq<char>, ConnectionStatus>,
    st_a: Seq<Seq<char>>,
    stopped: Seq<Seq<char>>,
    started: Seq<(String, u64)>,
    cs: Seq<ObsInstanceConfig>,
    n: int,
    g0: u64,
) -> bool {
    &&& pool.wf()
    &&& g0 <= pool.next_gen()
    &&& pool.status_map() == t_a
    &&& forall|k: Seq<char>| #[trigger] s_a.contains_key(k) ==> ids_of(cs).contains(k)
    &&& forall|k: Seq<char>| #[trigger] pool.slot_map().contains_key(k) <==> (s_a.contains_key(k) || among_first(cs, n, k))
    &&& forall|k: Seq<char>| #[trigger] pool.slot_map().contains_key(k) && !among_first(cs, n, k) ==> pool.slot_map()[k] == s_a[k]
    &&& forall|k: Seq<char>| #[trigger] among_first(cs, n, k) && keeps(s_a, cs, k) ==> pool.slot_map()[k] == s_a[k]
    &&& forall|k: Seq<char>| #[trigger] among_first(cs, n, k) && !keeps(s_a, cs, k) ==> {
        &&& pool.slot_map()[k].endpoint matches Some(e) && e@ == endpoint_of(cs[config_at(cs, k)->0])
        &&& pool.slot_map()[k].generation >= g0
        &&& exists|j: int| 0 <= j < started.len() && #[trigger] started[j].0@ == k
    }
    &&& forall|k: Seq<char>| #[trigger] pool.client_map().contains_key(k) <==> (c_a.contains_key(k) && (!among_first(cs, n, k) || keeps(s_a, cs, k)))
    &&& forall|k: Seq<char>| #[trigger] pool.client_map().contains_key(k) ==> pool.client_map()[k] == c_a[k]
    &&& forall|k: Seq<char>| #[trigger] stopped.contains(k) <==> (st_a.contains(k) || (among_first(cs, n, k) && s_a.contains_key(k) && !keeps(s_a, cs, k)))
    &&& forall|j: int| 0 <= j < started.len() ==> {
        let k = #[trigger] started[j].0@;
        &&& among_first(cs, n, k)
        &&& !keeps(s_a, cs, k)
        &&& pool.slot_map().contains_key(k)
        &&& pool.slot_map()[k].generation == started[j].1
        &&& g0 <= started[j].1 < pool.next_gen()
    }
    &&& forall|j: int, l: int| 0 <= j < l < started.len() ==> started[j].1 < started[l].1
}

/// The ids of the configurations.
fn config_ids(configs: &Vec<ObsInstanceConfig>) -> (ids: Vec<String>)
    ensures
        forall|k: Seq<char>| #[trigger] ids.deep_view().contains(k) <==> ids_of(configs@).contains(k),
{
    let ghost cs = configs@;
    let mut ids: Vec<String> = Vec::new();
    let mut n: usize = 0;
    while n < configs.len()
        invariant
            n <= configs.len(),
            cs == configs@,
            ids.deep_view().len() == n,
            forall|j: int| 0 <= j < n ==> #[trigger] ids.deep_view()[j] == cs[j].id@,
        decreases configs.len() - n,
    {
        let ghost before = ids.deep_view();
        let id = configs[n].id.clone();
        ids.push(id);
        assert(ids.deep_view() =~= before.push(cs[n as int].id@));
        n = n + 1;
    }
    assert forall|k: Seq<char>| #[trigger] ids.deep_view().contains(k) <==> ids_of(cs).contains(k) by {
        if ids.deep_view().contains(k) {
            let j = choose|j: int| 0 <= j < ids.deep_view().len() && ids.deep_view()[j] == k;
            assert(cs[j].id@ == k);
        }
        if ids_of(cs).contains(k) {
            let j = choose|j: int| 0 <= j < cs.len() && cs[j].id@ == k;
            assert(ids.deep_view()[j] == k);
        }
    }
    ids
}

proof fn lemma_keeps_after_drop(
    old_slots: Map<Seq<char>, Slot>,
    s_a: Map<Seq<char>, Slot>,
    cs: Seq<ObsInstanceConfig>,
)
    requires
        forall|k: Seq<char>| #[trigger] s_a.contains_key(k) <==> (old_slots.contains_key(k) && ids_of(cs).contains(k)),
        forall|k: Seq<char>| #[trigger] s_a.contains_key(k) ==> s_a[k] == old_slots[k],
    ensures
        forall|k: Seq<char>| #[trigger] keeps(s_a, cs, k) == keeps(old_slots, cs, k),
        forall|k: Seq<char>| #[trigger] s_a.contains_key(k) ==> ids_of(cs).contains(k),
{
    assert forall|k: Seq<char>| #[trigger] keeps(s_a, cs, k) == keeps(old_slots, cs, k) by {
        if config_at(cs, k) is Some {
            let j = config_at(cs, k)->0;
            lemma_config_at_some(cs, k);
            assert(ids_of(cs).contains(k));
        }
    }
}

proof fn lemma_reconcile_done<C>(
    pool: PoolState<C>,
    old_slots: Map<Seq<char>, Slot>,
    old_clients: Map<Seq<char>, C>,
    old_statuses: Map<Seq<char>, ConnectionStatus>,
    s_a: Map<Seq<char>, Slot>,
    c_a: Map<Seq<char>, C>,
    t_a: Map<Seq<char>, ConnectionStatus>,
    st_a: Seq<Seq<char>>,
    stopped: Seq<Seq<char>>,
    started: Seq<(String, u64)>,
    cs: Seq<ObsInstanceConfig>,
    g0: u64,
)
    requires
        placed(pool, s_a, c_a, t_a, st_a, stopped, started, cs, cs.len() as int, g0),
        forall|k: Seq<char>| #[trigger] s_a.contains_key(k) <==> (old_slots.contains_key(k) && ids_of(cs).contains(k)),
        forall|k: Seq<char>| #[trigger] s_a.contains_key(k) ==> s_a[k] == old_slots[k],
        forall|k: Seq<char>| #[trigger] c_a.contains_key(k) <==> (old_clients.contains_key(k) && ids_of(cs).contains(k)),
        forall|k: Seq<char>| #[trigger] c_a.contains_key(k) ==> c_a[k] == old_clients[k],
        forall|k: Seq<char>| #[trigger] t_a.contains_key(k) <==> (old_statuses.contains_key(k) && ids_of(cs).contains(k)),
        forall|k: Seq<char>| #[trigger] t_a.contains_key(k) ==> t_a[k] == old_statuses[k],
        forall|k: Seq<char>| #[trigger] st_a.contains(k) <==> (old_slots.contains_key(k) && !ids_of(cs).contains(k)),
        forall|k: Seq<char>| #[trigger] old_clients.contains_key(k) ==> old_slots.contains_key(k),
    ensures
        pool.wf(),
        g0 <= pool.next_gen(),
        forall|j: int, l: int| 0 <= j < l < started.len() ==> started[j].1 < started[l].1,
        forall|k: Seq<char>| #[trigger] pool.slot_map().contains_key(k) <==> ids_of(cs).contains(k),
        forall|k: Seq<char>| #[trigger] pool.slot_map().contains_key(k) && keeps(old_slots, cs, k) ==> pool.slot_map()[k] == old_slots[k],
        forall|k: Seq<char>| #[trigger] pool.slot_map().contains_key(k) && !keeps(old_slots, cs, k) ==> {
            &&& pool.slot_map()[k].endpoint matches Some(e) && e@ == endpoint_of(cs[config_at(cs, k)->0])
            &&& pool.slot_map()[k].generation >= g0
            &&& exists|j: int| 0 <= j < started.len() && #[trigger] started[j].0@ == k
        },
        forall|k: Seq<char>| #[trigger] pool.client_map().contains_key(k) <==> (old_clients.contains_key(k) && keeps(old_slots, cs, k)),
        forall|k: Seq<char>| #[trigger] pool.client_map().contains_key(k) ==> pool.client_map()[k] == old_clients[k],
        forall|k: Seq<char>| #[trigger] pool.status_map().contains_key(k) <==> (old_statuses.contains_key(k) && ids_of(cs).contains(k)),
        forall|k: Seq<char>| #[trigger] pool.status_map().contains_key(k) ==> pool.status_map()[k] == old_statuses[k],
        forall|k: Seq<char>| #[trigger] stopped.contains(k) <==> (old_slots.contains_key(k) && !keeps(old_slots, cs, k)),
        forall|j: int| 0 <= j < started.len() ==> {
            let k = #[trigger] started[j].0@;
            &&& pool.slot_map().contains_key(k)
            &&& pool.slot_map()[k].generation == started[j].1
            &&& !keeps(old_slots, cs, k)
        },
{
    reveal(placed);
    lemma_keeps_after_drop(old_slots, s_a, cs);
    assert forall|k: Seq<char>| #[trigger] among_first(cs, cs.len() as int, k) <==> ids_of(cs).contains(k) by {
        if ids_of(cs).contains(k) {
            let j = choose|j: int| 0 <= j < cs.len() && cs[j].id@ == k;
            assert(cs[j].id@ == k);
        }
    }
    assert forall|k: Seq<char>| #[trigger] pool.client_map().contains_key(k) <==> (old_clients.contains_key(k) && keeps(old_slots, cs, k)) by {
        if old_clients.contains_key(k) && keeps(old_slots, cs, k) {
            lemma_config_at_some(cs, k);
            assert(ids_of(cs).contains(k));
            assert(c_a.contains_key(k));
        }
    }
    assert forall|k: Seq<char>| #[trigger] stopped.contains(k) <==> (old_slots.contains_key(k) && !keeps(old_slots, cs, k)) by {
        if old_slots.contains_key(k) && !ids_of(cs).contains(k) {
            assert(st_a.contains(k));
        }
        if old_slots.contains_key(k) && ids_of(cs).contains(k) && !keeps(old_slots, cs, k) {
            assert(s_a.contains_key(k));
            assert(among_first(cs, cs.len() as int, k));
        }
    }
}

impl<C> PoolState<C> {
    /// Give configuration `i` a supervisor unless one already connects to its endpoint.
    #[verifier::rlimit(60)]
    fn place_config(
        &mut self,
        i: usize,
        stopped: &mut Vec<String>,
        started: &mut Vec<(String, u64)>,
        Ghost(s_a): Ghost<Map<Seq<char>, Slot>>,
        Ghost(c_a): Ghost<Map<Seq<char>, C>>,
        Ghost(t_a): Ghost<Map<Seq<char>, ConnectionStatus>>,
        Ghost(st_a): Ghost<Seq<Seq<char>>>,
        Ghost(g0): Ghost<u64>,
    )
        requires
            i < old(self).configs_seq().len(),
            old(self).next_gen() < u64::MAX,
            placed(*old(self), s_a, c_a, t_a, st_a, old(stopped).deep_view(), old(started)@, old(self).configs_seq(), i as int, g0),
        ensures
            final(self).configs_seq() == old(self).configs_seq(),
            final(self).groups_seq() == old(self).groups_seq(),
            final(self).options_of() == old(self).options_of(),
            final(self).next_gen() <= old(self).next_gen() + 1,
            placed(*final(self), s_a, c_a, t_a, st_a, final(stopped).deep_view(), final(started)@, old(self).configs_seq(), i + 1, g0),
    {
        reveal(placed);
        let ghost cs = self.configs_seq();
        let id = self.configs[i].id.clone();
        let ghost k = id@;
        proof {
            lemma_config_at_some(cs, k);
        }
        let idx = match self.config_index(id.as_str()) {
            Some(idx) => idx,
            None => i,
        };
        let endpoint = self.configs[idx].endpoint_key();
        let restart = match self.slots.get(id.as_str()) {
            Some(slot) => match &slot.endpoint {
                Some(e) => !e.same_as(&endpoint),
                None => true,
            },
            None => true,
        };
        proof {
            assert forall|k2: Seq<char>| #[trigger] among_first(cs, i + 1, k2) <==> (among_first(cs, i as int, k2) || k2 == k) by {
                if among_first(cs, i + 1, k2) && k2 != k {
                    let j = choose|j: int| 0 <= j < i + 1 && #[trigger] cs[j].id@ == k2;
                    assert(j < i);
                }
                if k2 == k {
                    assert(cs[i as int].id@ == k2);
                }
                if among_first(cs, i as int, k2) {
                    let j = choose|j: int| 0 <= j < i && #[trigger] cs[j].id@ == k2;
                    assert(cs[j].id@ == k2);
                }
            }
            if among_first(cs, i as int, k) {
                assert(!restart);
            } else {
                assert(restart == !keeps(s_a, cs, k));
            }
        }
        if restart {
            let ghost sb = self.slot_map();
            let ghost cb = self.client_map();
            let ghost stb = stopped.deep_view();
            let ghost stv = started@;
            if self.slots.remove(id.as_str()).is_some() {
                stopped.push(id.clone());
                assert(stopped.deep_view() =~= stb.push(k));
            } else {
                assert(stopped.deep_view() == stb);
            }
            self.clients.remove(id.as_str());
            let generation = self.next_generation;
            self.next_generation = self.next_generation + 1;
            self.slots.insert(id.clone(), Slot { generation, endpoint: Some(endpoint) });
            started.push((id, generation));
            proof {
                assert(self.status_map() == t_a);
                assert(started@ == stv.push((started@[stv.len() as int].0, generation)));
                assert(started@[stv.len() as int].0@ == k);
                assert forall|j: int, l: int| 0 <= j < l < started@.len() implies started@[j].1 < started@[l].1 by {
                    assert(started@[j] == stv[j]);
                    assert(g0 <= stv[j].1 < generation) by {
                        let kj = stv[j].0@;
                    }
                    if l < stv.len() {
                        assert(started@[l] == stv[l]);
                    }
                }
                assert forall|k2: Seq<char>| #[trigger] stopped.deep_view().contains(k2) <==> (st_a.contains(k2) || (among_first(cs, i + 1, k2) && s_a.contains_key(k2) && !keeps(s_a, cs, k2))) by {
                    if stopped.deep_view().contains(k2) && k2 != k {
                        let j = choose|j: int| 0 <= j < stopped.deep_view().len() && stopped.deep_view()[j] == k2;
                        assert(j < stb.len());
                        assert(stb[j] == k2);
                        assert(stb.contains(k2));
                    }
                    if k2 == k && s_a.contains_key(k) {
                        assert(sb.contains_key(k));
                        assert(stopped.deep_view()[stb.len() as int] == k);
                    }
                    if k2 == k && !s_a.contains_key(k) {
                        assert(!sb.contains_key(k));
                        if st_a.contains(k2) {
                            assert(stb.contains(k2));
                        }
                        if stb.contains(k2) {
                            assert(st_a.contains(k2) || (among_first(cs, i as int, k2) && s_a.contains_key(k2) && !keeps(s_a, cs, k2)));
                        }
                    }
                    if k2 != k && (st_a.contains(k2) || (among_first(cs, i as int, k2) && s_a.contains_key(k2) && !keeps(s_a, cs, k2))) {
                        assert(stb.contains(k2));
                        let j = choose|j: int| 0 <= j < stb.len() && stb[j] == k2;
                        assert(stopped.deep_view()[j] == k2);
                    }
                }
                assert forall|k2: Seq<char>| #[trigger] self.client_map().contains_key(k2) implies self.slot_map().contains_key(k2) by {
                    assert(cb.contains_key(k2));
                }
                assert forall|k2: Seq<char>| #[trigger] self.status_map().contains_key(k2) implies self.slot_map().contains_key(k2) by {
                    assert(sb.contains_key(k2) || k2 == k);
                }
                assert forall|k2: Seq<char>| #[trigger] self.slot_map().contains_key(k2) implies self.slot_map()[k2].generation < self.next_gen() by {
                    if k2 != k {
                        assert(sb.contains_key(k2));
                    }
                }
                assert forall|k2: Seq<char>| #[trigger] among_first(cs, i + 1, k2) && !keeps(s_a, cs, k2) implies
                    exists|j: int| 0 <= j < started@.len() && #[trigger] started@[j].0@ == k2 by {
                    if k2 == k {
                        assert(started@[stv.len() as int].0@ == k2);
                    } else {
                        let j = choose|j: int| 0 <= j < stv.len() && #[trigger] stv[j].0@ == k2;
                        assert(started@[j] == stv[j]);
                    }
                }
                assert forall|j: int| 0 <= j < started@.len() implies {
                    let k2 = #[trigger] started@[j].0@;
                    &&& among_first(cs, i + 1, k2)
                    &&& !keeps(s_a, cs, k2)
                    &&& self.slot_map().contains_key(k2)
                    &&& self.slot_map()[k2].generation == started@[j].1
                    &&& g0 <= started@[j].1 < self.next_gen()
                } by {
                    if j < stv.len() {
                        assert(started@[j] == stv[j]);
                        let k2 = stv[j].0@;
                        assert(among_first(cs, i as int, k2));
                        if k2 == k {
                            assert(false);
                        }
                    }
                }
            }
        } else {
            proof {
                assert forall|j: int| 0 <= j < started@.len() implies {
                    let k2 = #[trigger] started@[j].0@;
                    &&& among_first(cs, i + 1, k2)
                } by {
                    assert(among_first(cs, i as int, started@[j].0@));
                }
                if !keeps(s_a, cs, k) {
                    assert(among_first(cs, i as int, k));
                }
                if keeps(s_a, cs, k) && !among_first(cs, i as int, k) {
                    assert(self.slot_map().contains_key(k));
                }
            }
        }
    }
}

impl Clone for ObsInstanceConfig {
    fn clone(&self) -> (c: Self)
        ensures
            c == *self,
    {
        ObsInstanceConfig {
            id: self.id.clone(),
            name: self.name.clone(),
            host: self.host.clone(),
            port: self.port,
            password: self.password.clone(),
            color: self.color.clone(),
            enabled: self.enabled,
        }
    }
}

/// A copy of a list of configurations.
pub fn copy_configs(configs: &Vec<ObsInstanceConfig>) -> (copy: Vec<ObsInstanceConfig>)
    ensures
        copy@ == configs@,
{
    let mut copy: Vec<ObsInstanceConfig> = Vec::new();
    let mut i: usize = 0;
    while i < configs.len()
        invariant
            i <= configs.len(),
            copy@ == configs@.take(i as int),
        decreases configs.len() - i,
    {
        copy.push(configs[i].clone());
        assert(configs@.take(i + 1) =~= configs@.take(i as int).push(configs@[i as int]));
        i = i + 1;
    }
    assert(configs@.take(configs.len() as int) =~= configs@);
    copy
}

/// A copy of a list of groups.
pub fn copy_groups(groups: &Vec<TargetGroup>) -> (copy: Vec<TargetGroup>)
    ensures
        copy@.len() == groups@.len(),
        forall|i: int| 0 <= i < groups@.len() ==> #[trigger] copy@[i]@ == groups@[i]@,
{
    let mut copy: Vec<TargetGroup> = Vec::new();
    let mut i: usize = 0;
    while i < groups.len()
        invariant
            i <= groups.len(),
            copy@.len() == i,
            forall|j: int| 0 <= j < i ==> #[trigger] copy@[j]@ == groups@[j]@,
        decreases groups.len() - i,
    {
        let members = crate::config::copy_texts(&groups[i].members);
        assert(members.deep_view() =~= groups[i as int].members.deep_view());
        copy.push(TargetGroup { id: groups[i].id.clone(), name: groups[i].name.clone(), members });
        i = i + 1;
    }
    copy
}

/// The snapshot that a status change of `id` broadcasts: the instance as
/// configured, with its statuses after the change.
pub open spec fn broadcast_of<C>(after: PoolState<C>, id: Seq<char>) -> Option<InstanceStatus> {
    match config_at(after.configs_seq(), id) {
        Some(k) => Some(snapshot(after.configs_seq()[k], after.status_map())),
        None => None,
    }
}

impl<C> PoolState<C> {
    /// A supervisor that still owns its instance has connected: it keeps the
    /// client and reports `Connected` with the versions OBS gave ("unknown"
    /// where it gave none). A stale supervisor changes nothing.
    pub fn on_connected(&mut self, id: &String, generation: u64, client: C, version: Option<(String, String)>) -> (snap: Option<InstanceStatus>)
        requires
            old(self).wf(),
        ensures
            final(self).wf(),
            final(self).configs_seq() == old(self).configs_seq(),
            final(self).groups_seq() == old(self).groups_seq(),
            final(self).slot_map() == old(self).slot_map(),
            final(self).next_gen() == old(self).next_gen(),
            final(self).options_of() == old(self).options_of(),
            if old(self).slot_map().contains_key(id@) && old(self).slot_map()[id@].generation == generation {
                &&& final(self).client_map() == old(self).client_map().insert(id@, client)
                &&& final(self).status_map() == old(self).status_map().insert(id@, final(self).status_map()[id@])
                &&& final(self).status_map()[id@] matches ConnectionStatus::Connected { obs_version, websocket_version }
                    && (obs_version@, websocket_version@) == spec_connected_status(match version {
                        Some((o, w)) => Some((o@, w@)),
                        None => None,
                    })
                &&& snap == broadcast_of(*final(self), id@)
            } else {
                &&& final(self).client_map() == old(self).client_map()
                &&& final(self).status_map() == old(self).status_map()
                &&& snap is None
            },
    {
        self.store_client(id, generation, client);
        let status = connected_status(version);
        self.publish_status(id, generation, status)
    }

    /// A connection of a supervisor that still owns its instance ended: the
    /// client goes and the instance reports `Unreachable` ("disconnected").
    pub fn on_disconnected(&mut self, id: &String, generation: u64) -> (snap: Option<InstanceStatus>)
        requires
            old(self).wf(),
        ensures
            final(self).wf(),
            final(self).configs_seq() == old(self).configs_seq(),
            final(self).groups_seq() == old(self).groups_seq(),
            final(self).slot_map() == old(self).slot_map(),
            final(self).next_gen() == old(self).next_gen(),
            final(self).options_of() == old(self).options_of(),
            if old(self).slot_map().contains_key(id@) && old(self).slot_map()[id@].generation == generation {
                &&& final(self).client_map() == old(self).client_map().remove(id@)
                &&& final(self).status_map() == old(self).status_map().insert(id@, final(self).status_map()[id@])
                &&& final(self).status_map()[id@] matches ConnectionStatus::Unreachable { message } && message@ == "disconnected"@
                &&& snap == broadcast_of(*final(self), id@)
            } else {
                &&& final(self).client_map() == old(self).client_map()
                &&& final(self).status_map() == old(self).status_map()
                &&& snap is None
            },
    {
        self.clear_client(id.as_str(), generation);
        self.publish_status(id, generation, ConnectionStatus::Unreachable { message: String::from_str("disconnected") })
    }

    /// A connection attempt of a supervisor that still owns its instance
    /// failed: the instance reports why (`AuthFailed` for a refused password,
    /// `Unreachable` otherwise).
    pub fn on_connect_failed(&mut self, id: &String, generation: u64, failure: &ObsFailure) -> (snap: Option<InstanceStatus>)
        requires
            old(self).wf(),
        ensures
            final(self).wf(),
            final(self).configs_seq() == old(self).configs_seq(),
            final(self).groups_seq() == old(self).groups_seq(),
            final(self).slot_map() == old(self).slot_map(),
            final(self).client_map() == old(self).client_map(),
            final(self).next_gen() == old(self).next_gen(),
            final(self).options_of() == old(self).options_of(),
            if old(self).slot_map().contains_key(id@) && old(self).slot_map()[id@].generation == generation {
                &&& final(self).status_map() == old(self).status_map().insert(id@, spec_classify_error(*failure))
                &&& snap == broadcast_of(*final(self), id@)
            } else {
                &&& final(self).status_map() == old(self).status_map()
                &&& snap is None
            },
    {
        self.publish_status(id, generation, classify_error(failure))
    }
}

/// A supervisor whose connection dropped tries again: reporting a status and
/// dropping a client change nothing that decides the next attempt, which
/// depends only on the supervisors, the configuration and the options.
pub proof fn reconnects_after_drop<C>(before: PoolState<C>, after: PoolState<C>, id: Seq<char>, generation: u64, cancelled: bool)
    requires
        after.slot_map() == before.slot_map(),
        after.configs_seq() == before.configs_seq(),
        after.options_of() == before.options_of(),
    ensures
        spec_attempt(after, id, generation, cancelled) == spec_attempt(before, id, generation, cancelled),
{
}

impl<C> PoolState<C> {
    /// What the supervisor of `generation` does at the top of its loop, and the
    /// status it reports for it: stop (dropping its client) once cancelled or
    /// replaced, stop when the instance is gone, report `Disabled` and wait
    /// while it is disabled, or report `Connecting` and connect to its
    /// endpoint. Returns the snapshot to broadcast, where a status was reported.
    pub fn begin_attempt(&mut self, id: &String, generation: u64, cancelled: bool) -> (result: (Attempt, Option<InstanceStatus>))
        requires
            old(self).wf(),
        ensures
            final(self).wf(),
            final(self).configs_seq() == old(self).configs_seq(),
            final(self).groups_seq() == old(self).groups_seq(),
            final(self).slot_map() == old(self).slot_map(),
            final(self).next_gen() == old(self).next_gen(),
            final(self).options_of() == old(self).options_of(),
            result.0@ == spec_attempt(*old(self), id@, generation, cancelled),
            ({
                let current = old(self).slot_map().contains_key(id@) && old(self).slot_map()[id@].generation == generation;
                if cancelled || !current {
                    &&& current ==> final(self).client_map() == old(self).client_map().remove(id@)
                    &&& !current ==> final(self).client_map() == old(self).client_map()
                } else {
                    final(self).client_map() == old(self).client_map()
                }
            }),
            match attempt_status(result.0@) {
                Some(status) => {
                    &&& final(self).status_map() == old(self).status_map().insert(id@, status)
                    &&& result.1 == broadcast_of(*final(self), id@)
                },
                None => {
                    &&& final(self).status_map() == old(self).status_map()
                    &&& result.1 is None
                },
            },
    {
        if cancelled || !self.generation_current(id.as_str(), generation) {
            self.clear_client(id.as_str(), generation);
            return (Attempt::Stop, None);
        }
        let attempt = match self.config(id.as_str()) {
            None => Attempt::Gone,
            Some(c) => if !c.enabled {
                Attempt::Disabled
            } else {
                let password = match c.password_opt() {
                    Some(p) => Some(p.to_owned()),
                    None => None,
                };
                Attempt::Connect(
                    ConnectTarget {
                        host: trim(c.host.as_str()).to_owned(),
                        port: c.port,
                        password,
                        timeout_ms: self.options.connect_timeout_ms,
                    },
                )
            },
        };
        let snapshot = match attempt {
            Attempt::Disabled => self.publish_status(id, generation, ConnectionStatus::Disabled),
            Attempt::Connect(_) => self.publish_status(id, generation, ConnectionStatus::Connecting),
            _ => None,
        };
        (attempt, snapshot)
    }

    /// Whether the instance is still configured with the endpoint a live
    /// connection uses; otherwise the connection is dropped.
    pub fn endpoint_unchanged(&self, id: &str, endpoint: &Endpoint) -> (same: bool)
        ensures
            same == match config_at(self.configs_seq(), id@) {
                Some(k) => endpoint_of(self.configs_seq()[k]) == endpoint@,
                None => false,
            },
    {
        match self.config(id) {
            Some(c) => c.endpoint_key().same_as(endpoint),
            None => false,
        }
    }
}

} // verus!
