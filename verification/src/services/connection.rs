//! The session registry and the life cycle of a connection.
//!
//! The registry holds what is known of each live session as plain values;
//! the transport, its shell channel and its file-transfer channel appear as
//! handles that the caller gave them. Network work is the caller's: the
//! functions here decide what is to be done and record what was done.

use vstd::prelude::*;
use crate::models::connection::{ConfigModel, ConnectionConfig, ConnectionStatus, StatusModel};
use crate::services::error::{ConnectStep, ConnectionError, ErrorModel};
use crate::services::auth::AuthError;
use crate::text::same_text;

verus! {

/// The handles of an established connection.
#[derive(Debug, Clone, Copy, PartialEq, Eq, Structural)]
pub struct Link {
    /// The authenticated transport.
    pub session: u64,
    /// The file-transfer channel.
    pub sftp: Option<u64>,
    /// The shell channel, opened once and used for every command.
    pub shell_channel: Option<u64>,
}

/// A live session.
#[derive(Debug)]
pub struct SshConnection {
    pub id: String,
    pub config: ConnectionConfig,
    /// Handle of the authenticated transport.
    pub session: u64,
    pub status: ConnectionStatus,
    /// Handle of the file-transfer channel, where one is held.
    pub sftp: Option<u64>,
    /// Handle of the shell channel, where one is held.
    pub shell_channel: Option<u64>,
    /// Whether a command is under way on the shell channel.
    pub in_use: bool,
    /// Time of registration, in milliseconds since the Unix epoch.
    pub created_at: i64,
}

/// What an `SshConnection` stands for.
pub struct ConnectionModel {
    pub id: Seq<char>,
    pub config: ConfigModel,
    pub session: u64,
    pub status: StatusModel,
    pub sftp: Option<u64>,
    pub shell_channel: Option<u64>,
    pub in_use: bool,
    pub created_at: i64,
}

impl View for SshConnection {
    type V = ConnectionModel;

    open spec fn view(&self) -> ConnectionModel {
        ConnectionModel {
            id: self.id@,
            config: self.config@,
            session: self.session,
            status: self.status@,
            sftp: self.sftp,
            shell_channel: self.shell_channel,
            in_use: self.in_use,
            created_at: self.created_at,
        }
    }
}

/// The models of a list of sessions.
pub open spec fn models(list: Seq<SshConnection>) -> Seq<ConnectionModel> {
    Seq::new(list.len(), |i: int| list[i]@)
}

/// The models of a list of optional sessions.
pub open spec fn optional_model(entry: Option<SshConnection>) -> Option<ConnectionModel> {
    match entry {
        Some(connection) => Some(connection@),
        None => None,
    }
}

/// Whether a session is registered under `id`.
pub open spec fn has_id(entries: Seq<ConnectionModel>, id: Seq<char>) -> bool {
    exists|i: int| 0 <= i < entries.len() && (#[trigger] entries[i]).id == id
}

/// No two sessions share an identifier.
pub open spec fn distinct_ids(entries: Seq<ConnectionModel>) -> bool {
    forall|i: int, j: int|
        0 <= i < entries.len() && 0 <= j < entries.len() && i != j ==> (#[trigger] entries[i]).id
            != (#[trigger] entries[j]).id
}

/// The position of the session registered under `id`.
pub open spec fn position(entries: Seq<ConnectionModel>, id: Seq<char>) -> int {
    choose|i: int| 0 <= i < entries.len() && (#[trigger] entries[i]).id == id
}

/// The session registered under `id`, if there is one.
pub open spec fn lookup(entries: Seq<ConnectionModel>, id: Seq<char>) -> Option<ConnectionModel> {
    if has_id(entries, id) {
        Some(entries[position(entries, id)])
    } else {
        None
    }
}

/// The number of sessions among `entries` that are connected.
pub open spec fn connected_count(entries: Seq<ConnectionModel>) -> nat
    decreases entries.len(),
{
    if entries.len() == 0 {
        0
    } else {
        connected_count(entries.drop_last()) + if entries.last().status is Connected {
            1nat
        } else {
            0nat
        }
    }
}

/// The configurations of the sessions among `entries` that are connected,
/// in their order.
pub open spec fn connected_configs(entries: Seq<ConnectionModel>) -> Seq<ConfigModel>
    decreases entries.len(),
{
    if entries.len() == 0 {
        seq![]
    } else if entries.last().status is Connected {
        connected_configs(entries.drop_last()).push(entries.last().config)
    } else {
        connected_configs(entries.drop_last())
    }
}

/// The models of a list of configurations.
pub open spec fn config_models(list: Seq<ConnectionConfig>) -> Seq<ConfigModel> {
    Seq::new(list.len(), |i: int| list[i]@)
}

/// In a registry without duplicates, the session at a position is the one
/// that `lookup` finds under its identifier.
pub proof fn lemma_position_unique(entries: Seq<ConnectionModel>, i: int)
    requires
        distinct_ids(entries),
        0 <= i < entries.len(),
    ensures
        has_id(entries, entries[i].id),
        position(entries, entries[i].id) == i,
        lookup(entries, entries[i].id) == Some(entries[i]),
{
    let id = entries[i].id;
    assert(has_id(entries, id));
    let p = position(entries, id);
    assert(0 <= p < entries.len() && entries[p].id == id);
}

impl Clone for SshConnection {
    fn clone(&self) -> (copy: Self)
        ensures
            copy@ == self@,
    {
        SshConnection {
            id: self.id.clone(),
            config: self.config.clone(),
            session: self.session,
            status: self.status.clone(),
            sftp: self.sftp,
            shell_channel: self.shell_channel,
            in_use: self.in_use,
            created_at: self.created_at,
        }
    }
}

/// What happened on the way to a connection.
#[derive(Debug)]
pub enum ConnectEvent {
    /// A caller asks for the connection.
    Requested,
    /// Every step succeeded, at time `now` in milliseconds since the Unix
    /// epoch; these are the handles.
    Established { link: Link, now: i64 },
    /// A step failed; what was opened up to it has been discarded.
    Failed { step: ConnectStep, detail: String },
    /// The credentials were not accepted; what was opened has been
    /// discarded.
    Refused { error: AuthError, detail: String },
}

/// What the caller is to do after an event on the way to a connection.
#[derive(Debug)]
pub enum ConnectAction {
    /// Go through the steps of establishing the connection. A stale
    /// session that stood under the identifier has left the registry and
    /// is handed over: close its channel and disconnect its transport
    /// first, whatever errors that gives.
    Establish { stale: Option<SshConnection> },
    /// The session is registered under `id`. A session that was registered
    /// under the identifier in the meantime has left the registry and is
    /// handed over to be closed.
    Registered { id: String, replaced: Option<SshConnection> },
    /// The connection is refused; the registry is as it was.
    Rejected(ConnectionError),
}

/// What a `ConnectAction` stands for.
pub enum ActionModel {
    Establish { stale: Option<ConnectionModel> },
    Registered { id: Seq<char>, replaced: Option<ConnectionModel> },
    Rejected(ErrorModel),
}

impl View for ConnectAction {
    type V = ActionModel;

    open spec fn view(&self) -> ActionModel {
        match self {
            ConnectAction::Establish { stale } => ActionModel::Establish {
                stale: optional_model(*stale),
            },
            ConnectAction::Registered { id, replaced } => ActionModel::Registered {
                id: id@,
                replaced: optional_model(*replaced),
            },
            ConnectAction::Rejected(error) => ActionModel::Rejected(error@),
        }
    }
}

/// The session that is registered for `config` once `link` is established
/// at time `now`.
pub open spec fn fresh_session(config: ConfigModel, link: Link, now: i64) -> ConnectionModel {
    ConnectionModel {
        id: config.id,
        config,
        session: link.session,
        status: StatusModel::Connected,
        sftp: link.sftp,
        shell_channel: link.shell_channel,
        in_use: false,
        created_at: now,
    }
}

/// `entries` without the session under `id`, if there is one.
pub open spec fn without_id(entries: Seq<ConnectionModel>, id: Seq<char>) -> Seq<ConnectionModel> {
    if has_id(entries, id) {
        entries.remove(position(entries, id))
    } else {
        entries
    }
}

/// Registry and action after a request to connect with `config`.
pub open spec fn on_requested(entries: Seq<ConnectionModel>, config: ConfigModel) -> (
    Seq<ConnectionModel>,
    ActionModel,
) {
    if let Some(defect) = config.defect() {
        (entries, ActionModel::Rejected(ErrorModel::ConfigInvalid(defect)))
    } else {
        match lookup(entries, config.id) {
            Some(found) => if found.status is Connected {
                (entries, ActionModel::Rejected(ErrorModel::AlreadyConnected))
            } else {
                (without_id(entries, config.id), ActionModel::Establish { stale: Some(found) })
            },
            None => (entries, ActionModel::Establish { stale: None }),
        }
    }
}

/// Registry and action once the connection for `config` is established.
pub open spec fn on_established(
    entries: Seq<ConnectionModel>,
    config: ConfigModel,
    link: Link,
    now: i64,
) -> (Seq<ConnectionModel>, ActionModel) {
    (
        without_id(entries, config.id).push(fresh_session(config, link, now)),
        ActionModel::Registered { id: config.id, replaced: lookup(entries, config.id) },
    )
}

/// What a `ConnectEvent` stands for.
pub enum EventModel {
    Requested,
    Established { link: Link, now: i64 },
    Failed { step: ConnectStep, detail: Seq<char> },
    Refused { error: AuthError, detail: Seq<char> },
}

impl View for ConnectEvent {
    type V = EventModel;

    open spec fn view(&self) -> EventModel {
        match self {
            ConnectEvent::Requested => EventModel::Requested,
            ConnectEvent::Established { link, now } => EventModel::Established {
                link: *link,
                now: *now,
            },
            ConnectEvent::Failed { step, detail } => EventModel::Failed {
                step: *step,
                detail: detail@,
            },
            ConnectEvent::Refused { error, detail } => EventModel::Refused {
                error: *error,
                detail: detail@,
            },
        }
    }
}

/// Registry and action after `event` on the way to a connection with
/// `config`. A failure registers nothing.
pub open spec fn connect_step(
    entries: Seq<ConnectionModel>,
    config: ConfigModel,
    event: EventModel,
) -> (Seq<ConnectionModel>, ActionModel) {
    match event {
        EventModel::Requested => on_requested(entries, config),
        EventModel::Established { link, now } => on_established(entries, config, link, now),
        EventModel::Failed { step, detail } => (
            entries,
            ActionModel::Rejected(ErrorModel::TransportError(step, detail)),
        ),
        EventModel::Refused { error, detail } => (
            entries,
            ActionModel::Rejected(ErrorModel::AuthFailed(error, detail)),
        ),
    }
}

/// `entry` as it leaves the registry on a disconnect.
pub open spec fn disconnected(entry: ConnectionModel) -> ConnectionModel {
    ConnectionModel { status: StatusModel::Disconnected, ..entry }
}

/// `entry` as it is handed to a terminal: without its channels.
pub open spec fn bare_copy(entry: ConnectionModel) -> ConnectionModel {
    ConnectionModel { sftp: None, shell_channel: None, in_use: false, ..entry }
}

/// Registry and answer when a command asks for the shell channel of `id`:
/// the channel is handed out and marked as in use, unless no command can
/// run there or one is under way.
pub open spec fn begin_step(entries: Seq<ConnectionModel>, id: Seq<char>) -> (
    Seq<ConnectionModel>,
    Result<u64, ErrorModel>,
) {
    match channel_for(entries, id) {
        Err(error) => (entries, Err(error)),
        Ok(channel) => {
            let at = position(entries, id);
            if entries[at].in_use {
                (entries, Err(ErrorModel::ChannelBusy))
            } else {
                (entries.update(at, ConnectionModel { in_use: true, ..entries[at] }), Ok(channel))
            }
        },
    }
}

/// The registry once the command on the shell channel of `id` is over.
pub open spec fn end_step(entries: Seq<ConnectionModel>, id: Seq<char>) -> Seq<ConnectionModel> {
    if has_id(entries, id) {
        let at = position(entries, id);
        entries.update(at, ConnectionModel { in_use: false, ..entries[at] })
    } else {
        entries
    }
}

/// The shell channel on which a command for `id` runs, or why none can.
pub open spec fn channel_for(entries: Seq<ConnectionModel>, id: Seq<char>) -> Result<
    u64,
    ErrorModel,
> {
    match lookup(entries, id) {
        None => Err(ErrorModel::NotFound),
        Some(found) => if !(found.status is Connected) {
            Err(ErrorModel::NotConnected)
        } else {
            match found.shell_channel {
                Some(channel) => Ok(channel),
                None => Err(ErrorModel::ChannelUnavailable),
            }
        },
    }
}

/// The live sessions, at most one under each identifier.
pub struct SshConnectionManager {
    connections: Vec<SshConnection>,
}

impl View for SshConnectionManager {
    type V = Seq<ConnectionModel>;

    closed spec fn view(&self) -> Seq<ConnectionModel> {
        models(self.connections@)
    }
}

impl SshConnectionManager {
    /// No two sessions of the registry share an identifier.
    pub open spec fn wf(&self) -> bool {
        distinct_ids(self@)
    }

    /// A registry without sessions.
    pub fn new() -> (manager: Self)
        ensures
            manager@.len() == 0,
            manager.wf(),
    {
        let manager = SshConnectionManager { connections: Vec::new() };
        proof {
            assert(manager@ =~= Seq::<ConnectionModel>::empty());
        }
        manager
    }

    /// Where the session under `connection_id` stands in the registry.
    fn find(&self, connection_id: &str) -> (found: Option<usize>)
        requires
            self.wf(),
        ensures
            match found {
                Some(i) => i < self@.len() && self@[i as int].id == connection_id@ && has_id(
                    self@,
                    connection_id@,
                ) && position(self@, connection_id@) == i,
                None => !has_id(self@, connection_id@),
            },
            self@.len() == self.connections.len(),
    {
        let mut i: usize = 0;
        while i < self.connections.len()
            invariant
                self.wf(),
                i <= self.connections.len(),
                self@.len() == self.connections.len(),
                forall|j: int| 0 <= j < i ==> (#[trigger] self@[j]).id != connection_id@,
            decreases self.connections.len() - i,
        {
            if same_text(self.connections[i].id.as_str(), connection_id) {
                proof {
                    lemma_position_unique(self@, i as int);
                }
                return Some(i);
            }
            i += 1;
        }
        None
    }

    /// Takes the session at position `i` out of the registry.
    fn take(&mut self, i: usize) -> (taken: SshConnection)
        requires
            old(self).wf(),
            i < old(self)@.len(),
        ensures
            final(self).wf(),
            taken@ == old(self)@[i as int],
            final(self)@ == old(self)@.remove(i as int),
    {
        let taken: SshConnection = self.connections.remove(i);
        proof {
            assert(self@ =~= old(self)@.remove(i as int));
            assert forall|a: int, b: int|
                0 <= a < self@.len() && 0 <= b < self@.len() && a != b implies (#[trigger] self@[a]).id
                != (#[trigger] self@[b]).id by {
                let a0 = if a < i { a } else { a + 1 };
                let b0 = if b < i { b } else { b + 1 };
                assert(self@[a] == old(self)@[a0]);
                assert(self@[b] == old(self)@[b0]);
            }
        }
        taken
    }

    /// Adds `connection`, under whose identifier no session stands.
    fn put(&mut self, connection: SshConnection)
        requires
            old(self).wf(),
            !has_id(old(self)@, connection@.id),
        ensures
            final(self).wf(),
            final(self)@ == old(self)@.push(connection@),
    {
        self.connections.push(connection);
        proof {
            assert(self@ =~= old(self)@.push(connection@));
            assert forall|a: int, b: int|
                0 <= a < self@.len() && 0 <= b < self@.len() && a != b implies (#[trigger] self@[a]).id
                != (#[trigger] self@[b]).id by {
                if a < old(self)@.len() {
                    assert(self@[a] == old(self)@[a]);
                }
                if b < old(self)@.len() {
                    assert(self@[b] == old(self)@[b]);
                }
            }
        }
    }

    /// One step on the way to a connection with `config`.
    ///
    /// On a request: an unusable configuration is rejected before anything
    /// else is looked at; a session under the same identifier that is
    /// connected makes the request fail and stays as it is; one that is not
    /// connected leaves the registry and is handed over to be closed.
    /// Once established, the session is registered as connected. After a
    /// failure nothing is registered.
    pub fn connect(&mut self, config: &ConnectionConfig, event: ConnectEvent) -> (action:
        ConnectAction)
        requires
            old(self).wf(),
        ensures
            final(self).wf(),
            (final(self)@, action@) == connect_step(old(self)@, config@, event@),
    {
        match event {
            ConnectEvent::Requested => {
                if let Err(defect) = config.check() {
                    return ConnectAction::Rejected(ConnectionError::ConfigInvalid(defect));
                }
                match self.find(config.id.as_str()) {
                    Some(i) => {
                        if self.connections[i].status.is_connected() {
                            ConnectAction::Rejected(ConnectionError::AlreadyConnected)
                        } else {
                            let stale: SshConnection = self.take(i);
                            ConnectAction::Establish { stale: Some(stale) }
                        }
                    },
                    None => ConnectAction::Establish { stale: None },
                }
            },
            ConnectEvent::Established { link, now } => {
                let replaced: Option<SshConnection> = match self.find(config.id.as_str()) {
                    Some(i) => Some(self.take(i)),
                    None => None,
                };
                proof {
                    lemma_without_id(old(self)@, config@.id);
                }
                let id: String = config.id.clone();
                let connection = SshConnection {
                    id: config.id.clone(),
                    config: config.clone(),
                    session: link.session,
                    status: ConnectionStatus::Connected,
                    sftp: link.sftp,
                    shell_channel: link.shell_channel,
                    in_use: false,
                    created_at: now,
                };
                self.put(connection);
                ConnectAction::Registered { id, replaced }
            },
            ConnectEvent::Failed { step, detail } => ConnectAction::Rejected(
                ConnectionError::TransportError(step, detail),
            ),
            ConnectEvent::Refused { error, detail } => ConnectAction::Rejected(
                ConnectionError::AuthFailed(error, detail),
            ),
        }
    }

    /// Whether the session under `connection_id` is usable: it exists, and
    /// its transport, asked just now, reported itself as `authenticated`.
    pub fn check_connection_health(&self, connection_id: &str, authenticated: bool) -> (healthy:
        bool)
        requires
            self.wf(),
        ensures
            healthy == (has_id(self@, connection_id@) && authenticated),
    {
        match self.find(connection_id) {
            Some(_) => authenticated,
            None => false,
        }
    }

    /// Takes the session under `connection_id` out of the registry and
    /// hands it over, marked as disconnected, for its channel and its
    /// transport to be closed.
    pub fn disconnect(&mut self, connection_id: &str) -> (result: Result<
        SshConnection,
        ConnectionError,
    >)
        requires
            old(self).wf(),
        ensures
            final(self).wf(),
            final(self)@ == without_id(old(self)@, connection_id@),
            match result {
                Ok(removed) => lookup(old(self)@, connection_id@) is Some && removed@
                    == disconnected(lookup(old(self)@, connection_id@)->0),
                Err(error) => lookup(old(self)@, connection_id@) is None && error@
                    == ErrorModel::NotFound,
            },
    {
        match self.find(connection_id) {
            Some(i) => {
                let mut removed: SshConnection = self.take(i);
                removed.status = ConnectionStatus::Disconnected;
                Ok(removed)
            },
            None => Err(ConnectionError::NotFound),
        }
    }

    /// Takes every session out of the registry and hands them over, each
    /// marked as disconnected, in the order in which they stood.
    pub fn disconnect_all(&mut self) -> (removed: Vec<SshConnection>)
        requires
            old(self).wf(),
        ensures
            final(self).wf(),
            final(self)@.len() == 0,
            models(removed@) == old(self)@.map_values(|m: ConnectionModel| disconnected(m)),
    {
        let mut removed: Vec<SshConnection> = Vec::new();
        let ghost all = self@;
        while self.connections.len() > 0
            invariant
                self.wf(),
                self@.len() == self.connections.len(),
                removed.len() + self@.len() == all.len(),
                forall|j: int|
                    0 <= j < removed.len() ==> (#[trigger] removed@[j])@ == disconnected(all[j]),
                forall|j: int| 0 <= j < self@.len() ==> self@[j] == all[removed.len() + j],
            decreases self.connections.len(),
        {
            let mut next: SshConnection = self.take(0);
            next.status = ConnectionStatus::Disconnected;
            removed.push(next);
        }
        proof {
            assert(models(removed@) =~= all.map_values(|m: ConnectionModel| disconnected(m)));
        }
        removed
    }

    /// The status of the session under `connection_id`.
    pub fn get_connection_status(&self, connection_id: &str) -> (result: Result<
        ConnectionStatus,
        ConnectionError,
    >)
        requires
            self.wf(),
        ensures
            match result {
                Ok(status) => lookup(self@, connection_id@) is Some && status@ == lookup(
                    self@,
                    connection_id@,
                )->0.status,
                Err(error) => lookup(self@, connection_id@) is None && error@
                    == ErrorModel::NotFound,
            },
    {
        match self.find(connection_id) {
            Some(i) => Ok(self.connections[i].status.clone()),
            None => Err(ConnectionError::NotFound),
        }
    }

    /// The configurations of all sessions, in the order of the registry.
    pub fn get_connections(&self) -> (configs: Vec<ConnectionConfig>)
        ensures
            config_models(configs@) == self@.map_values(|m: ConnectionModel| m.config),
    {
        let mut configs: Vec<ConnectionConfig> = Vec::new();
        let mut i: usize = 0;
        while i < self.connections.len()
            invariant
                i <= self.connections.len(),
                self@.len() == self.connections.len(),
                configs.len() == i,
                forall|j: int| 0 <= j < i ==> (#[trigger] configs@[j])@ == self@[j].config,
            decreases self.connections.len() - i,
        {
            configs.push(self.connections[i].config.clone());
            i += 1;
        }
        proof {
            assert(config_models(configs@) =~= self@.map_values(|m: ConnectionModel| m.config));
        }
        configs
    }

    /// The number of sessions that are connected.
    pub fn get_connected_count(&self) -> (count: usize)
        ensures
            count == connected_count(self@),
    {
        let mut count: usize = 0;
        let mut i: usize = 0;
        proof {
            assert(self@.take(0) =~= Seq::<ConnectionModel>::empty());
        }
        while i < self.connections.len()
            invariant
                i <= self.connections.len(),
                self@.len() == self.connections.len(),
                count <= i,
                count == connected_count(self@.take(i as int)),
            decreases self.connections.len() - i,
        {
            proof {
                assert(self@.take(i + 1).drop_last() =~= self@.take(i as int));
            }
            if self.connections[i].status.is_connected() {
                count += 1;
            }
            i += 1;
        }
        proof {
            assert(self@.take(i as int) =~= self@);
        }
        count
    }

    /// The configurations of the sessions that are connected, in the order
    /// of the registry.
    pub fn get_connected_connections(&self) -> (configs: Vec<ConnectionConfig>)
        ensures
            config_models(configs@) == connected_configs(self@),
    {
        let mut configs: Vec<ConnectionConfig> = Vec::new();
        let mut i: usize = 0;
        proof {
            assert(self@.take(0) =~= Seq::<ConnectionModel>::empty());
            assert(config_models(configs@) =~= Seq::<ConfigModel>::empty());
        }
        while i < self.connections.len()
            invariant
                i <= self.connections.len(),
                self@.len() == self.connections.len(),
                config_models(configs@) == connected_configs(self@.take(i as int)),
            decreases self.connections.len() - i,
        {
            proof {
                assert(self@.take(i + 1).drop_last() =~= self@.take(i as int));
            }
            if self.connections[i].status.is_connected() {
                let config: ConnectionConfig = self.connections[i].config.clone();
                proof {
                    assert(config_models(configs@.push(config)) =~= config_models(configs@).push(
                        config@,
                    ));
                }
                configs.push(config);
            }
            i += 1;
        }
        proof {
            assert(self@.take(i as int) =~= self@);
        }
        configs
    }

    /// A copy of the session under `connection_id` for a terminal: the
    /// channels stay with the registry.
    pub fn get_ssh_connection(&self, connection_id: &str) -> (result: Result<
        SshConnection,
        ConnectionError,
    >)
        requires
            self.wf(),
        ensures
            match result {
                Ok(copy) => lookup(self@, connection_id@) is Some && copy@ == bare_copy(
                    lookup(self@, connection_id@)->0,
                ),
                Err(error) => lookup(self@, connection_id@) is None && error@
                    == ErrorModel::NotFound,
            },
    {
        match self.find(connection_id) {
            Some(i) => {
                let mut copy: SshConnection = self.connections[i].clone();
                copy.sftp = None;
                copy.shell_channel = None;
                copy.in_use = false;
                Ok(copy)
            },
            None => Err(ConnectionError::NotFound),
        }
    }

    /// Records `status` for the session under `connection_id`, which
    /// stays where it is; fails, and changes nothing, where there is none.
    pub fn set_connection_status(&mut self, connection_id: &str, status: ConnectionStatus) -> (result:
        Result<(), ConnectionError>)
        requires
            old(self).wf(),
        ensures
            final(self).wf(),
            match result {
                Ok(_) => has_id(old(self)@, connection_id@) && final(self)@ == old(self)@.update(
                    position(old(self)@, connection_id@),
                    ConnectionModel {
                        status: status@,
                        ..old(self)@[position(old(self)@, connection_id@)]
                    },
                ),
                Err(error) => !has_id(old(self)@, connection_id@) && error@
                    == ErrorModel::NotFound && final(self)@ == old(self)@,
            },
    {
        match self.find(connection_id) {
            None => Err(ConnectionError::NotFound),
            Some(i) => {
                let mut session: SshConnection = self.connections.remove(i);
                session.status = status;
                self.connections.insert(i, session);
                proof {
                    let entry = ConnectionModel { status: status@, ..old(self)@[i as int] };
                    assert(self@ =~= old(self)@.update(i as int, entry));
                    assert forall|a: int, b: int|
                        0 <= a < self@.len() && 0 <= b < self@.len() && a != b implies (
                    #[trigger] self@[a]).id != (#[trigger] self@[b]).id by {
                        assert(self@[a].id == old(self)@[a].id);
                        assert(self@[b].id == old(self)@[b].id);
                    }
                }
                Ok(())
            },
        }
    }

    /// Hands out the shell channel of `connection_id` for one command and
    /// marks it as in use. Refused, with the registry as it was, where no
    /// command can run on the connection or one is under way.
    pub fn begin_command(&mut self, connection_id: &str) -> (result: Result<u64, ConnectionError>)
        requires
            old(self).wf(),
        ensures
            final(self).wf(),
            final(self)@ == begin_step(old(self)@, connection_id@).0,
            match result {
                Ok(channel) => begin_step(old(self)@, connection_id@).1 == Ok::<u64, ErrorModel>(
                    channel,
                ),
                Err(error) => begin_step(old(self)@, connection_id@).1 == Err::<u64, ErrorModel>(
                    error@,
                ),
            },
    {
        let channel: u64 = match self.command_channel(connection_id) {
            Ok(channel) => channel,
            Err(error) => {
                return Err(error);
            },
        };
        match self.find(connection_id) {
            None => Err(ConnectionError::NotFound),
            Some(i) => {
                if self.connections[i].in_use {
                    return Err(ConnectionError::ChannelBusy);
                }
                self.mark(i, true);
                Ok(channel)
            },
        }
    }

    /// Marks the shell channel of `connection_id` as free again.
    pub fn end_command(&mut self, connection_id: &str)
        requires
            old(self).wf(),
        ensures
            final(self).wf(),
            final(self)@ == end_step(old(self)@, connection_id@),
    {
        if let Some(i) = self.find(connection_id) {
            self.mark(i, false);
        }
    }

    /// Records whether a command is under way on the session at position
    /// `i`.
    fn mark(&mut self, i: usize, in_use: bool)
        requires
            old(self).wf(),
            i < old(self)@.len(),
        ensures
            final(self).wf(),
            final(self)@ == old(self)@.update(
                i as int,
                ConnectionModel { in_use, ..old(self)@[i as int] },
            ),
    {
        assert(self@.len() == self.connections.len());
        let mut session: SshConnection = self.connections.remove(i);
        session.in_use = in_use;
        self.connections.insert(i, session);
        proof {
            let entry = ConnectionModel { in_use, ..old(self)@[i as int] };
            assert(self@ =~= old(self)@.update(i as int, entry));
            assert forall|a: int, b: int|
                0 <= a < self@.len() && 0 <= b < self@.len() && a != b implies (
            #[trigger] self@[a]).id != (#[trigger] self@[b]).id by {
                assert(self@[a].id == old(self)@[a].id);
                assert(self@[b].id == old(self)@[b].id);
            }
        }
    }

    /// The shell channel on which a command for `connection_id` runs.
    pub fn command_channel(&self, connection_id: &str) -> (result: Result<u64, ConnectionError>)
        requires
            self.wf(),
        ensures
            match result {
                Ok(channel) => channel_for(self@, connection_id@) == Ok::<u64, ErrorModel>(channel),
                Err(error) => channel_for(self@, connection_id@) == Err::<u64, ErrorModel>(error@),
            },
    {
        match self.find(connection_id) {
            None => Err(ConnectionError::NotFound),
            Some(i) => {
                if !self.connections[i].status.is_connected() {
                    Err(ConnectionError::NotConnected)
                } else {
                    match self.connections[i].shell_channel {
                        Some(channel) => Ok(channel),
                        None => Err(ConnectionError::ChannelUnavailable),
                    }
                }
            },
        }
    }
}

/// Taking the session under `id` out of a registry without duplicates
/// leaves one without duplicates in which nothing stands under `id` and
/// every other session stands as before.
pub proof fn lemma_without_id(entries: Seq<ConnectionModel>, id: Seq<char>)
    requires
        distinct_ids(entries),
    ensures
        distinct_ids(without_id(entries, id)),
        !has_id(without_id(entries, id), id),
        forall|other: Seq<char>|
            other != id ==> lookup(without_id(entries, id), other) == lookup(entries, other),
        without_id(entries, id).len() == entries.len() - if has_id(entries, id) {
            1int
        } else {
            0int
        },
{
    let rest = without_id(entries, id);
    if has_id(entries, id) {
        let p = position(entries, id);
        assert forall|a: int, b: int|
            0 <= a < rest.len() && 0 <= b < rest.len() && a != b implies (#[trigger] rest[a]).id
            != (#[trigger] rest[b]).id by {
            let a0 = if a < p { a } else { a + 1 };
            let b0 = if b < p { b } else { b + 1 };
            assert(rest[a] == entries[a0]);
            assert(rest[b] == entries[b0]);
        }
        if has_id(rest, id) {
            let q = position(rest, id);
            let q0 = if q < p { q } else { q + 1 };
            assert(rest[q] == entries[q0]);
            assert(entries[p].id == entries[q0].id);
        }
        assert forall|other: Seq<char>| other != id implies lookup(rest, other) == lookup(
            entries,
            other,
        ) by {
            if has_id(entries, other) {
                let k = position(entries, other);
                let k1 = if k < p { k } else { k - 1 };
                assert(k != p);
                assert(rest[k1] == entries[k]);
                lemma_position_unique(rest, k1);
            } else if has_id(rest, other) {
                let k = position(rest, other);
                let k0 = if k < p { k } else { k + 1 };
                assert(rest[k] == entries[k0]);
            }
        }
    }
}

/// Adding a session under an identifier that is free leaves a registry
/// without duplicates in which the session stands under its identifier and
/// every other session stands as before.
pub proof fn lemma_with_session(entries: Seq<ConnectionModel>, session: ConnectionModel)
    requires
        distinct_ids(entries),
        !has_id(entries, session.id),
    ensures
        distinct_ids(entries.push(session)),
        lookup(entries.push(session), session.id) == Some(session),
        forall|other: Seq<char>|
            other != session.id ==> lookup(entries.push(session), other) == lookup(entries, other),
{
    let more = entries.push(session);
    assert forall|a: int, b: int|
        0 <= a < more.len() && 0 <= b < more.len() && a != b implies (#[trigger] more[a]).id != (
    #[trigger] more[b]).id by {
        if a < entries.len() {
            assert(more[a] == entries[a]);
        }
        if b < entries.len() {
            assert(more[b] == entries[b]);
        }
    }
    assert(more[entries.len() as int] == session);
    lemma_position_unique(more, entries.len() as int);
    assert forall|other: Seq<char>| other != session.id implies lookup(more, other) == lookup(
        entries,
        other,
    ) by {
        if has_id(entries, other) {
            let k = position(entries, other);
            assert(more[k] == entries[k]);
            lemma_position_unique(more, k);
        } else if has_id(more, other) {
            let k = position(more, other);
            if k < entries.len() {
                assert(more[k] == entries[k]);
            }
        }
    }
}

/// In a registry without duplicates at most one session stands under an
/// identifier, so at most one connected session does.
pub proof fn lemma_one_session_per_id(entries: Seq<ConnectionModel>, i: int, j: int)
    requires
        distinct_ids(entries),
        0 <= i < entries.len(),
        0 <= j < entries.len(),
        entries[i].id == entries[j].id,
    ensures
        i == j,
{
}

/// A request to connect under an identifier whose session is connected is
/// refused as already connected, and the registry stays as it is.
pub proof fn lemma_connected_id_is_refused(entries: Seq<ConnectionModel>, config: ConfigModel)
    requires
        distinct_ids(entries),
        config.defect() is None,
        lookup(entries, config.id) is Some,
        lookup(entries, config.id)->0.status is Connected,
    ensures
        connect_step(entries, config, EventModel::Requested) == (
            entries,
            ActionModel::Rejected(ErrorModel::AlreadyConnected),
        ),
{
}

/// A request to connect under an identifier whose session is not connected
/// goes ahead: the stale session leaves the registry and is handed over
/// with its handles, and once the new connection is established exactly
/// one session stands under the identifier, the new one, connected, while
/// every other session stands as before and none shares an identifier.
pub proof fn lemma_stale_session_is_replaced(
    entries: Seq<ConnectionModel>,
    config: ConfigModel,
    link: Link,
    now: i64,
)
    requires
        distinct_ids(entries),
        config.defect() is None,
        lookup(entries, config.id) is Some,
        !(lookup(entries, config.id)->0.status is Connected),
    ensures
        ({
            let (cleared, first) = connect_step(entries, config, EventModel::Requested);
            let (renewed, second) = connect_step(
                cleared,
                config,
                EventModel::Established { link, now },
            );
            &&& first == ActionModel::Establish { stale: lookup(entries, config.id) }
            &&& !has_id(cleared, config.id)
            &&& second == ActionModel::Registered { id: config.id, replaced: None }
            &&& lookup(renewed, config.id) == Some(fresh_session(config, link, now))
            &&& distinct_ids(renewed)
            &&& renewed.len() == entries.len()
            &&& forall|other: Seq<char>|
                other != config.id ==> lookup(renewed, other) == lookup(entries, other)
        }),
{
    let (cleared, first) = connect_step(entries, config, EventModel::Requested);
    lemma_without_id(entries, config.id);
    assert(cleared == without_id(entries, config.id));
    assert(without_id(cleared, config.id) == cleared);
    lemma_with_session(cleared, fresh_session(config, link, now));
}

/// A first connection under a free identifier registers one session more,
/// the new one, connected.
pub proof fn lemma_fresh_id_is_registered(
    entries: Seq<ConnectionModel>,
    config: ConfigModel,
    link: Link,
    now: i64,
)
    requires
        distinct_ids(entries),
        config.defect() is None,
        lookup(entries, config.id) is None,
    ensures
        ({
            let (same, first) = connect_step(entries, config, EventModel::Requested);
            let (grown, second) = connect_step(same, config, EventModel::Established { link, now });
            &&& first == ActionModel::Establish { stale: None }
            &&& same == entries
            &&& second == ActionModel::Registered { id: config.id, replaced: None }
            &&& lookup(grown, config.id) == Some(fresh_session(config, link, now))
            &&& distinct_ids(grown)
            &&& grown.len() == entries.len() + 1
        }),
{
    lemma_with_session(entries, fresh_session(config, link, now));
}

/// After a disconnect nothing stands under the identifier, so asking for
/// its status finds nothing, and every other session stands as before.
pub proof fn lemma_disconnect_forgets(entries: Seq<ConnectionModel>, id: Seq<char>)
    requires
        distinct_ids(entries),
    ensures
        lookup(without_id(entries, id), id) is None,
        channel_for(without_id(entries, id), id) == Err::<u64, ErrorModel>(ErrorModel::NotFound),
        distinct_ids(without_id(entries, id)),
        forall|other: Seq<char>|
            other != id ==> lookup(without_id(entries, id), other) == lookup(entries, other),
{
    lemma_without_id(entries, id);
}

/// Commands on one connection do not overlap: while one holds the shell
/// channel, a second is refused and changes nothing; once the first is
/// over, the channel is handed out again. Other connections are not
/// concerned.
pub proof fn lemma_commands_do_not_overlap(entries: Seq<ConnectionModel>, id: Seq<char>)
    requires
        distinct_ids(entries),
        begin_step(entries, id).1 is Ok,
    ensures
        ({
            let held = begin_step(entries, id).0;
            let freed = end_step(held, id);
            &&& distinct_ids(held)
            &&& begin_step(held, id) == (held, Err::<u64, ErrorModel>(ErrorModel::ChannelBusy))
            &&& begin_step(freed, id).1 == begin_step(entries, id).1
            &&& freed == entries
            &&& forall|other: Seq<char>|
                other != id ==> lookup(held, other) == lookup(entries, other) && begin_step(
                    held,
                    other,
                ).1 == begin_step(entries, other).1
        }),
{
    let at = position(entries, id);
    let held = begin_step(entries, id).0;
    assert(has_id(entries, id));
    lemma_position_unique(entries, at);
    assert(held == entries.update(at, ConnectionModel { in_use: true, ..entries[at] }));
    assert forall|a: int, b: int|
        0 <= a < held.len() && 0 <= b < held.len() && a != b implies (#[trigger] held[a]).id != (
    #[trigger] held[b]).id by {
        assert(held[a].id == entries[a].id);
        assert(held[b].id == entries[b].id);
    }
    assert(held[at].id == id);
    lemma_position_unique(held, at);
    let freed = end_step(held, id);
    assert(freed =~= entries);
    assert forall|other: Seq<char>| other != id implies lookup(held, other) == lookup(
        entries,
        other,
    ) && begin_step(held, other).1 == begin_step(entries, other).1 by {
        if has_id(entries, other) {
            let k = position(entries, other);
            assert(held[k] == entries[k]);
            lemma_position_unique(held, k);
        } else if has_id(held, other) {
            let k = position(held, other);
            assert(held[k].id == entries[k].id);
        }
    }
}

} // verus!
