//! Sessions as the user interface shows them.

use vstd::prelude::*;
use crate::clock::{minutes_between, more_minutes_than, now_millis};
use crate::ident::fresh_id;
use crate::models::connection::{ConnectionStatus, StatusModel};

verus! {

/// What a session is used for.
#[derive(Debug, Clone, Copy, PartialEq, Eq, Structural)]
pub enum SessionType {
    Terminal,
    FileManager,
    Both,
}

/// Minutes without activity after which a session counts as expired.
pub const EXPIRY_MINUTES: u32 = 30;

/// A session of the user interface on one connection.
#[derive(Debug)]
pub struct Session {
    pub id: String,
    pub connection_id: String,
    pub title: String,
    pub status: ConnectionStatus,
    /// Creation time, in milliseconds since the Unix epoch.
    pub created_at: i64,
    /// Time of the last activity, in milliseconds since the Unix epoch.
    pub last_activity: i64,
}

/// What a `Session` stands for.
pub struct SessionModel {
    pub id: Seq<char>,
    pub connection_id: Seq<char>,
    pub title: Seq<char>,
    pub status: StatusModel,
    pub created_at: i64,
    pub last_activity: i64,
}

impl View for Session {
    type V = SessionModel;

    open spec fn view(&self) -> SessionModel {
        SessionModel {
            id: self.id@,
            connection_id: self.connection_id@,
            title: self.title@,
            status: self.status@,
            created_at: self.created_at,
            last_activity: self.last_activity,
        }
    }
}

impl Session {
    /// A disconnected session with the given identity, created at `now`.
    pub fn with_identity(id: String, connection_id: String, title: String, now: i64) -> (session:
        Self)
        ensures
            session@ == (SessionModel {
                id: id@,
                connection_id: connection_id@,
                title: title@,
                status: StatusModel::Disconnected,
                created_at: now,
                last_activity: now,
            }),
    {
        Session {
            id,
            connection_id,
            title,
            status: ConnectionStatus::Disconnected,
            created_at: now,
            last_activity: now,
        }
    }

    /// A disconnected session under a fresh identifier, created now.
    pub fn new(connection_id: String, title: String) -> (session: Self)
        ensures
            session@ == (SessionModel {
                id: session@.id,
                connection_id: connection_id@,
                title: title@,
                status: StatusModel::Disconnected,
                created_at: session@.created_at,
                last_activity: session@.created_at,
            }),
            session@.id.len() == 36,
    {
        let id: String = fresh_id();
        let now: i64 = now_millis();
        Session::with_identity(id, connection_id, title, now)
    }

    /// Records activity at time `now`.
    pub fn touch(&mut self, now: i64)
        ensures
            final(self)@ == (SessionModel { last_activity: now, ..old(self)@ }),
    {
        self.last_activity = now;
    }

    /// Records activity at the current time.
    pub fn update_activity(&mut self)
        ensures
            final(self)@ == (SessionModel {
                last_activity: final(self)@.last_activity,
                ..old(self)@
            }),
    {
        let now: i64 = now_millis();
        self.touch(now);
    }

    /// Sets the status and records activity at the current time.
    pub fn update_status(&mut self, status: ConnectionStatus)
        ensures
            final(self)@ == (SessionModel {
                status: status@,
                last_activity: final(self)@.last_activity,
                ..old(self)@
            }),
    {
        self.status = status;
        self.update_activity();
    }

    /// Whether the session is connected.
    pub fn is_active(&self) -> (active: bool)
        ensures
            active == (self@.status is Connected),
    {
        self.status.is_connected()
    }

    /// Whether more than thirty whole minutes lie between the last
    /// activity and `now`.
    pub fn is_expired_at(&self, now: i64) -> (expired: bool)
        ensures
            expired == (minutes_between(self@.last_activity, now) > EXPIRY_MINUTES),
    {
        more_minutes_than(self.last_activity, now, EXPIRY_MINUTES)
    }

    /// Whether the session has been without activity for more than thirty
    /// whole minutes. The answer is that of `is_expired_at` for the time
    /// at which the clock is read.
    pub fn is_expired(&self) -> (expired: bool)
        ensures
            exists|now: i64|
                expired == (#[trigger] minutes_between(self@.last_activity, now) > EXPIRY_MINUTES),
    {
        let now: i64 = now_millis();
        self.is_expired_at(now)
    }
}

impl Default for Session {
    fn default() -> (session: Self)
        ensures
            session@ == (SessionModel {
                id: session@.id,
                connection_id: Seq::<char>::empty(),
                title: Seq::<char>::empty(),
                status: StatusModel::Disconnected,
                created_at: session@.created_at,
                last_activity: session@.created_at,
            }),
            session@.id.len() == 36,
    {
        Session::new(String::new(), String::new())
    }
}

} // verus!
