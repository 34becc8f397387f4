//! The read-only change notices for the web view as a state machine: one
//! subscription at a time, at most one notice waiting for its
//! acknowledgement, and no queue of changes: once a notice is acknowledged
//! the next one carries the latest revision. Replacing or dropping the
//! subscription never touches the task. The embedding application holds the
//! channel of the current session, sends the notices this state hands out,
//! and waits for task changes between steps.

use vstd::prelude::*;

verus! {

/// The version of the notice protocol.
pub const TASK_PROTOCOL_VERSION: u32 = 1;

#[derive(Debug, Clone, Copy, PartialEq, Eq, Structural)]
pub enum SubscriptionError {
    Closed,
    StaleSubscription,
    InvalidAcknowledgement,
    IdExhausted,
    ServiceFault,
}

impl SubscriptionError {
    /// The user-facing text of the error.
    pub fn message(&self) -> (r: &'static str)
        ensures
            r == (match *self {
                    SubscriptionError::Closed => "任务订阅已关闭",
                    SubscriptionError::StaleSubscription => "任务订阅已被替换或移除",
                    SubscriptionError::InvalidAcknowledgement => "确认版本不是已发送版本",
                    SubscriptionError::IdExhausted => "任务订阅标识已耗尽",
                    SubscriptionError::ServiceFault => "任务订阅服务异常",
                }),
    {
        match self {
            SubscriptionError::Closed => "任务订阅已关闭",
            SubscriptionError::StaleSubscription => "任务订阅已被替换或移除",
            SubscriptionError::InvalidAcknowledgement => "确认版本不是已发送版本",
            SubscriptionError::IdExhausted => "任务订阅标识已耗尽",
            SubscriptionError::ServiceFault => "任务订阅服务异常",
        }
    }
}

/// A change notice: the protocol version, the subscription and the revision.
#[derive(Debug, Clone, Copy, PartialEq, Eq, Structural)]
pub struct TaskChangeNotice {
    pub protocol_version: u32,
    pub subscription_id: u64,
    pub revision: u64,
}

/// The one subscription: its identifier, the last acknowledged revision, the
/// revision of the notice waiting for acknowledgement, and whether the task
/// owner has closed for good.
#[derive(Debug, Clone, Copy, PartialEq, Eq, Structural)]
pub struct Session {
    pub id: u64,
    pub acknowledged: Option<u64>,
    pub in_flight: Option<u64>,
    pub terminal: bool,
}

/// What the notifying thread does next.
#[derive(Debug, Clone, Copy, PartialEq, Eq, Structural)]
pub enum Watch {
    /// Stop: cleanly, or with a fault.
    Stop { faulted: bool },
    /// Nothing to follow: wait for a subscription, an acknowledgement or a close.
    Idle,
    /// Wait for a task revision after `after` and offer it to session `id`.
    Follow { id: u64, after: u64 },
}

/// The subscription slot, its identifier counter and its lifecycle.
#[derive(Debug)]
pub struct Subscriptions {
    session: Option<Session>,
    next_id: u64,
    closed: bool,
    faulted: bool,
}

/// The notice for a session and a revision.
pub open spec fn notice_of(id: u64, revision: u64) -> TaskChangeNotice {
    TaskChangeNotice { protocol_version: TASK_PROTOCOL_VERSION, subscription_id: id, revision }
}

/// The slot holds the session with this identifier.
pub open spec fn session_is(session: Option<Session>, id: u64) -> bool {
    session matches Some(s) && s.id == id
}

/// What the notifying thread does next in this state.
pub open spec fn watch_of(closed: bool, faulted: bool, session: Option<Session>) -> Watch {
    if closed {
        Watch::Stop { faulted }
    } else {
        match session {
            Some(s) => if s.in_flight is None && !s.terminal && s.acknowledged is Some {
                Watch::Follow { id: s.id, after: s.acknowledged->0 }
            } else {
                Watch::Idle
            },
            None => Watch::Idle,
        }
    }
}

impl Subscriptions {
    pub closed spec fn spec_session(self) -> Option<Session> {
        self.session
    }

    pub closed spec fn spec_next_id(self) -> u64 {
        self.next_id
    }

    pub closed spec fn spec_closed(self) -> bool {
        self.closed
    }

    pub closed spec fn spec_faulted(self) -> bool {
        self.faulted
    }

    /// Identifiers start at 1 and the live session is older than the next
    /// one; a fault closes, and a closed slot holds no session.
    pub closed spec fn wf(self) -> bool {
        &&& self.next_id >= 1
        &&& (self.session matches Some(s) ==> s.id < self.next_id)
        &&& self.faulted ==> self.closed
        &&& self.closed ==> self.session is None
    }

    /// `after` is `before` once a subscription was taken for a task at
    /// `revision`: a fresh session waits for the acknowledgement of its first
    /// notice, and the identifier counter moved on.
    pub open spec fn subscribed(before: Self, after: Self, revision: u64, terminal: bool) -> bool {
        &&& after.spec_session() == Some(Session {
            id: before.spec_next_id(),
            acknowledged: None,
            in_flight: Some(revision),
            terminal,
        })
        &&& after.spec_next_id() == before.spec_next_id() + 1
        &&& after.spec_closed() == before.spec_closed()
        &&& after.spec_faulted() == before.spec_faulted()
    }

    /// No subscription yet; identifiers from 1.
    pub fn new() -> (r: Self)
        ensures
            r.wf(),
            r.spec_session() is None,
            r.spec_next_id() == 1,
            !r.spec_closed() && !r.spec_faulted(),
    {
        Subscriptions { session: None, next_id: 1, closed: false, faulted: false }
    }

    fn available(&self) -> (r: Result<(), SubscriptionError>)
        ensures
            self.faulted ==> r == Err::<(), SubscriptionError>(SubscriptionError::ServiceFault),
            !self.faulted && self.closed ==> r == Err::<(), SubscriptionError>(SubscriptionError::Closed),
            !self.faulted && !self.closed ==> r is Ok,
    {
        if self.faulted {
            Err(SubscriptionError::ServiceFault)
        } else if self.closed {
            Err(SubscriptionError::Closed)
        } else {
            Ok(())
        }
    }

    /// The identifier of the live session, if any.
    pub fn current(&self) -> (r: Option<u64>)
        ensures
            r == match self.spec_session() {
                Some(s) => Some(s.id),
                None => None::<u64>,
            },
    {
        match &self.session {
            Some(s) => Some(s.id),
            None => None,
        }
    }

    /// A mutation may act for session `id` only while it is the live,
    /// acknowledged session.
    pub fn ready(&self, id: u64) -> (r: Result<(), SubscriptionError>)
        ensures
            self.spec_faulted() ==> r == Err::<(), SubscriptionError>(SubscriptionError::ServiceFault),
            !self.spec_faulted() && self.spec_closed() ==> r == Err::<(), SubscriptionError>(SubscriptionError::Closed),
            !self.spec_faulted() && !self.spec_closed() && !session_is(self.spec_session(), id)
                ==> r == Err::<(), SubscriptionError>(SubscriptionError::StaleSubscription),
            !self.spec_faulted() && !self.spec_closed() && session_is(self.spec_session(), id)
                ==> (r is Ok <==> self.spec_session()->0.acknowledged is Some),
            r is Err && !self.spec_faulted() && !self.spec_closed() && session_is(self.spec_session(), id)
                ==> r == Err::<(), SubscriptionError>(SubscriptionError::InvalidAcknowledgement),
    {
        match self.available() {
            Ok(()) => {},
            Err(e) => return Err(e),
        }
        match &self.session {
            Some(s) => if s.id != id {
                Err(SubscriptionError::StaleSubscription)
            } else if s.acknowledged.is_none() {
                Err(SubscriptionError::InvalidAcknowledgement)
            } else {
                Ok(())
            },
            None => Err(SubscriptionError::StaleSubscription),
        }
    }

    /// Replaces the one session with a fresh one for a task at `revision`
    /// and returns its first notice, which waits for acknowledgement before
    /// anything else is sent. `terminal` says the task owner has closed.
    pub fn subscribe(&mut self, revision: u64, terminal: bool) -> (r: Result<TaskChangeNotice, SubscriptionError>)
        requires
            old(self).wf(),
        ensures
            final(self).wf(),
            old(self).spec_faulted() ==> r == Err::<TaskChangeNotice, SubscriptionError>(SubscriptionError::ServiceFault),
            !old(self).spec_faulted() && old(self).spec_closed()
                ==> r == Err::<TaskChangeNotice, SubscriptionError>(SubscriptionError::Closed),
            !old(self).spec_closed() && old(self).spec_next_id() == u64::MAX
                ==> r == Err::<TaskChangeNotice, SubscriptionError>(SubscriptionError::IdExhausted),
            r is Err ==> *final(self) == *old(self),
            r is Ok <==> !old(self).spec_closed() && old(self).spec_next_id() < u64::MAX,
            r matches Ok(n) ==> n == notice_of(old(self).spec_next_id(), revision)
                && Self::subscribed(*old(self), *final(self), revision, terminal),
    {
        match self.available() {
            Ok(()) => {},
            Err(e) => return Err(e),
        }
        let id = self.next_id;
        if id == u64::MAX {
            return Err(SubscriptionError::IdExhausted);
        }
        self.next_id = id + 1;
        self.session = Some(Session { id, acknowledged: None, in_flight: Some(revision), terminal });
        Ok(TaskChangeNotice { protocol_version: TASK_PROTOCOL_VERSION, subscription_id: id, revision })
    }

    /// Acknowledges the notice in flight. Only the live session's in-flight
    /// revision unlocks the next notice; acknowledging the revision already
    /// acknowledged again changes nothing.
    pub fn acknowledge(&mut self, id: u64, revision: u64) -> (r: Result<(), SubscriptionError>)
        requires
            old(self).wf(),
        ensures
            final(self).wf(),
            old(self).spec_faulted() ==> r == Err::<(), SubscriptionError>(SubscriptionError::ServiceFault),
            !old(self).spec_faulted() && old(self).spec_closed() ==> r == Err::<(), SubscriptionError>(SubscriptionError::Closed),
            !old(self).spec_closed() && !session_is(old(self).spec_session(), id)
                ==> r == Err::<(), SubscriptionError>(SubscriptionError::StaleSubscription),
            r is Err ==> *final(self) == *old(self),
            !old(self).spec_closed() && session_is(old(self).spec_session(), id) ==> {
                let s = old(self).spec_session()->0;
                if s.acknowledged == Some(revision) {
                    r is Ok && *final(self) == *old(self)
                } else if s.in_flight == Some(revision) {
                    &&& r is Ok
                    &&& final(self).spec_session() == Some(Session { acknowledged: Some(revision), in_flight: None, ..s })
                    &&& final(self).spec_next_id() == old(self).spec_next_id()
                    &&& final(self).spec_closed() == old(self).spec_closed()
                    &&& final(self).spec_faulted() == old(self).spec_faulted()
                } else {
                    r == Err::<(), SubscriptionError>(SubscriptionError::InvalidAcknowledgement)
                }
            },
    {
        match self.available() {
            Ok(()) => {},
            Err(e) => return Err(e),
        }
        let s = match self.session {
            Some(s) => s,
            None => return Err(SubscriptionError::StaleSubscription),
        };
        if s.id != id {
            return Err(SubscriptionError::StaleSubscription);
        }
        if s.acknowledged == Some(revision) {
            return Ok(());
        }
        if s.in_flight != Some(revision) {
            return Err(SubscriptionError::InvalidAcknowledgement);
        }
        self.session = Some(Session { acknowledged: Some(revision), in_flight: None, ..s });
        Ok(())
    }

    /// Drops the session with this identifier; an old identifier returns
    /// `false` and leaves a replacement alone.
    pub fn unsubscribe(&mut self, id: u64) -> (removed: bool)
        requires
            old(self).wf(),
        ensures
            final(self).wf(),
            removed == session_is(old(self).spec_session(), id),
            removed ==> final(self).spec_session() is None,
            !removed ==> *final(self) == *old(self),
            final(self).spec_next_id() == old(self).spec_next_id(),
            final(self).spec_closed() == old(self).spec_closed(),
            final(self).spec_faulted() == old(self).spec_faulted(),
    {
        let matches_id = match &self.session {
            Some(s) => s.id == id,
            None => false,
        };
        if matches_id {
            self.session = None;
        }
        matches_id
    }

    /// Stops for good, recording a fault when there was one, and drops the session.
    pub fn close(&mut self, faulted: bool)
        requires
            old(self).wf(),
        ensures
            final(self).wf(),
            final(self).spec_closed(),
            final(self).spec_faulted() == (old(self).spec_faulted() || faulted),
            final(self).spec_session() is None,
            final(self).spec_next_id() == old(self).spec_next_id(),
    {
        self.closed = true;
        self.faulted = self.faulted || faulted;
        self.session = None;
    }

    /// What the notifying thread does next: stop once closed, follow the
    /// task after the acknowledged revision while nothing is in flight and
    /// the task owner is open, and otherwise wait.
    pub fn watch(&self) -> (r: Watch)
        ensures
            r == watch_of(self.spec_closed(), self.spec_faulted(), self.spec_session()),
    {
        if self.closed {
            return Watch::Stop { faulted: self.faulted };
        }
        match &self.session {
            Some(s) => match s.acknowledged {
                Some(after) => if s.in_flight.is_none() && !s.terminal {
                    Watch::Follow { id: s.id, after }
                } else {
                    Watch::Idle
                },
                None => Watch::Idle,
            },
            None => Watch::Idle,
        }
    }

    /// Offers a task revision seen after `after` to session `id`. Nothing is
    /// sent when the session was replaced, acknowledged something else or
    /// already has a notice in flight, or when the revision is not newer;
    /// otherwise it becomes the notice in flight. Whether the task owner has
    /// closed is recorded either way for a still-current session.
    pub fn deliver(&mut self, id: u64, after: u64, revision: u64, terminal: bool) -> (r: Option<TaskChangeNotice>)
        requires
            old(self).wf(),
        ensures
            final(self).wf(),
            final(self).spec_next_id() == old(self).spec_next_id(),
            final(self).spec_closed() == old(self).spec_closed(),
            final(self).spec_faulted() == old(self).spec_faulted(),
            ({
                let current = match old(self).spec_session() {
                    Some(s) => s.id == id && s.acknowledged == Some(after) && s.in_flight is None,
                    None => false,
                };
                &&& !current ==> r is None && *final(self) == *old(self)
                &&& current && revision <= after ==> r is None
                    && final(self).spec_session() == Some(Session { terminal, ..old(self).spec_session()->0 })
                &&& current && revision > after ==> r == Some(notice_of(id, revision))
                    && final(self).spec_session() == Some(Session {
                        terminal,
                        in_flight: Some(revision),
                        ..old(self).spec_session()->0
                    })
            }),
    {
        let s = match self.session {
            Some(s) => s,
            None => return None,
        };
        if s.id != id || s.acknowledged != Some(after) || s.in_flight.is_some() {
            return None;
        }
        if revision <= after {
            self.session = Some(Session { terminal, ..s });
            return None;
        }
        self.session = Some(Session { terminal, in_flight: Some(revision), ..s });
        Some(TaskChangeNotice { protocol_version: TASK_PROTOCOL_VERSION, subscription_id: id, revision })
    }

    /// A send to session `id` failed: that session is dropped, a replacement is not.
    pub fn send_failed(&mut self, id: u64) -> (removed: bool)
        requires
            old(self).wf(),
        ensures
            final(self).wf(),
            removed == session_is(old(self).spec_session(), id),
            removed ==> final(self).spec_session() is None,
            !removed ==> *final(self) == *old(self),
            final(self).spec_next_id() == old(self).spec_next_id(),
            final(self).spec_closed() == old(self).spec_closed(),
            final(self).spec_faulted() == old(self).spec_faulted(),
    {
        self.unsubscribe(id)
    }

    /// Once a session is replaced by a new subscription, the old session's
    /// identifier no longer names the live session: it can neither
    /// acknowledge nor act.
    pub proof fn lemma_replaced_session_is_stale(before: Self, after: Self, revision: u64, terminal: bool, old_id: u64)
        requires
            before.wf(),
            session_is(before.spec_session(), old_id),
            Self::subscribed(before, after, revision, terminal),
        ensures
            !session_is(after.spec_session(), old_id),
    {
    }

    /// While a notice is in flight the notifying thread follows nothing:
    /// at most one notice waits for acknowledgement.
    pub proof fn lemma_one_notice_in_flight(s: Self)
        requires
            s.spec_session() matches Some(x) && x.in_flight is Some,
        ensures
            !(watch_of(s.spec_closed(), s.spec_faulted(), s.spec_session()) is Follow),
    {
    }
}

} // verus!
