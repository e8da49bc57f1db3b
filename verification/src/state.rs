//! The session of the application: at most one room is active at a time.
//!
//! The session is either idle or active. Starting a room while another is
//! active hands the old one back to be torn down, so that two rooms are
//! never active together. The last ticket that was issued is kept, and is
//! still given out after the room has been left.

use vstd::prelude::*;

verus! {

/// What the application asked for when no room was active.
#[derive(Clone, Copy, Debug, PartialEq, Eq, Structural)]
pub enum Request {
    GetPeers,
    SendMessage,
    GetMessageLog,
    GetTopicId,
    GenerateTicket,
}

/// Why a request to the session failed.
#[derive(Clone, Copy, Debug, PartialEq, Eq, Structural)]
pub enum SessionError {
    /// No room is active, and the request needs one.
    NoActiveChannel(Request),
    /// The active room could not issue a ticket.
    TicketUnavailable,
}

impl SessionError {
    /// The error as text for the application.
    pub fn message(&self) -> (text: &'static str)
        ensures
            text@ == (match self {
                SessionError::NoActiveChannel(Request::GetPeers) =>
                    "Could not get peers. No active channel."@,
                SessionError::NoActiveChannel(Request::SendMessage) =>
                    "Could not send message. No active channel."@,
                SessionError::NoActiveChannel(Request::GetMessageLog) =>
                    "Could not get message log. No active channel."@,
                SessionError::NoActiveChannel(Request::GetTopicId) =>
                    "Could not get topic ID. No active channel."@,
                SessionError::NoActiveChannel(Request::GenerateTicket) =>
                    "Could not generate ticket. No active channel."@,
                SessionError::TicketUnavailable => "Could not generate ticket."@,
            }),
    {
        match self {
            SessionError::NoActiveChannel(Request::GetPeers) => {
                "Could not get peers. No active channel."
            },
            SessionError::NoActiveChannel(Request::SendMessage) => {
                "Could not send message. No active channel."
            },
            SessionError::NoActiveChannel(Request::GetMessageLog) => {
                "Could not get message log. No active channel."
            },
            SessionError::NoActiveChannel(Request::GetTopicId) => {
                "Could not get topic ID. No active channel."
            },
            SessionError::NoActiveChannel(Request::GenerateTicket) => {
                "Could not generate ticket. No active channel."
            },
            SessionError::TicketUnavailable => "Could not generate ticket.",
        }
    }
}

/// The room that is active: the nickname it was joined under and the id of
/// its topic.
#[derive(Clone, Debug, PartialEq, Eq)]
pub struct ActiveChannel {
    pub name: String,
    pub topic_id: String,
}

/// The mathematical content of an `ActiveChannel`.
pub struct ActiveView {
    pub name: Seq<char>,
    pub topic_id: Seq<char>,
}

impl View for ActiveChannel {
    type V = ActiveView;

    open spec fn view(&self) -> ActiveView {
        ActiveView { name: self.name@, topic_id: self.topic_id@ }
    }
}

impl ActiveChannel {
    /// The room with topic `topic_id`, joined under the nickname `name`.
    pub fn new(topic_id: String, name: &str) -> (channel: ActiveChannel)
        ensures
            channel@ == (ActiveView { name: name@, topic_id: topic_id@ }),
    {
        ActiveChannel { name: name.to_owned(), topic_id }
    }
}

/// The session: the active room, if any, and the last ticket issued.
#[derive(Clone, Debug, PartialEq, Eq)]
pub struct AppContext {
    active_channel: Option<ActiveChannel>,
    latest_ticket: Option<String>,
}

/// The mathematical content of an `AppContext`.
pub struct ContextView {
    pub active: Option<ActiveView>,
    pub latest_ticket: Option<Seq<char>>,
}

/// The mathematical content of an optional room.
pub open spec fn active_view(channel: Option<ActiveChannel>) -> Option<ActiveView> {
    match channel {
        Some(c) => Some(c@),
        None => None,
    }
}

/// The mathematical content of an optional text.
pub open spec fn text_view(text: Option<String>) -> Option<Seq<char>> {
    match text {
        Some(t) => Some(t@),
        None => None,
    }
}

impl View for AppContext {
    type V = ContextView;

    closed spec fn view(&self) -> ContextView {
        ContextView {
            active: active_view(self.active_channel),
            latest_ticket: text_view(self.latest_ticket),
        }
    }
}

/// The last ticket after a request for a ticket: the fresh one when a room
/// is active and issued it, the former one otherwise.
pub open spec fn ticket_after(context: ContextView, fresh: Option<Seq<char>>) -> Option<Seq<char>> {
    if context.active is Some && fresh is Some {
        fresh
    } else {
        context.latest_ticket
    }
}

/// The answer to a request for a ticket. An active room answers with the
/// ticket it issued, and fails when it could issue none. Without a room
/// the answer is the last ticket that was issued, if there is one.
pub open spec fn ticket_answer(context: ContextView, fresh: Option<Seq<char>>) -> Result<
    Seq<char>,
    SessionError,
> {
    match context.active {
        Some(_) => match fresh {
            Some(ticket) => Ok(ticket),
            None => Err(SessionError::TicketUnavailable),
        },
        None => match context.latest_ticket {
            Some(ticket) => Ok(ticket),
            None => Err(SessionError::NoActiveChannel(Request::GenerateTicket)),
        },
    }
}

impl AppContext {
    /// A new, idle session.
    pub fn new() -> (context: AppContext)
        ensures
            context@ == (ContextView { active: None, latest_ticket: None }),
    {
        AppContext { active_channel: None, latest_ticket: None }
    }

    /// Whether a room is active.
    pub fn is_active(&self) -> (active: bool)
        ensures
            active == (self@.active is Some),
    {
        self.active_channel.is_some()
    }

    /// The active room, for a request that needs one.
    pub fn active_channel(&self, request: Request) -> (r: Result<&ActiveChannel, SessionError>)
        ensures
            match self@.active {
                Some(channel) => r matches Ok(c) && c@ == channel,
                None => r matches Err(e) && e == SessionError::NoActiveChannel(request),
            },
    {
        match &self.active_channel {
            Some(channel) => Ok(channel),
            None => Err(SessionError::NoActiveChannel(request)),
        }
    }

    /// The id of the active room's topic.
    pub fn get_topic_id(&self) -> (r: Result<String, SessionError>)
        ensures
            match self@.active {
                Some(channel) => r matches Ok(id) && id@ == channel.topic_id,
                None => r matches Err(e) && e == SessionError::NoActiveChannel(
                    Request::GetTopicId,
                ),
            },
    {
        match &self.active_channel {
            Some(channel) => Ok(channel.topic_id.clone()),
            None => Err(SessionError::NoActiveChannel(Request::GetTopicId)),
        }
    }

    /// The last ticket that was issued.
    pub fn latest_ticket(&self) -> (ticket: Option<String>)
        ensures
            text_view(ticket) == self@.latest_ticket,
    {
        match &self.latest_ticket {
            Some(ticket) => Some(ticket.clone()),
            None => None,
        }
    }

    /// Answers a request for a ticket. `fresh` is the ticket that the
    /// active room has just issued, or `None` when no room is active or
    /// the room could issue none.
    pub fn generate_ticket(&mut self, fresh: Option<String>) -> (r: Result<String, SessionError>)
        ensures
            final(self)@ == (ContextView {
                latest_ticket: ticket_after(old(self)@, text_view(fresh)),
                ..old(self)@
            }),
            match ticket_answer(old(self)@, text_view(fresh)) {
                Ok(ticket) => r matches Ok(t) && t@ == ticket,
                Err(e) => r matches Err(x) && x == e,
            },
    {
        if self.active_channel.is_some() {
            match fresh {
                Some(ticket) => {
                    self.latest_ticket = Some(ticket.clone());
                    Ok(ticket)
                },
                None => Err(SessionError::TicketUnavailable),
            }
        } else {
            match &self.latest_ticket {
                Some(ticket) => Ok(ticket.clone()),
                None => Err(SessionError::NoActiveChannel(Request::GenerateTicket)),
            }
        }
    }

    /// Leaves the active room, if any, and hands it back to be torn down.
    /// The ticket that the room has just issued, if it issued one, is kept
    /// as the last ticket. The session is idle afterwards.
    pub fn drop_channel(&mut self, fresh: Option<String>) -> (dropped: Option<ActiveChannel>)
        ensures
            final(self)@ == (ContextView {
                active: None,
                latest_ticket: ticket_after(old(self)@, text_view(fresh)),
            }),
            active_view(dropped) == old(self)@.active,
    {
        let _ = self.generate_ticket(fresh);
        let mut dropped: Option<ActiveChannel> = None;
        std::mem::swap(&mut self.active_channel, &mut dropped);
        dropped
    }

    /// Makes `channel` the active room. A room that was active until now
    /// is handed back to be torn down first: there is never more than one.
    pub fn start_channel(&mut self, channel: ActiveChannel) -> (replaced: Option<ActiveChannel>)
        ensures
            final(self)@ == (ContextView { active: Some(channel@), ..old(self)@ }),
            active_view(replaced) == old(self)@.active,
    {
        let mut replaced: Option<ActiveChannel> = Some(channel);
        std::mem::swap(&mut self.active_channel, &mut replaced);
        replaced
    }
}

/// Leaving twice is the same as leaving once: the second time there is
/// nothing to tear down and the session stays as it is.
pub proof fn lemma_leave_is_idempotent(context: ContextView, fresh: Option<Seq<char>>)
    ensures
        ({
            let idle = ContextView {
                active: None::<ActiveView>,
                latest_ticket: ticket_after(context, fresh),
            };
            ticket_after(idle, fresh) == idle.latest_ticket
        }),
{
}

/// After a room has issued a ticket, a request for a ticket is answered
/// with that ticket even when the room has been left.
pub proof fn lemma_ticket_survives_leave(context: ContextView, ticket: Seq<char>)
    requires
        context.active is Some,
    ensures
        ({
            let left = ContextView {
                active: None::<ActiveView>,
                latest_ticket: ticket_after(context, Some(ticket)),
            };
            ticket_answer(left, None) == Ok::<_, SessionError>(ticket)
        }),
{
}

} // verus!
