//! USB transport abstraction for HCI communication with Bluetooth controllers,
//! and an in-memory transport that queues what is sent and hands back what
//! was injected.

use vstd::prelude::*;
use crate::hci::{HciAcl, HciCommand, HciEvent};

verus! {

#[verifier::external_type_specification]
#[verifier::external_body]
pub struct ExIoError(std::io::Error);

#[verifier::external_type_specification]
#[verifier::external_body]
pub struct ExPathBuf(std::path::PathBuf);

/// `PathBuf::clone` gives a copy of the path, the same value as far as the
/// contracts are concerned.
pub assume_specification[ <std::path::PathBuf as Clone>::clone ](p: &std::path::PathBuf) -> (r:
    std::path::PathBuf)
    ensures
        r == *p,
;

/// The failures the in-memory transport raises itself.
#[derive(Clone, Copy, Debug, PartialEq, Eq, Structural)]
pub enum TransportError {
    /// An operation on a closed transport.
    NotConnected,
}

/// The error an operation on a closed transport gives: `NotConnected`,
/// with the message "transport is closed".
pub fn closed_transport_error() -> (r: (TransportError, &'static str))
    ensures
        r.0 == TransportError::NotConnected,
        r.1@ == "transport is closed"@,
{
    proof {
        reveal_strlit("transport is closed");
    }
    (TransportError::NotConnected, "transport is closed")
}

/// `std::io::Error::new` with the `ErrorKind` of the same name as the
/// library's error and the given message.
#[verifier::external_body]
fn io_error(kind: TransportError, message: &str) -> std::io::Error {
    match kind {
        TransportError::NotConnected => std::io::Error::new(std::io::ErrorKind::NotConnected, message),
    }
}

/// The `std::io::Error` a closed transport answers with.
fn not_connected_error() -> std::io::Error {
    let (kind, message) = closed_transport_error();
    io_error(kind, message)
}

#[derive(Clone, Copy, Debug, PartialEq, Eq, Structural)]
pub enum UsbEndpointType {
    Control,
    Interrupt,
    BulkIn,
    BulkOut,
}

#[derive(Clone, Debug)]
pub struct UsbTransportConfig {
    pub device_path: std::path::PathBuf,
    pub vendor_id: u16,
    pub device_id: u16,
    pub interrupt_endpoint: u8,
    pub bulk_in_endpoint: u8,
    pub bulk_out_endpoint: u8,
}

#[derive(Clone, Copy, Debug, PartialEq, Eq, Structural)]
pub enum TransportState {
    Closed,
    Opening,
    Active,
    Error,
}

/// A command by its contents: opcode and parameters.
pub open spec fn command_view(c: HciCommand) -> (u16, Seq<u8>) {
    (c.opcode, c.parameters@)
}

/// An event by its contents: code and parameters.
pub open spec fn event_view(e: HciEvent) -> (u8, Seq<u8>) {
    (e.event_code, e.parameters@)
}

/// An ACL packet by its contents: handle, flags and data.
pub open spec fn acl_view(a: HciAcl) -> (u16, u8, u8, Seq<u8>) {
    (a.handle, a.pb_flag, a.bc_flag, a.data@)
}

/// A link to a Bluetooth controller. A link may keep two records that the
/// contracts speak of: every command handed to it and every answer its
/// event receive gave. One that keeps them says so through
/// `keeps_records`; of one that does not, nothing is promised.
pub trait UsbHciTransport {
    /// Whether this link keeps the records below.
    open spec fn keeps_records(&self) -> bool {
        false
    }

    /// The commands handed to `send_command`, oldest first, whether or not
    /// sending them succeeded.
    open spec fn commands_handed(&self) -> Seq<(u16, Seq<u8>)> {
        Seq::empty()
    }

    /// What each `recv_event` gave, oldest first: the event or its
    /// absence, or `None` where receiving failed.
    open spec fn events_received(&self) -> Seq<Option<Option<HciEvent>>> {
        Seq::empty()
    }

    fn send_command(&mut self, command: &HciCommand) -> (r: Result<(), std::io::Error>)
        ensures
            final(self).keeps_records() == old(self).keeps_records(),
            old(self).keeps_records() ==> final(self).commands_handed() == old(
                self,
            ).commands_handed().push(command_view(*command)),
            old(self).keeps_records() ==> final(self).events_received() == old(
                self,
            ).events_received(),
    ;

    fn recv_event(&mut self) -> (r: Result<Option<HciEvent>, std::io::Error>)
        ensures
            final(self).keeps_records() == old(self).keeps_records(),
            old(self).keeps_records() ==> final(self).commands_handed() == old(
                self,
            ).commands_handed(),
            old(self).keeps_records() ==> final(self).events_received() == old(
                self,
            ).events_received().push(received_answer(r)),
    ;

    fn send_acl(&mut self, acl: &HciAcl) -> Result<(), std::io::Error>;

    fn recv_acl(&mut self) -> Result<Option<HciAcl>, std::io::Error>;

    fn state(&self) -> TransportState;

    fn close(&mut self) -> Result<(), std::io::Error>;
}

/// What an event receive gave, as the record keeps it: the event or its
/// absence, `None` for a failure.
pub open spec fn received_answer(r: Result<Option<HciEvent>, std::io::Error>) -> Option<
    Option<HciEvent>,
> {
    match r {
        Ok(e) => Some(e),
        Err(_) => None,
    }
}

/// An in-memory transport: sent commands and ACL packets are queued for
/// inspection, and injected events and ACL packets are received in order.
pub struct StubTransport {
    config: UsbTransportConfig,
    pub state: TransportState,
    sent_commands: Vec<HciCommand>,
    sent_acl: Vec<HciAcl>,
    pending_events: Vec<HciEvent>,
    pending_acl: Vec<HciAcl>,
    handed: Ghost<Seq<(u16, Seq<u8>)>>,
    received: Ghost<Seq<Option<Option<HciEvent>>>>,
}

impl StubTransport {
    /// Commands sent so far and not yet drained, oldest first.
    pub closed spec fn sent_commands(&self) -> Seq<(u16, Seq<u8>)> {
        self.sent_commands@.map_values(|c: HciCommand| command_view(c))
    }

    /// ACL packets sent so far and not yet drained, oldest first.
    pub closed spec fn sent_acl(&self) -> Seq<(u16, u8, u8, Seq<u8>)> {
        self.sent_acl@.map_values(|a: HciAcl| acl_view(a))
    }

    /// Injected events not yet received, next first.
    pub closed spec fn pending_events(&self) -> Seq<(u8, Seq<u8>)> {
        self.pending_events@.map_values(|e: HciEvent| event_view(e))
    }

    /// Injected ACL packets not yet received, next first.
    pub closed spec fn pending_acl(&self) -> Seq<(u16, u8, u8, Seq<u8>)> {
        self.pending_acl@.map_values(|a: HciAcl| acl_view(a))
    }

    pub closed spec fn spec_state(&self) -> TransportState {
        self.state
    }

    pub closed spec fn spec_config(&self) -> UsbTransportConfig {
        self.config
    }

    pub fn new(config: UsbTransportConfig) -> (r: Self)
        ensures
            r.spec_state() == TransportState::Closed,
            r.spec_config() == config,
            r.sent_commands() == Seq::<(u16, Seq<u8>)>::empty(),
            r.sent_acl() == Seq::<(u16, u8, u8, Seq<u8>)>::empty(),
            r.pending_events() == Seq::<(u8, Seq<u8>)>::empty(),
            r.pending_acl() == Seq::<(u16, u8, u8, Seq<u8>)>::empty(),
    {
        let r = Self {
            config,
            state: TransportState::Closed,
            sent_commands: Vec::new(),
            sent_acl: Vec::new(),
            pending_events: Vec::new(),
            pending_acl: Vec::new(),
            handed: Ghost(Seq::empty()),
            received: Ghost(Seq::empty()),
        };
        assert(r.sent_commands() =~= Seq::<(u16, Seq<u8>)>::empty());
        assert(r.sent_acl() =~= Seq::<(u16, u8, u8, Seq<u8>)>::empty());
        assert(r.pending_events() =~= Seq::<(u8, Seq<u8>)>::empty());
        assert(r.pending_acl() =~= Seq::<(u16, u8, u8, Seq<u8>)>::empty());
        r
    }

    pub fn inject_event(&mut self, event: HciEvent)
        ensures
            final(self).pending_events() == old(self).pending_events().push(event_view(event)),
            final(self).sent_commands() == old(self).sent_commands(),
            final(self).sent_acl() == old(self).sent_acl(),
            final(self).pending_acl() == old(self).pending_acl(),
            final(self).spec_state() == old(self).spec_state(),
            final(self).spec_config() == old(self).spec_config(),
    {
        self.pending_events.push(event);
        assert(self.pending_events() =~= old(self).pending_events().push(event_view(event)));
    }

    pub fn inject_acl(&mut self, acl: HciAcl)
        ensures
            final(self).pending_acl() == old(self).pending_acl().push(acl_view(acl)),
            final(self).sent_commands() == old(self).sent_commands(),
            final(self).sent_acl() == old(self).sent_acl(),
            final(self).pending_events() == old(self).pending_events(),
            final(self).spec_state() == old(self).spec_state(),
            final(self).spec_config() == old(self).spec_config(),
    {
        self.pending_acl.push(acl);
        assert(self.pending_acl() =~= old(self).pending_acl().push(acl_view(acl)));
    }

    /// Hands out the commands sent so far, oldest first, and forgets them.
    pub fn drain_sent_commands(&mut self) -> (r: Vec<HciCommand>)
        ensures
            r@.map_values(|c: HciCommand| command_view(c)) == old(self).sent_commands(),
            final(self).sent_commands() == Seq::<(u16, Seq<u8>)>::empty(),
            final(self).sent_acl() == old(self).sent_acl(),
            final(self).pending_events() == old(self).pending_events(),
            final(self).pending_acl() == old(self).pending_acl(),
            final(self).spec_state() == old(self).spec_state(),
            final(self).spec_config() == old(self).spec_config(),
    {
        let mut drained: Vec<HciCommand> = Vec::new();
        core::mem::swap(&mut drained, &mut self.sent_commands);
        assert(self.sent_commands() =~= Seq::<(u16, Seq<u8>)>::empty());
        drained
    }

    /// Hands out the ACL packets sent so far, oldest first, and forgets them.
    pub fn drain_sent_acl(&mut self) -> (r: Vec<HciAcl>)
        ensures
            r@.map_values(|a: HciAcl| acl_view(a)) == old(self).sent_acl(),
            final(self).sent_acl() == Seq::<(u16, u8, u8, Seq<u8>)>::empty(),
            final(self).sent_commands() == old(self).sent_commands(),
            final(self).pending_events() == old(self).pending_events(),
            final(self).pending_acl() == old(self).pending_acl(),
            final(self).spec_state() == old(self).spec_state(),
            final(self).spec_config() == old(self).spec_config(),
    {
        let mut drained: Vec<HciAcl> = Vec::new();
        core::mem::swap(&mut drained, &mut self.sent_acl);
        assert(self.sent_acl() =~= Seq::<(u16, u8, u8, Seq<u8>)>::empty());
        drained
    }

    /// Opens the transport: sends and receives succeed from now on.
    pub fn open(&mut self)
        ensures
            final(self).spec_state() == TransportState::Active,
            final(self).sent_commands() == old(self).sent_commands(),
            final(self).sent_acl() == old(self).sent_acl(),
            final(self).pending_events() == old(self).pending_events(),
            final(self).pending_acl() == old(self).pending_acl(),
            final(self).spec_config() == old(self).spec_config(),
    {
        self.state = TransportState::Active;
    }

    pub fn config(&self) -> (r: &UsbTransportConfig)
        ensures
            *r == self.spec_config(),
    {
        &self.config
    }
}

impl UsbHciTransport for StubTransport {
    /// The in-memory transport keeps both records.
    closed spec fn keeps_records(&self) -> bool {
        true
    }

    closed spec fn commands_handed(&self) -> Seq<(u16, Seq<u8>)> {
        self.handed@
    }

    closed spec fn events_received(&self) -> Seq<Option<Option<HciEvent>>> {
        self.received@
    }

    /// Queues a copy of the command; fails when the transport is closed.
    fn send_command(&mut self, command: &HciCommand) -> (r: Result<(), std::io::Error>)
        ensures
            r.is_err() == (old(self).spec_state() == TransportState::Closed),
            final(self).sent_commands() == if r.is_ok() {
                old(self).sent_commands().push(command_view(*command))
            } else {
                old(self).sent_commands()
            },
            final(self).sent_acl() == old(self).sent_acl(),
            final(self).pending_events() == old(self).pending_events(),
            final(self).pending_acl() == old(self).pending_acl(),
            final(self).spec_state() == old(self).spec_state(),
            final(self).spec_config() == old(self).spec_config(),
    {
        proof {
            self.handed@ = self.handed@.push(command_view(*command));
        }
        if self.state == TransportState::Closed {
            return Err(not_connected_error());
        }
        self.sent_commands.push(command.clone());
        assert(self.sent_commands() =~= old(self).sent_commands().push(command_view(*command)));
        Ok(())
    }

    /// Hands out the oldest injected event, `None` when there is none;
    /// fails when the transport is closed.
    fn recv_event(&mut self) -> (r: Result<Option<HciEvent>, std::io::Error>)
        ensures
            r.is_err() == (old(self).spec_state() == TransportState::Closed),
            match r {
                Err(_) => final(self).pending_events() == old(self).pending_events(),
                Ok(None) => old(self).pending_events().len() == 0 && final(self).pending_events()
                    == old(self).pending_events(),
                Ok(Some(e)) => old(self).pending_events().len() > 0 && event_view(e) == old(
                    self,
                ).pending_events()[0] && final(self).pending_events() == old(
                    self,
                ).pending_events().drop_first(),
            },
            final(self).sent_commands() == old(self).sent_commands(),
            final(self).sent_acl() == old(self).sent_acl(),
            final(self).pending_acl() == old(self).pending_acl(),
            final(self).spec_state() == old(self).spec_state(),
            final(self).spec_config() == old(self).spec_config(),
    {
        let r = if self.state == TransportState::Closed {
            Err(not_connected_error())
        } else if self.pending_events.len() == 0 {
            Ok(None)
        } else {
            let e = self.pending_events.remove(0);
            assert(self.pending_events() =~= old(self).pending_events().drop_first());
            Ok(Some(e))
        };
        proof {
            self.received@ = self.received@.push(received_answer(r));
        }
        r
    }

    /// Queues a copy of the ACL packet; fails when the transport is closed.
    fn send_acl(&mut self, acl: &HciAcl) -> (r: Result<(), std::io::Error>)
        ensures
            r.is_err() == (old(self).spec_state() == TransportState::Closed),
            final(self).sent_acl() == if r.is_ok() {
                old(self).sent_acl().push(acl_view(*acl))
            } else {
                old(self).sent_acl()
            },
            final(self).sent_commands() == old(self).sent_commands(),
            final(self).pending_events() == old(self).pending_events(),
            final(self).pending_acl() == old(self).pending_acl(),
            final(self).spec_state() == old(self).spec_state(),
            final(self).spec_config() == old(self).spec_config(),
    {
        if self.state == TransportState::Closed {
            return Err(not_connected_error());
        }
        self.sent_acl.push(acl.clone());
        assert(self.sent_acl() =~= old(self).sent_acl().push(acl_view(*acl)));
        Ok(())
    }

    /// Hands out the oldest injected ACL packet, `None` when there is none;
    /// fails when the transport is closed.
    fn recv_acl(&mut self) -> (r: Result<Option<HciAcl>, std::io::Error>)
        ensures
            r.is_err() == (old(self).spec_state() == TransportState::Closed),
            match r {
                Err(_) => final(self).pending_acl() == old(self).pending_acl(),
                Ok(None) => old(self).pending_acl().len() == 0 && final(self).pending_acl() == old(
                    self,
                ).pending_acl(),
                Ok(Some(a)) => old(self).pending_acl().len() > 0 && acl_view(a) == old(
                    self,
                ).pending_acl()[0] && final(self).pending_acl() == old(
                    self,
                ).pending_acl().drop_first(),
            },
            final(self).sent_commands() == old(self).sent_commands(),
            final(self).sent_acl() == old(self).sent_acl(),
            final(self).pending_events() == old(self).pending_events(),
            final(self).spec_state() == old(self).spec_state(),
            final(self).spec_config() == old(self).spec_config(),
    {
        if self.state == TransportState::Closed {
            return Err(not_connected_error());
        }
        if self.pending_acl.len() == 0 {
            Ok(None)
        } else {
            let a = self.pending_acl.remove(0);
            assert(self.pending_acl() =~= old(self).pending_acl().drop_first());
            Ok(Some(a))
        }
    }

    fn state(&self) -> (r: TransportState)
        ensures
            r == self.spec_state(),
    {
        self.state
    }

    /// Closes the transport; queued packets stay where they are.
    fn close(&mut self) -> (r: Result<(), std::io::Error>)
        ensures
            r.is_ok(),
            final(self).spec_state() == TransportState::Closed,
            final(self).sent_commands() == old(self).sent_commands(),
            final(self).sent_acl() == old(self).sent_acl(),
            final(self).pending_events() == old(self).pending_events(),
            final(self).pending_acl() == old(self).pending_acl(),
            final(self).spec_config() == old(self).spec_config(),
    {
        self.state = TransportState::Closed;
        Ok(())
    }
}

/// The queue of sent commands after sending `cmds` one by one: each send
/// on an open transport queues its command, each on a closed one fails and
/// queues nothing (sending does not open or close the transport).
pub open spec fn queue_after_sends(
    queue: Seq<(u16, Seq<u8>)>,
    open: bool,
    cmds: Seq<(u16, Seq<u8>)>,
) -> Seq<(u16, Seq<u8>)>
    decreases cmds.len(),
{
    if cmds.len() == 0 {
        queue
    } else {
        queue_after_sends(
            if open {
                queue.push(cmds[0])
            } else {
                queue
            },
            open,
            cmds.drop_first(),
        )
    }
}

/// Commands sent on an open transport queue up in the order they were
/// sent, after those already queued; on a closed one none do.
pub proof fn lemma_sends_queue_in_order(
    queue: Seq<(u16, Seq<u8>)>,
    open: bool,
    cmds: Seq<(u16, Seq<u8>)>,
)
    ensures
        queue_after_sends(queue, open, cmds) == if open {
            queue + cmds
        } else {
            queue
        },
    decreases cmds.len(),
{
    if cmds.len() > 0 {
        let next = if open {
            queue.push(cmds[0])
        } else {
            queue
        };
        lemma_sends_queue_in_order(next, open, cmds.drop_first());
        if open {
            assert(queue.push(cmds[0]) + cmds.drop_first() =~= queue + cmds);
        }
    }
}

/// What `n` receives on an open transport give, from the pending events:
/// the oldest each time, or nothing once none is left.
pub open spec fn receive_all(pending: Seq<(u8, Seq<u8>)>, n: nat) -> Seq<Option<(u8, Seq<u8>)>>
    decreases n,
{
    if n == 0 {
        Seq::empty()
    } else if pending.len() == 0 {
        seq![None].add(receive_all(pending, (n - 1) as nat))
    } else {
        seq![Some(pending[0])].add(receive_all(pending.drop_first(), (n - 1) as nat))
    }
}

/// Receiving from pending events gives each of them once, oldest first,
/// and then nothing: none is lost, repeated or reordered.
pub proof fn lemma_receive_in_order(pending: Seq<(u8, Seq<u8>)>)
    ensures
        receive_all(pending, pending.len() + 1) == pending.map_values(
            |e: (u8, Seq<u8>)| Some(e),
        ).push(None),
    decreases pending.len(),
{
    if pending.len() == 0 {
        assert(receive_all(pending, 0) =~= Seq::empty());
        assert(receive_all(pending, 1) =~= seq![None]);
        assert(pending.map_values(|e: (u8, Seq<u8>)| Some(e)).push(None) =~= seq![None]);
    } else {
        let rest = pending.drop_first();
        lemma_receive_in_order(rest);
        assert(rest.len() + 1 == (pending.len() + 1 - 1) as nat);
        assert(receive_all(pending, pending.len() + 1) == seq![Some(pending[0])].add(
            receive_all(rest, rest.len() + 1),
        ));
        assert(pending.map_values(|e: (u8, Seq<u8>)| Some(e)).push(None) =~= seq![
            Some(pending[0]),
        ].add(rest.map_values(|e: (u8, Seq<u8>)| Some(e)).push(None)));
    }
}

/// An event injected behind others is received after all of them, and
/// then nothing is left.
pub proof fn lemma_inject_then_receive(pending: Seq<(u8, Seq<u8>)>, e: (u8, Seq<u8>))
    ensures
        receive_all(pending.push(e), pending.len() + 2) == pending.map_values(
            |x: (u8, Seq<u8>)| Some(x),
        ).push(Some(e)).push(None),
{
    lemma_receive_in_order(pending.push(e));
    assert(pending.push(e).map_values(|x: (u8, Seq<u8>)| Some(x)) =~= pending.map_values(
        |x: (u8, Seq<u8>)| Some(x),
    ).push(Some(e)));
}

} // verus!
