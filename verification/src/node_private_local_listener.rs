//! The local private channel: its configuration, frames, connections and socket rules.

use vstd::prelude::*;

use crate::identity::{NodeId, TimeSpan};
use crate::node_pairing_tls::{announced, frame, NativeErrorKind};
use crate::node_private_local_clock::{
    answers, calls_of, clock_shown, clock_world, lemma_answers_earlier, lemma_event_added,
    lemma_prefixes_joined, lemma_script_answers, remaining_duration, script_of, spans_started,
    time_before, LocalClockCall, LocalClockEvent, LocalClockScript, LocalClockWorld,
    NodePrivateLocalClock, StoppedClock, SystemLocalClock,
};
use crate::node_private_remote_client::NODE_PRIVATE_MAX_DOCUMENT_BYTES;
use crate::path::{absolute, UnixPath};
use crate::sequence::outcome;
use crate::text::{
    append_be_bytes, be_bytes, be_number_32, lemma_be_bytes_length, lemma_be_number_bytes,
    lemma_be_round_trip, pow256,
};

verus! {

/// The bytes before each document.
pub const NODE_PRIVATE_LOCAL_FRAME_HEADER_BYTES: usize = 4;

/// The most connection workers.
pub const MAX_WORKERS: usize = 64;

/// The longest read or write timeout in nanoseconds.
pub const MAX_TIMEOUT_NANOSECONDS: u128 = 60000000000;

/// The longest delay between two accept attempts in nanoseconds.
pub const MAX_ACCEPT_POLL_NANOSECONDS: u128 = 1000000000;

/// Describes one invalid local listener configuration before native resources are acquired.
#[derive(Clone, Copy, Debug, PartialEq, Eq, Structural)]
pub enum NodePrivateLocalServerConfigurationError {
    RelativeSocketPath,
    InvalidWorkerBound,
    InvalidReadTimeout,
    InvalidWriteTimeout,
    InvalidAcceptPollInterval,
}

impl NodePrivateLocalServerConfigurationError {
    /// The fixed text of the failure.
    pub open spec fn text(self) -> Seq<char> {
        match self {
            NodePrivateLocalServerConfigurationError::RelativeSocketPath => {
                "the private Node socket path must be absolute"@
            },
            NodePrivateLocalServerConfigurationError::InvalidWorkerBound => {
                "the private Node worker bound must be between 1 and 64"@
            },
            NodePrivateLocalServerConfigurationError::InvalidReadTimeout => {
                "the private Node read timeout must be positive and at most 60 seconds"@
            },
            NodePrivateLocalServerConfigurationError::InvalidWriteTimeout => {
                "the private Node write timeout must be positive and at most 60 seconds"@
            },
            NodePrivateLocalServerConfigurationError::InvalidAcceptPollInterval => {
                "the private Node accept poll interval must be positive and at most one second"@
            },
        }
    }

    /// Presents the exact invalid configuration boundary without platform error text.
    pub fn message(&self) -> (text: &'static str)
        ensures
            text@ == self.text(),
    {
        match self {
            NodePrivateLocalServerConfigurationError::RelativeSocketPath => {
                "the private Node socket path must be absolute"
            },
            NodePrivateLocalServerConfigurationError::InvalidWorkerBound => {
                "the private Node worker bound must be between 1 and 64"
            },
            NodePrivateLocalServerConfigurationError::InvalidReadTimeout => {
                "the private Node read timeout must be positive and at most 60 seconds"
            },
            NodePrivateLocalServerConfigurationError::InvalidWriteTimeout => {
                "the private Node write timeout must be positive and at most 60 seconds"
            },
            NodePrivateLocalServerConfigurationError::InvalidAcceptPollInterval => {
                "the private Node accept poll interval must be positive and at most one second"
            },
        }
    }
}

/// Holds immutable owner, path, timeout, and concurrency bounds for one local listener.
pub struct NodePrivateLocalServerConfiguration {
    socket_path: UnixPath,
    owner_uid: u32,
    maximum_workers: usize,
    read_timeout: TimeSpan,
    write_timeout: TimeSpan,
    accept_poll_interval: TimeSpan,
}

/// What one [`NodePrivateLocalServerConfiguration`] holds.
pub struct NodePrivateLocalServerConfigurationView {
    pub socket_path: Seq<u8>,
    pub owner_uid: u32,
    pub maximum_workers: usize,
    pub read_timeout: TimeSpan,
    pub write_timeout: TimeSpan,
    pub accept_poll_interval: TimeSpan,
}

impl View for NodePrivateLocalServerConfiguration {
    type V = NodePrivateLocalServerConfigurationView;

    closed spec fn view(&self) -> NodePrivateLocalServerConfigurationView {
        NodePrivateLocalServerConfigurationView {
            socket_path: self.socket_path@,
            owner_uid: self.owner_uid,
            maximum_workers: self.maximum_workers,
            read_timeout: self.read_timeout,
            write_timeout: self.write_timeout,
            accept_poll_interval: self.accept_poll_interval,
        }
    }
}

/// A positive timeout within the fixed native bound.
pub open spec fn native_timeout(timeout: TimeSpan) -> bool {
    0 < timeout.nanoseconds <= MAX_TIMEOUT_NANOSECONDS
}

/// Validates one positive timeout against the fixed native upper bound.
fn validate_timeout(timeout: TimeSpan) -> (valid: bool)
    ensures
        valid == native_timeout(timeout),
{
    timeout.nanoseconds > 0 && timeout.nanoseconds <= MAX_TIMEOUT_NANOSECONDS
}

/// What one configuration gives: the first bound that is broken, in the order of the fields.
pub open spec fn configuration_checked(
    configuration: NodePrivateLocalServerConfigurationView,
) -> Result<
    NodePrivateLocalServerConfigurationView,
    NodePrivateLocalServerConfigurationError,
> {
    if !absolute(configuration.socket_path) {
        Err(NodePrivateLocalServerConfigurationError::RelativeSocketPath)
    } else if configuration.maximum_workers == 0 || configuration.maximum_workers > MAX_WORKERS {
        Err(NodePrivateLocalServerConfigurationError::InvalidWorkerBound)
    } else if !native_timeout(configuration.read_timeout) {
        Err(NodePrivateLocalServerConfigurationError::InvalidReadTimeout)
    } else if !native_timeout(configuration.write_timeout) {
        Err(NodePrivateLocalServerConfigurationError::InvalidWriteTimeout)
    } else if configuration.accept_poll_interval.nanoseconds == 0
        || configuration.accept_poll_interval.nanoseconds > MAX_ACCEPT_POLL_NANOSECONDS {
        Err(NodePrivateLocalServerConfigurationError::InvalidAcceptPollInterval)
    } else {
        Ok(configuration)
    }
}

impl NodePrivateLocalServerConfiguration {
    #[verifier::type_invariant]
    closed spec fn is_bounded(self) -> bool {
        configuration_checked(self@) is Ok
    }

    /// Creates one server configuration only after every native bound is closed.
    pub fn new(
        socket_path: UnixPath,
        owner_uid: u32,
        maximum_workers: usize,
        read_timeout: TimeSpan,
        write_timeout: TimeSpan,
        accept_poll_interval: TimeSpan,
    ) -> (result: Result<Self, NodePrivateLocalServerConfigurationError>)
        ensures
            outcome(result) == configuration_checked(
                NodePrivateLocalServerConfigurationView {
                    socket_path: socket_path@,
                    owner_uid,
                    maximum_workers,
                    read_timeout,
                    write_timeout,
                    accept_poll_interval,
                },
            ),
    {
        if !socket_path.is_absolute() {
            return Err(NodePrivateLocalServerConfigurationError::RelativeSocketPath);
        }
        if maximum_workers == 0 || maximum_workers > MAX_WORKERS {
            return Err(NodePrivateLocalServerConfigurationError::InvalidWorkerBound);
        }
        if !validate_timeout(read_timeout) {
            return Err(NodePrivateLocalServerConfigurationError::InvalidReadTimeout);
        }
        if !validate_timeout(write_timeout) {
            return Err(NodePrivateLocalServerConfigurationError::InvalidWriteTimeout);
        }
        if accept_poll_interval.nanoseconds == 0 || accept_poll_interval.nanoseconds
            > MAX_ACCEPT_POLL_NANOSECONDS {
            return Err(NodePrivateLocalServerConfigurationError::InvalidAcceptPollInterval);
        }
        Ok(
            NodePrivateLocalServerConfiguration {
                socket_path,
                owner_uid,
                maximum_workers,
                read_timeout,
                write_timeout,
                accept_poll_interval,
            },
        )
    }

    /// Returns the exact absolute socket path owned by this server lifecycle.
    pub fn socket_path(&self) -> (path: &UnixPath)
        ensures
            path@ == self@.socket_path,
            absolute(self@.socket_path),
    {
        proof {
            use_type_invariant(self);
        }
        &self.socket_path
    }

    /// Returns the effective user identity permitted to own the socket.
    pub fn owner_uid(&self) -> (uid: u32)
        ensures
            uid == self@.owner_uid,
    {
        self.owner_uid
    }

    /// Returns the maximum number of concurrently active connection workers.
    pub fn maximum_workers(&self) -> (workers: usize)
        ensures
            workers == self@.maximum_workers,
            0 < workers <= MAX_WORKERS,
    {
        proof {
            use_type_invariant(self);
        }
        self.maximum_workers
    }

    /// Returns the complete-frame read timeout applied to every accepted stream.
    pub fn read_timeout(&self) -> (timeout: TimeSpan)
        ensures
            timeout == self@.read_timeout,
            native_timeout(timeout),
    {
        proof {
            use_type_invariant(self);
        }
        self.read_timeout
    }

    /// Returns the complete-frame write timeout applied to every accepted stream.
    pub fn write_timeout(&self) -> (timeout: TimeSpan)
        ensures
            timeout == self@.write_timeout,
            native_timeout(timeout),
    {
        proof {
            use_type_invariant(self);
        }
        self.write_timeout
    }

    /// Returns the bounded delay between nonblocking accept attempts.
    pub fn accept_poll_interval(&self) -> (interval: TimeSpan)
        ensures
            interval == self@.accept_poll_interval,
            0 < interval.nanoseconds <= MAX_ACCEPT_POLL_NANOSECONDS,
    {
        proof {
            use_type_invariant(self);
        }
        self.accept_poll_interval
    }
}

// ---------------------------------------------------------------------------
// Streams
// ---------------------------------------------------------------------------

/// Names closed native stream failures without retaining operating-system messages.
#[derive(Clone, Copy, Debug, PartialEq, Eq, Structural)]
pub enum NodePrivateLocalIoError {
    TimedOut,
    Interrupted,
    Unavailable,
}

/// One call on a stream, with everything that was handed over.
pub enum LocalStreamCall {
    PeerUid,
    SetReadTimeout { timeout: TimeSpan },
    SetWriteTimeout { timeout: TimeSpan },
    Read { length: nat },
    Write { bytes: Seq<u8> },
    Close,
}

/// Everything that a stream will answer at each position of its trace. A read answers with a count
/// and the bytes that it left in the buffer.
pub struct LocalStreamScript {
    pub peer_uid: spec_fn(nat) -> Result<u32, NodePrivateLocalIoError>,
    pub read_timeout: spec_fn(nat) -> Result<(), NodePrivateLocalIoError>,
    pub write_timeout: spec_fn(nat) -> Result<(), NodePrivateLocalIoError>,
    pub read: spec_fn(nat, nat) -> Result<(usize, Seq<u8>), NodePrivateLocalIoError>,
    pub write: spec_fn(nat, Seq<u8>) -> Result<usize, NodePrivateLocalIoError>,
    pub close: spec_fn(nat) -> Result<(), NodePrivateLocalIoError>,
}

/// A stream: what it will answer, which calls were made, and how often it may still be interrupted.
pub struct LocalStreamWorld {
    pub script: LocalStreamScript,
    pub calls: Seq<LocalStreamCall>,
    pub patience: nat,
}

impl LocalStreamWorld {
    /// The stream after one more call.
    pub open spec fn after(self, call: LocalStreamCall) -> LocalStreamWorld {
        LocalStreamWorld {
            script: self.script,
            calls: self.calls.push(call),
            patience: self.patience,
        }
    }

    /// The stream after one more call that was interrupted or not.
    pub open spec fn after_fragment(
        self,
        call: LocalStreamCall,
        interrupted: bool,
    ) -> LocalStreamWorld {
        LocalStreamWorld {
            script: self.script,
            calls: self.calls.push(call),
            patience: if interrupted && self.patience > 0 {
                (self.patience - 1) as nat
            } else {
                self.patience
            },
        }
    }

    /// What the next read of `length` bytes answers.
    pub open spec fn read_reply(self, length: nat) -> Result<
        (usize, Seq<u8>),
        NodePrivateLocalIoError,
    > {
        (self.script.read)(self.calls.len(), length)
    }

    /// What the next write of `bytes` answers.
    pub open spec fn write_reply(self, bytes: Seq<u8>) -> Result<usize, NodePrivateLocalIoError> {
        (self.script.write)(self.calls.len(), bytes)
    }

    /// The stream after the next read.
    pub open spec fn after_read(self, length: nat) -> LocalStreamWorld {
        self.after_fragment(
            LocalStreamCall::Read { length },
            self.read_reply(length) == Err::<(usize, Seq<u8>), NodePrivateLocalIoError>(
                NodePrivateLocalIoError::Interrupted,
            ),
        )
    }

    /// The stream after the next write.
    pub open spec fn after_write(self, bytes: Seq<u8>) -> LocalStreamWorld {
        self.after_fragment(
            LocalStreamCall::Write { bytes },
            self.write_reply(bytes) == Err::<usize, NodePrivateLocalIoError>(
                NodePrivateLocalIoError::Interrupted,
            ),
        )
    }
}

/// Supplies only the stream capabilities required by one local framed exchange. A stream is
/// interrupted finitely often.
pub trait NodePrivateLocalStream {
    /// The answers that are still to come and the calls that were made.
    spec fn world(&self) -> LocalStreamWorld;

    /// Returns the authenticated operating-system user identity of the connected peer.
    fn peer_uid(&mut self) -> (reply: Result<u32, NodePrivateLocalIoError>)
        ensures
            final(self).world() == old(self).world().after(LocalStreamCall::PeerUid),
            reply == (old(self).world().script.peer_uid)(old(self).world().calls.len()),
    ;

    /// Applies the exact bounded timeout before any request bytes are read.
    fn set_read_timeout(&mut self, timeout: TimeSpan) -> (reply: Result<
        (),
        NodePrivateLocalIoError,
    >)
        ensures
            final(self).world() == old(self).world().after(
                LocalStreamCall::SetReadTimeout { timeout },
            ),
            reply == (old(self).world().script.read_timeout)(old(self).world().calls.len()),
    ;

    /// Applies the exact bounded timeout before any response bytes are written.
    fn set_write_timeout(&mut self, timeout: TimeSpan) -> (reply: Result<
        (),
        NodePrivateLocalIoError,
    >)
        ensures
            final(self).world() == old(self).world().after(
                LocalStreamCall::SetWriteTimeout { timeout },
            ),
            reply == (old(self).world().script.write_timeout)(old(self).world().calls.len()),
    ;

    /// Reads available bytes without implying complete-frame progress.
    fn read_bytes(&mut self, buffer: &mut [u8]) -> (reply: Result<usize, NodePrivateLocalIoError>)
        ensures
            final(self).world() == old(self).world().after_read(old(buffer)@.len()),
            final(buffer)@.len() == old(buffer)@.len(),
            match old(self).world().read_reply(old(buffer)@.len()) {
                Ok((count, bytes)) => {
                    &&& reply == Ok::<usize, NodePrivateLocalIoError>(count)
                    &&& count <= old(buffer)@.len() ==> final(buffer)@.take(count as int) == bytes
                },
                Err(error) => {
                    &&& reply == Err::<usize, NodePrivateLocalIoError>(error)
                    &&& error == NodePrivateLocalIoError::Interrupted ==> old(
                        self,
                    ).world().patience > 0
                },
            },
    ;

    /// Writes available bytes without implying complete-frame progress.
    fn write_bytes(&mut self, buffer: &[u8]) -> (reply: Result<usize, NodePrivateLocalIoError>)
        ensures
            final(self).world() == old(self).world().after_write(buffer@),
            reply == old(self).world().write_reply(buffer@),
            reply == Err::<usize, NodePrivateLocalIoError>(NodePrivateLocalIoError::Interrupted)
                ==> old(self).world().patience > 0,
    ;

    /// Closes both directions of this one-request connection.
    fn close(&mut self) -> (reply: Result<(), NodePrivateLocalIoError>)
        ensures
            final(self).world() == old(self).world().after(LocalStreamCall::Close),
            reply == (old(self).world().script.close)(old(self).world().calls.len()),
    ;
}

/// Describes one invalid or incomplete fixed-header local frame.
#[derive(Clone, Copy, Debug, PartialEq, Eq, Structural)]
pub enum NodePrivateLocalFrameError {
    TimedOut,
    Unavailable,
    Truncated,
    EmptyDocument,
    OversizedDocument,
    ZeroProgress,
}

impl NodePrivateLocalFrameError {
    /// The fixed text of the failure.
    pub open spec fn text(self) -> Seq<char> {
        match self {
            NodePrivateLocalFrameError::TimedOut => "the private Node frame timed out"@,
            NodePrivateLocalFrameError::Unavailable => "the private Node frame I/O failed"@,
            NodePrivateLocalFrameError::Truncated => "the private Node frame is truncated"@,
            NodePrivateLocalFrameError::EmptyDocument => "the private Node frame is empty"@,
            NodePrivateLocalFrameError::OversizedDocument => "the private Node frame is oversized"@,
            NodePrivateLocalFrameError::ZeroProgress => "the private Node frame made no progress"@,
        }
    }

    /// Presents stable frame failures without copying untrusted payload bytes.
    pub fn message(&self) -> (text: &'static str)
        ensures
            text@ == self.text(),
    {
        match self {
            NodePrivateLocalFrameError::TimedOut => "the private Node frame timed out",
            NodePrivateLocalFrameError::Unavailable => "the private Node frame I/O failed",
            NodePrivateLocalFrameError::Truncated => "the private Node frame is truncated",
            NodePrivateLocalFrameError::EmptyDocument => "the private Node frame is empty",
            NodePrivateLocalFrameError::OversizedDocument => "the private Node frame is oversized",
            NodePrivateLocalFrameError::ZeroProgress => "the private Node frame made no progress",
        }
    }
}

// ---------------------------------------------------------------------------
// Frames
// ---------------------------------------------------------------------------

/// The limit of one whole frame: its deadline, and the clock that is asked before each fragment.
pub struct FrameLimit {
    pub deadline: u128,
    pub clock: LocalClockWorld,
}

impl FrameLimit {
    /// The limit after the clock was asked once more.
    pub open spec fn asked(self) -> FrameLimit {
        FrameLimit { deadline: self.deadline, clock: self.clock.after(LocalClockCall::Read) }
    }

    /// The positive time that is left now.
    pub open spec fn left(self) -> Option<TimeSpan> {
        time_before(self.deadline, self.clock.moment())
    }
}

/// The limit of one frame, if it has a deadline.
pub open spec fn limit(deadline: Option<u128>, clock: LocalClockWorld) -> Option<FrameLimit> {
    match deadline {
        Some(deadline) => Some(FrameLimit { deadline, clock }),
        None => None,
    }
}

/// Shortens the read timeout to what is left of the frame's limit.
pub open spec fn read_limited(world: LocalStreamWorld, limit: Option<FrameLimit>) -> (
    LocalStreamWorld,
    Option<FrameLimit>,
    Result<(), NodePrivateLocalFrameError>,
) {
    match limit {
        None => (world, None, Ok(())),
        Some(limit) => match limit.left() {
            None => (world, Some(limit.asked()), Err(NodePrivateLocalFrameError::TimedOut)),
            Some(timeout) => (
                world.after(LocalStreamCall::SetReadTimeout { timeout }),
                Some(limit.asked()),
                match (world.script.read_timeout)(world.calls.len()) {
                    Ok(()) => Ok(()),
                    Err(_) => Err(NodePrivateLocalFrameError::Unavailable),
                },
            ),
        },
    }
}

/// Shortens the write timeout to what is left of the frame's limit.
pub open spec fn write_limited(world: LocalStreamWorld, limit: Option<FrameLimit>) -> (
    LocalStreamWorld,
    Option<FrameLimit>,
    Result<(), NodePrivateLocalFrameError>,
) {
    match limit {
        None => (world, None, Ok(())),
        Some(limit) => match limit.left() {
            None => (world, Some(limit.asked()), Err(NodePrivateLocalFrameError::TimedOut)),
            Some(timeout) => (
                world.after(LocalStreamCall::SetWriteTimeout { timeout }),
                Some(limit.asked()),
                match (world.script.write_timeout)(world.calls.len()) {
                    Ok(()) => Ok(()),
                    Err(_) => Err(NodePrivateLocalFrameError::Unavailable),
                },
            ),
        },
    }
}

/// Reads exactly `need` more bytes across fragments and interruptions.
pub open spec fn exactly_read(
    world: LocalStreamWorld,
    need: nat,
    got: Seq<u8>,
    limit: Option<FrameLimit>,
) -> (LocalStreamWorld, Option<FrameLimit>, Result<Seq<u8>, NodePrivateLocalFrameError>)
    decreases need, world.patience,
{
    if need == 0 {
        (world, limit, Ok(got))
    } else {
        let limited = read_limited(world, limit);
        match limited.2 {
            Err(error) => (limited.0, limited.1, Err(error)),
            Ok(()) => {
                let next = limited.0.after_read(need);
                match limited.0.read_reply(need) {
                    Ok((count, bytes)) => if count == 0 {
                        (next, limited.1, Err(NodePrivateLocalFrameError::Truncated))
                    } else if count <= need {
                        exactly_read(next, (need - count) as nat, got + bytes, limited.1)
                    } else {
                        (next, limited.1, Err(NodePrivateLocalFrameError::Unavailable))
                    },
                    Err(NodePrivateLocalIoError::Interrupted) => if world.patience == 0 {
                        (next, limited.1, Err(NodePrivateLocalFrameError::Unavailable))
                    } else {
                        exactly_read(next, need, got, limited.1)
                    },
                    Err(NodePrivateLocalIoError::TimedOut) => (
                        next,
                        limited.1,
                        Err(NodePrivateLocalFrameError::TimedOut),
                    ),
                    Err(NodePrivateLocalIoError::Unavailable) => (
                        next,
                        limited.1,
                        Err(NodePrivateLocalFrameError::Unavailable),
                    ),
                }
            },
        }
    }
}

/// Writes every byte across fragments and interruptions.
pub open spec fn exactly_written(
    world: LocalStreamWorld,
    rest: Seq<u8>,
    limit: Option<FrameLimit>,
) -> (LocalStreamWorld, Option<FrameLimit>, Result<(), NodePrivateLocalFrameError>)
    decreases rest.len(), world.patience,
{
    if rest.len() == 0 {
        (world, limit, Ok(()))
    } else {
        let limited = write_limited(world, limit);
        match limited.2 {
            Err(error) => (limited.0, limited.1, Err(error)),
            Ok(()) => {
                let next = limited.0.after_write(rest);
                match limited.0.write_reply(rest) {
                    Ok(count) => if count == 0 {
                        (next, limited.1, Err(NodePrivateLocalFrameError::ZeroProgress))
                    } else if count <= rest.len() {
                        exactly_written(next, rest.skip(count as int), limited.1)
                    } else {
                        (next, limited.1, Err(NodePrivateLocalFrameError::Unavailable))
                    },
                    Err(NodePrivateLocalIoError::Interrupted) => if world.patience == 0 {
                        (next, limited.1, Err(NodePrivateLocalFrameError::Unavailable))
                    } else {
                        exactly_written(next, rest, limited.1)
                    },
                    Err(NodePrivateLocalIoError::TimedOut) => (
                        next,
                        limited.1,
                        Err(NodePrivateLocalFrameError::TimedOut),
                    ),
                    Err(NodePrivateLocalIoError::Unavailable) => (
                        next,
                        limited.1,
                        Err(NodePrivateLocalFrameError::Unavailable),
                    ),
                }
            },
        }
    }
}

/// Reads one frame: the header, then exactly the document that it announces.
pub open spec fn frame_read(world: LocalStreamWorld, limit: Option<FrameLimit>) -> (
    LocalStreamWorld,
    Option<FrameLimit>,
    Result<Seq<u8>, NodePrivateLocalFrameError>,
) {
    let header = exactly_read(world, 4, Seq::empty(), limit);
    match header.2 {
        Err(error) => (header.0, header.1, Err(error)),
        Ok(bytes) => if announced(bytes) == 0 {
            (header.0, header.1, Err(NodePrivateLocalFrameError::EmptyDocument))
        } else if announced(bytes) > NODE_PRIVATE_MAX_DOCUMENT_BYTES {
            (header.0, header.1, Err(NodePrivateLocalFrameError::OversizedDocument))
        } else {
            exactly_read(header.0, announced(bytes), Seq::empty(), header.1)
        },
    }
}

/// Writes one frame: the header, then the document.
pub open spec fn frame_written(
    world: LocalStreamWorld,
    document: Seq<u8>,
    limit: Option<FrameLimit>,
) -> (LocalStreamWorld, Option<FrameLimit>, Result<(), NodePrivateLocalFrameError>) {
    if document.len() == 0 {
        (world, limit, Err(NodePrivateLocalFrameError::EmptyDocument))
    } else if document.len() > NODE_PRIVATE_MAX_DOCUMENT_BYTES {
        (world, limit, Err(NodePrivateLocalFrameError::OversizedDocument))
    } else {
        let header = exactly_written(world, be_bytes(document.len(), 4), limit);
        match header.2 {
            Err(error) => (header.0, header.1, Err(error)),
            Ok(()) => exactly_written(header.0, document, header.1),
        }
    }
}

/// One outcome of bytes by view.
pub open spec fn outcome_frame(result: Result<Vec<u8>, NodePrivateLocalFrameError>) -> Result<
    Seq<u8>,
    NodePrivateLocalFrameError,
> {
    match result {
        Ok(bytes) => Ok(bytes@),
        Err(error) => Err(error),
    }
}

/// Asks the clock once and returns the positive time before one deadline.
fn time_left<C: NodePrivateLocalClock>(clock: &mut C, deadline: u128) -> (left: Option<TimeSpan>)
    ensures
        old(clock).trace().is_prefix_of(final(clock).trace()),
        forall|script: LocalClockScript| #[trigger]
            answers(script, final(clock).trace()) ==> {
                let before = FrameLimit {
                    deadline,
                    clock: clock_world(script, old(clock).trace()),
                };
                let after = FrameLimit {
                    deadline,
                    clock: clock_world(script, final(clock).trace()),
                };
                &&& answers(script, old(clock).trace())
                &&& left == before.left()
                &&& after == before.asked()
            },
{
    let ghost earlier = clock.trace();
    let now: u128 = clock.now();
    proof {
        lemma_event_added(
            earlier,
            LocalClockEvent { call: LocalClockCall::Read, now, counted: true },
        );
    }
    remaining_duration(deadline, now)
}

/// Reads exactly the requested byte count across fragmentation and retryable interruption.
#[verifier::loop_isolation(false)]
fn read_exact<S: NodePrivateLocalStream, C: NodePrivateLocalClock>(
    stream: &mut S,
    count: usize,
    deadline: Option<u128>,
    clock: &mut C,
) -> (result: Result<Vec<u8>, NodePrivateLocalFrameError>)
    ensures
        old(clock).trace().is_prefix_of(final(clock).trace()),
        forall|script: LocalClockScript| #[trigger]
            answers(script, final(clock).trace()) ==> (
                final(stream).world(),
                limit(deadline, clock_world(script, final(clock).trace())),
                outcome_frame(result),
            ) == exactly_read(
                old(stream).world(),
                count as nat,
                Seq::empty(),
                limit(deadline, clock_world(script, old(clock).trace())),
            ),
        result matches Ok(bytes) ==> bytes@.len() == count,
{
    let ghost start = stream.world();
    let ghost begun = clock.trace();
    let mut buffer: Vec<u8> = vec![0; count];
    let mut done: usize = 0;
    assert(buffer@.take(0) =~= Seq::empty());
    while done < count
        invariant
            done <= count == buffer@.len(),
            begun.is_prefix_of(clock.trace()),
            forall|script: LocalClockScript| #[trigger]
                answers(script, clock.trace()) ==> exactly_read(
                    start,
                    count as nat,
                    Seq::empty(),
                    limit(deadline, clock_world(script, begun)),
                ) == exactly_read(
                    stream.world(),
                    (count - done) as nat,
                    buffer@.take(done as int),
                    limit(deadline, clock_world(script, clock.trace())),
                ),
        decreases count - done, stream.world().patience,
    {
        let ghost world = stream.world();
        let ghost need = (count - done) as nat;
        let ghost got = buffer@.take(done as int);
        match deadline {
            Some(deadline) => {
                let ghost earlier = clock.trace();
                let left = time_left(clock, deadline);
                proof {
                    lemma_prefixes_joined(begun, earlier, clock.trace());
                }
                let timeout = match left {
                    Some(left) => left,
                    None => {
                        return Err(NodePrivateLocalFrameError::TimedOut);
                    },
                };
                match stream.set_read_timeout(timeout) {
                    Ok(()) => {},
                    Err(_) => {
                        return Err(NodePrivateLocalFrameError::Unavailable);
                    },
                }
            },
            None => {},
        }
        let ghost limited = stream.world();
        let (_, remaining) = buffer.as_mut_slice().split_at_mut(done);
        let reply = stream.read_bytes(remaining);
        match reply {
            Ok(read) => {
                if read == 0 {
                    return Err(NodePrivateLocalFrameError::Truncated);
                }
                if read > count - done {
                    return Err(NodePrivateLocalFrameError::Unavailable);
                }
                let ghost bytes = limited.read_reply(need)->Ok_0.1;
                assert(buffer@.skip(done as int).take(read as int) == bytes) by {
                    assert(buffer@.skip(done as int) =~= final(remaining)@);
                }
                assert(buffer@.take(done + read) =~= got + bytes);
                done += read;
            },
            Err(NodePrivateLocalIoError::Interrupted) => {
                assert(buffer@.take(done as int) =~= got);
            },
            Err(NodePrivateLocalIoError::TimedOut) => {
                return Err(NodePrivateLocalFrameError::TimedOut);
            },
            Err(NodePrivateLocalIoError::Unavailable) => {
                return Err(NodePrivateLocalFrameError::Unavailable);
            },
        }
    }
    assert(buffer@.take(count as int) =~= buffer@);
    Ok(buffer)
}

/// Writes every byte across fragmentation and rejects a zero-progress writer.
#[verifier::loop_isolation(false)]
fn write_all<S: NodePrivateLocalStream, C: NodePrivateLocalClock>(
    stream: &mut S,
    buffer: &[u8],
    deadline: Option<u128>,
    clock: &mut C,
) -> (result: Result<(), NodePrivateLocalFrameError>)
    ensures
        old(clock).trace().is_prefix_of(final(clock).trace()),
        forall|script: LocalClockScript| #[trigger]
            answers(script, final(clock).trace()) ==> (
                final(stream).world(),
                limit(deadline, clock_world(script, final(clock).trace())),
                result,
            ) == exactly_written(
                old(stream).world(),
                buffer@,
                limit(deadline, clock_world(script, old(clock).trace())),
            ),
{
    let ghost start = stream.world();
    let ghost begun = clock.trace();
    let length: usize = buffer.len();
    let mut done: usize = 0;
    assert(buffer@.skip(0) =~= buffer@);
    while done < length
        invariant
            done <= length == buffer@.len(),
            begun.is_prefix_of(clock.trace()),
            forall|script: LocalClockScript| #[trigger]
                answers(script, clock.trace()) ==> exactly_written(
                    start,
                    buffer@,
                    limit(deadline, clock_world(script, begun)),
                ) == exactly_written(
                    stream.world(),
                    buffer@.skip(done as int),
                    limit(deadline, clock_world(script, clock.trace())),
                ),
        decreases length - done, stream.world().patience,
    {
        match deadline {
            Some(deadline) => {
                let ghost earlier = clock.trace();
                let left = time_left(clock, deadline);
                proof {
                    lemma_prefixes_joined(begun, earlier, clock.trace());
                }
                let timeout = match left {
                    Some(left) => left,
                    None => {
                        return Err(NodePrivateLocalFrameError::TimedOut);
                    },
                };
                match stream.set_write_timeout(timeout) {
                    Ok(()) => {},
                    Err(_) => {
                        return Err(NodePrivateLocalFrameError::Unavailable);
                    },
                }
            },
            None => {},
        }
        let rest = vstd::slice::slice_subrange(buffer, done, length);
        assert(rest@ =~= buffer@.skip(done as int));
        match stream.write_bytes(rest) {
            Ok(written) => {
                if written == 0 {
                    return Err(NodePrivateLocalFrameError::ZeroProgress);
                }
                if written > length - done {
                    return Err(NodePrivateLocalFrameError::Unavailable);
                }
                assert(buffer@.skip(done as int).skip(written as int) =~= buffer@.skip(
                    done + written,
                ));
                done += written;
            },
            Err(NodePrivateLocalIoError::Interrupted) => {},
            Err(NodePrivateLocalIoError::TimedOut) => {
                return Err(NodePrivateLocalFrameError::TimedOut);
            },
            Err(NodePrivateLocalIoError::Unavailable) => {
                return Err(NodePrivateLocalFrameError::Unavailable);
            },
        }
    }
    assert(buffer@.skip(length as int).len() == 0);
    Ok(())
}

/// Reads one fixed-header frame with an optional complete-frame deadline.
pub fn read_node_private_local_frame_before<
    S: NodePrivateLocalStream,
    C: NodePrivateLocalClock,
>(stream: &mut S, deadline: Option<u128>, clock: &mut C) -> (document: Result<
    Vec<u8>,
    NodePrivateLocalFrameError,
>)
    ensures
        old(clock).trace().is_prefix_of(final(clock).trace()),
        forall|script: LocalClockScript| #[trigger]
            answers(script, final(clock).trace()) ==> (
                final(stream).world(),
                limit(deadline, clock_world(script, final(clock).trace())),
                outcome_frame(document),
            ) == frame_read(
                old(stream).world(),
                limit(deadline, clock_world(script, old(clock).trace())),
            ),
        document matches Ok(document) ==> 0 < document@.len() <= NODE_PRIVATE_MAX_DOCUMENT_BYTES,
{
    let ghost begun = clock.trace();
    let header = read_exact(stream, NODE_PRIVATE_LOCAL_FRAME_HEADER_BYTES, deadline, clock);
    let header = match header {
        Ok(header) => header,
        Err(error) => {
            return Err(error);
        },
    };
    let length: usize = be_number_32(header.as_slice()) as usize;
    if length == 0 {
        return Err(NodePrivateLocalFrameError::EmptyDocument);
    }
    if length > NODE_PRIVATE_MAX_DOCUMENT_BYTES {
        return Err(NodePrivateLocalFrameError::OversizedDocument);
    }
    let ghost middle = clock.trace();
    let document = read_exact(stream, length, deadline, clock);
    proof {
        lemma_prefixes_joined(begun, middle, clock.trace());
        lemma_answers_earlier(middle, clock.trace());
    }
    document
}

/// Writes one fixed-header frame with an optional complete-frame deadline.
pub fn write_node_private_local_frame_before<
    S: NodePrivateLocalStream,
    C: NodePrivateLocalClock,
>(stream: &mut S, document: &[u8], deadline: Option<u128>, clock: &mut C) -> (result: Result<
    (),
    NodePrivateLocalFrameError,
>)
    ensures
        old(clock).trace().is_prefix_of(final(clock).trace()),
        forall|script: LocalClockScript| #[trigger]
            answers(script, final(clock).trace()) ==> (
                final(stream).world(),
                limit(deadline, clock_world(script, final(clock).trace())),
                result,
            ) == frame_written(
                old(stream).world(),
                document@,
                limit(deadline, clock_world(script, old(clock).trace())),
            ),
{
    let ghost begun = clock.trace();
    let length: usize = document.len();
    if length == 0 {
        return Err(NodePrivateLocalFrameError::EmptyDocument);
    }
    if length > NODE_PRIVATE_MAX_DOCUMENT_BYTES {
        return Err(NodePrivateLocalFrameError::OversizedDocument);
    }
    let mut header: Vec<u8> = Vec::new();
    append_be_bytes(&mut header, length as u64, 4);
    assert(header@ =~= be_bytes(document@.len(), 4));
    match write_all(stream, header.as_slice(), deadline, clock) {
        Ok(()) => {},
        Err(error) => {
            return Err(error);
        },
    }
    let ghost middle = clock.trace();
    let written = write_all(stream, document, deadline, clock);
    proof {
        lemma_prefixes_joined(begun, middle, clock.trace());
        lemma_answers_earlier(middle, clock.trace());
    }
    written
}

/// Reads one four-byte big-endian length followed by exactly one bounded document.
pub fn read_node_private_local_frame<S: NodePrivateLocalStream>(
    stream: &mut S,
) -> (document: Result<
    Vec<u8>,
    NodePrivateLocalFrameError,
>)
    ensures
        (final(stream).world(), None::<FrameLimit>, outcome_frame(document)) == frame_read(
            old(stream).world(),
            None,
        ),
        document matches Ok(document) ==> 0 < document@.len() <= NODE_PRIVATE_MAX_DOCUMENT_BYTES,
{
    let mut clock = StoppedClock::new();
    let document = read_node_private_local_frame_before(stream, None, &mut clock);
    proof {
        lemma_script_answers(clock.trace());
        assert(answers(script_of(clock.trace()), clock.trace()));
    }
    document
}

/// Writes one four-byte big-endian length followed by exactly one bounded document.
pub fn write_node_private_local_frame<S: NodePrivateLocalStream>(
    stream: &mut S,
    document: &[u8],
) -> (result: Result<(), NodePrivateLocalFrameError>)
    ensures
        (final(stream).world(), None::<FrameLimit>, result) == frame_written(
            old(stream).world(),
            document@,
            None,
        ),
{
    let mut clock = StoppedClock::new();
    let result = write_node_private_local_frame_before(stream, document, None, &mut clock);
    proof {
        lemma_script_answers(clock.trace());
        assert(answers(script_of(clock.trace()), clock.trace()));
    }
    result
}

// ---------------------------------------------------------------------------
// What moves over a stream
// ---------------------------------------------------------------------------

/// A stream whose reads leave exactly as many bytes as they report.
pub open spec fn honest(script: LocalStreamScript) -> bool {
    forall|at: nat, length: nat|
        (#[trigger] (script.read)(at, length)) matches Ok(reply) ==> reply.0 <= length
            ==> reply.1.len() == reply.0
}

/// The bytes that one call of a trace delivered.
pub open spec fn delivered_by(
    script: LocalStreamScript,
    at: nat,
    call: LocalStreamCall,
) -> Seq<u8> {
    match call {
        LocalStreamCall::Read { length } => match (script.read)(at, length) {
            Ok((count, bytes)) if count <= length => bytes,
            _ => Seq::empty(),
        },
        _ => Seq::empty(),
    }
}

/// The bytes that the reads of a trace delivered from one position on.
pub open spec fn delivered(
    script: LocalStreamScript,
    calls: Seq<LocalStreamCall>,
    from: nat,
) -> Seq<u8>
    decreases calls.len(),
{
    if calls.len() <= from {
        Seq::empty()
    } else {
        delivered(script, calls.drop_last(), from) + delivered_by(
            script,
            (calls.len() - 1) as nat,
            calls.last(),
        )
    }
}

/// The bytes that one call of a trace took.
pub open spec fn taken_by(script: LocalStreamScript, at: nat, call: LocalStreamCall) -> Seq<u8> {
    match call {
        LocalStreamCall::Write { bytes } => match (script.write)(at, bytes) {
            Ok(count) if count <= bytes.len() => bytes.take(count as int),
            _ => Seq::empty(),
        },
        _ => Seq::empty(),
    }
}

/// The bytes that the writes of a trace handed over from one position on.
pub open spec fn handed_over(
    script: LocalStreamScript,
    calls: Seq<LocalStreamCall>,
    from: nat,
) -> Seq<u8>
    decreases calls.len(),
{
    if calls.len() <= from {
        Seq::empty()
    } else {
        handed_over(script, calls.drop_last(), from) + taken_by(
            script,
            (calls.len() - 1) as nat,
            calls.last(),
        )
    }
}

proof fn lemma_delivered_joined(
    script: LocalStreamScript,
    first: Seq<LocalStreamCall>,
    all: Seq<LocalStreamCall>,
    from: nat,
)
    requires
        first.is_prefix_of(all),
        from <= first.len(),
    ensures
        delivered(script, all, from) == delivered(script, first, from) + delivered(
            script,
            all,
            first.len(),
        ),
    decreases all.len(),
{
    if all.len() > first.len() {
        assert(first.is_prefix_of(all.drop_last()));
        lemma_delivered_joined(script, first, all.drop_last(), from);
        assert(delivered(script, all, from) =~= delivered(script, first, from) + delivered(
            script,
            all,
            first.len(),
        ));
    } else {
        assert(first =~= all);
        assert(delivered(script, all, from) =~= delivered(script, first, from) + delivered(
            script,
            all,
            first.len(),
        ));
    }
}

proof fn lemma_handed_over_joined(
    script: LocalStreamScript,
    first: Seq<LocalStreamCall>,
    all: Seq<LocalStreamCall>,
    from: nat,
)
    requires
        first.is_prefix_of(all),
        from <= first.len(),
    ensures
        handed_over(script, all, from) == handed_over(script, first, from) + handed_over(
            script,
            all,
            first.len(),
        ),
    decreases all.len(),
{
    if all.len() > first.len() {
        assert(first.is_prefix_of(all.drop_last()));
        lemma_handed_over_joined(script, first, all.drop_last(), from);
        assert(handed_over(script, all, from) =~= handed_over(script, first, from) + handed_over(
            script,
            all,
            first.len(),
        ));
    } else {
        assert(first =~= all);
        assert(handed_over(script, all, from) =~= handed_over(script, first, from) + handed_over(
            script,
            all,
            first.len(),
        ));
    }
}

proof fn lemma_delivered_step(
    script: LocalStreamScript,
    calls: Seq<LocalStreamCall>,
    call: LocalStreamCall,
    from: nat,
)
    requires
        from <= calls.len(),
    ensures
        delivered(script, calls.push(call), from) == delivered(script, calls, from) + delivered_by(
            script,
            calls.len(),
            call,
        ),
        handed_over(script, calls.push(call), from) == handed_over(script, calls, from) + taken_by(
            script,
            calls.len(),
            call,
        ),
{
    assert(calls.push(call).drop_last() =~= calls);
}

proof fn lemma_read_is_delivered(
    world: LocalStreamWorld,
    need: nat,
    got: Seq<u8>,
    limit: Option<FrameLimit>,
)
    requires
        honest(world.script),
    ensures
        ({
            let read = exactly_read(world, need, got, limit);
            &&& world.calls.is_prefix_of(read.0.calls)
            &&& read.0.script == world.script
            &&& read.2 matches Ok(bytes) ==> bytes == got + delivered(
                world.script,
                read.0.calls,
                world.calls.len(),
            ) && bytes.len() == got.len() + need
        }),
    decreases need, world.patience,
{
    let script = world.script;
    let from = world.calls.len();
    let read = exactly_read(world, need, got, limit);
    if need == 0 {
        assert(got + delivered(script, world.calls, from) =~= got);
    } else {
        let limited = read_limited(world, limit);
        assert(world.calls.is_prefix_of(limited.0.calls));
        if limited.2 is Ok {
            let next = limited.0.after_read(need);
            let call = LocalStreamCall::Read { length: need };
            assert(delivered(script, world.calls, from) =~= Seq::<u8>::empty());
            if limit is Some {
                lemma_delivered_step(script, world.calls, limited.0.calls.last(), from);
                assert(limited.0.calls =~= world.calls.push(limited.0.calls.last()));
            }
            assert(delivered(script, limited.0.calls, from) =~= Seq::<u8>::empty());
            lemma_delivered_step(script, limited.0.calls, call, from);
            assert(world.calls.is_prefix_of(next.calls));
            match limited.0.read_reply(need) {
                Ok((count, bytes)) => if 0 < count <= need {
                    lemma_read_is_delivered(next, (need - count) as nat, got + bytes, limited.1);
                    lemma_delivered_joined(script, next.calls, read.0.calls, from);
                    assert(delivered(script, next.calls, from) =~= bytes);
                    if let Ok(all) = read.2 {
                        assert(all =~= got + delivered(script, read.0.calls, from));
                    }
                },
                Err(NodePrivateLocalIoError::Interrupted) => if world.patience > 0 {
                    lemma_read_is_delivered(next, need, got, limited.1);
                    lemma_delivered_joined(script, next.calls, read.0.calls, from);
                    assert(delivered(script, next.calls, from) =~= Seq::<u8>::empty());
                    if let Ok(all) = read.2 {
                        assert(all =~= got + delivered(script, read.0.calls, from));
                    }
                },
                _ => {},
            }
        }
    }
}

proof fn lemma_write_is_handed_over(
    world: LocalStreamWorld,
    rest: Seq<u8>,
    limit: Option<FrameLimit>,
)
    ensures
        ({
            let written = exactly_written(world, rest, limit);
            &&& world.calls.is_prefix_of(written.0.calls)
            &&& written.0.script == world.script
            &&& written.2 is Ok ==> rest == handed_over(
                world.script,
                written.0.calls,
                world.calls.len(),
            )
        }),
    decreases rest.len(), world.patience,
{
    let script = world.script;
    let from = world.calls.len();
    let written = exactly_written(world, rest, limit);
    if rest.len() == 0 {
        assert(handed_over(script, world.calls, from) =~= rest);
    } else {
        let limited = write_limited(world, limit);
        assert(world.calls.is_prefix_of(limited.0.calls));
        if limited.2 is Ok {
            let next = limited.0.after_write(rest);
            let call = LocalStreamCall::Write { bytes: rest };
            assert(handed_over(script, world.calls, from) =~= Seq::<u8>::empty());
            if limit is Some {
                lemma_delivered_step(script, world.calls, limited.0.calls.last(), from);
                assert(limited.0.calls =~= world.calls.push(limited.0.calls.last()));
            }
            assert(handed_over(script, limited.0.calls, from) =~= Seq::<u8>::empty());
            lemma_delivered_step(script, limited.0.calls, call, from);
            assert(world.calls.is_prefix_of(next.calls));
            match limited.0.write_reply(rest) {
                Ok(count) => if 0 < count <= rest.len() {
                    lemma_write_is_handed_over(next, rest.skip(count as int), limited.1);
                    lemma_handed_over_joined(script, next.calls, written.0.calls, from);
                    assert(handed_over(script, next.calls, from) =~= rest.take(count as int));
                    if written.2 is Ok {
                        assert(rest =~= rest.take(count as int) + rest.skip(count as int));
                    }
                },
                Err(NodePrivateLocalIoError::Interrupted) => if world.patience > 0 {
                    lemma_write_is_handed_over(next, rest, limited.1);
                    lemma_handed_over_joined(script, next.calls, written.0.calls, from);
                    assert(handed_over(script, next.calls, from) =~= Seq::<u8>::empty());
                    if written.2 is Ok {
                        assert(rest =~= handed_over(script, written.0.calls, from));
                    }
                },
                _ => {},
            }
        }
    }
}

/// A frame that was read is exactly what the stream delivered meanwhile, however it was
/// fragmented, interrupted or timed: not one byte more is taken.
pub proof fn law_frame_read_is_delivered(world: LocalStreamWorld, limit: Option<FrameLimit>)
    requires
        honest(world.script),
    ensures
        frame_read(world, limit).2 matches Ok(document) ==> delivered(
            world.script,
            frame_read(world, limit).0.calls,
            world.calls.len(),
        ) == frame(document) && 0 < document.len() <= NODE_PRIVATE_MAX_DOCUMENT_BYTES,
{
    let from = world.calls.len();
    lemma_read_is_delivered(world, 4, Seq::empty(), limit);
    let header = exactly_read(world, 4, Seq::empty(), limit);
    if let Ok(bytes) = header.2 {
        assert(bytes =~= delivered(world.script, header.0.calls, from));
        let length = announced(bytes);
        lemma_be_number_bytes(bytes);
        if 0 < length <= NODE_PRIVATE_MAX_DOCUMENT_BYTES {
            lemma_read_is_delivered(header.0, length, Seq::empty(), header.1);
            let body = exactly_read(header.0, length, Seq::empty(), header.1);
            if let Ok(document) = body.2 {
                lemma_delivered_joined(world.script, header.0.calls, body.0.calls, from);
                assert(document =~= delivered(world.script, body.0.calls, header.0.calls.len()));
                assert(delivered(world.script, body.0.calls, from) =~= frame(document));
            }
        }
    }
}

/// A frame that was written is exactly what the stream took meanwhile, however it was fragmented,
/// interrupted or timed.
pub proof fn law_frame_written_is_handed_over(
    world: LocalStreamWorld,
    document: Seq<u8>,
    limit: Option<FrameLimit>,
)
    ensures
        frame_written(world, document, limit).2 is Ok ==> handed_over(
            world.script,
            frame_written(world, document, limit).0.calls,
            world.calls.len(),
        ) == frame(document),
{
    if 0 < document.len() <= NODE_PRIVATE_MAX_DOCUMENT_BYTES {
        let from = world.calls.len();
        let length = be_bytes(document.len(), 4);
        lemma_write_is_handed_over(world, length, limit);
        let header = exactly_written(world, length, limit);
        if header.2 is Ok {
            lemma_write_is_handed_over(header.0, document, header.1);
            let body = exactly_written(header.0, document, header.1);
            lemma_handed_over_joined(world.script, header.0.calls, body.0.calls, from);
        }
    }
}

/// Whoever reads the bytes of a written frame gets the written document: frames of different
/// documents differ.
pub proof fn law_frames_are_read_back(
    written: Seq<u8>,
    world: LocalStreamWorld,
    limit: Option<FrameLimit>,
)
    requires
        honest(world.script),
        0 < written.len() <= NODE_PRIVATE_MAX_DOCUMENT_BYTES,
        delivered(
            world.script,
            frame_read(world, limit).0.calls,
            world.calls.len(),
        ) == frame(written),
    ensures
        frame_read(world, limit).2 matches Ok(document) ==> document == written,
{
    law_frame_read_is_delivered(world, limit);
    if let Ok(document) = frame_read(world, limit).2 {
        lemma_be_bytes_length(document.len(), 4);
        lemma_be_bytes_length(written.len(), 4);
        assert(frame(document).skip(4) =~= document);
        assert(frame(written).skip(4) =~= written);
    }
}

/// The position of the `i`th read of one frame that is read from one position on: a limited frame
/// sets a timeout before each read.
pub open spec fn read_position(from: nat, limited: bool, i: nat) -> nat {
    if limited {
        from + 2 * i + 1
    } else {
        from + i
    }
}

/// How many bytes a reader of one frame still wants: the rest of the header, or of the document.
pub open spec fn wanted(offset: nat, total: nat) -> nat {
    if offset < 4 {
        (4 - offset) as nat
    } else {
        (total - offset) as nat
    }
}

/// The `i`th read delivers the next bytes: at least one, and no more than are wanted.
pub open spec fn fragment_delivered(
    script: LocalStreamScript,
    at: nat,
    bytes: Seq<u8>,
    offset: spec_fn(nat) -> nat,
    i: nat,
) -> bool {
    let length = wanted(offset(i), bytes.len());
    &&& (script.read)(at, length) matches Ok(reply)
    &&& 0 < reply.0 <= length
    &&& reply.1 == bytes.subrange(offset(i) as int, offset(i) + reply.0)
    &&& offset(i + 1) == offset(i) + reply.0
}

/// A stream delivers the bytes to a reader that starts at one position, in fragments of at least
/// one byte; `offset` tells how many bytes came before each read.
pub open spec fn delivers(
    script: LocalStreamScript,
    from: nat,
    limited: bool,
    bytes: Seq<u8>,
    offset: spec_fn(nat) -> nat,
) -> bool {
    &&& offset(0) == 0
    &&& forall|i: nat|
        offset(i) < bytes.len() ==> #[trigger] fragment_delivered(
            script,
            read_position(from, limited, i),
            bytes,
            offset,
            i,
        )
}

/// Every timeout can be set, and the deadline stays ahead of the clock.
pub open spec fn in_time(script: LocalStreamScript, limit: Option<FrameLimit>) -> bool {
    limit matches Some(limit) ==> {
        &&& forall|at: nat| #[trigger] (script.read_timeout)(at) is Ok
        &&& forall|at: nat|
            limit.clock.calls.len() <= at ==> #[trigger] (limit.clock.script.now)(at)
                < limit.deadline
    }
}

proof fn lemma_fragments_read(
    world: LocalStreamWorld,
    limit: Option<FrameLimit>,
    from: nat,
    bytes: Seq<u8>,
    offset: spec_fn(nat) -> nat,
    i: nat,
    begin: nat,
    end: nat,
) -> (done: nat)
    requires
        delivers(world.script, from, limit is Some, bytes, offset),
        in_time(world.script, limit),
        world.calls.len() == from + (if limit is Some { 2 * i } else { i }),
        begin <= offset(i) <= end <= bytes.len(),
        begin == 0 && end == 4 || begin == 4 && end == bytes.len(),
    ensures
        ({
            let read = exactly_read(
                world,
                (end - offset(i)) as nat,
                bytes.subrange(begin as int, offset(i) as int),
                limit,
            );
            &&& read.2 == Ok::<Seq<u8>, NodePrivateLocalFrameError>(
                bytes.subrange(begin as int, end as int),
            )
            &&& read.0.script == world.script
            &&& read.1 is Some == limit is Some
            &&& in_time(world.script, read.1)
            &&& read.0.calls.len() == from + (if limit is Some { 2 * done } else { done })
            &&& offset(done) == end
        }),
    decreases end - offset(i),
{
    if offset(i) == end {
        i
    } else {
        let need = (end - offset(i)) as nat;
        let got = bytes.subrange(begin as int, offset(i) as int);
        let at = read_position(from, limit is Some, i);
        assert(fragment_delivered(world.script, at, bytes, offset, i));
        assert(wanted(offset(i), bytes.len()) == need);
        if let Some(limit) = limit {
            assert(limit.clock.moment() < limit.deadline);
        }
        let limited = read_limited(world, limit);
        assert((world.script.read_timeout)(world.calls.len()) is Ok || limit is None);
        assert(limited.2 is Ok);
        assert(limited.0.calls.len() == at);
        let reply = (world.script.read)(at, need)->Ok_0;
        assert(limited.0.read_reply(need) == Ok::<(usize, Seq<u8>), NodePrivateLocalIoError>(
            reply,
        ));
        assert(got + reply.1 =~= bytes.subrange(begin as int, offset(i + 1) as int));
        lemma_fragments_read(
            limited.0.after_read(need),
            limited.1,
            from,
            bytes,
            offset,
            i + 1,
            begin,
            end,
        )
    }
}

/// A stream that delivers the bytes of a frame in fragments of at least one byte, before the
/// deadline if there is one, gives its document.
pub proof fn law_delivered_frames_are_read(
    document: Seq<u8>,
    world: LocalStreamWorld,
    limit: Option<FrameLimit>,
    offset: spec_fn(nat) -> nat,
)
    requires
        0 < document.len() <= NODE_PRIVATE_MAX_DOCUMENT_BYTES,
        delivers(world.script, world.calls.len(), limit is Some, frame(document), offset),
        in_time(world.script, limit),
    ensures
        frame_read(world, limit).2 == Ok::<Seq<u8>, NodePrivateLocalFrameError>(document),
{
    let bytes = frame(document);
    let from = world.calls.len();
    let length = be_bytes(document.len(), 4);
    lemma_be_bytes_length(document.len(), 4);
    assert(bytes.subrange(0, 0) =~= Seq::empty());
    assert(bytes.subrange(4, 4) =~= Seq::empty());
    assert(bytes.subrange(0, 4) =~= length);
    assert(bytes.subrange(4, bytes.len() as int) =~= document);
    let header = exactly_read(world, 4, Seq::empty(), limit);
    let i = lemma_fragments_read(world, limit, from, bytes, offset, 0, 0, 4);
    assert(document.len() < pow256(4)) by {
        reveal_with_fuel(pow256, 5);
    }
    lemma_be_round_trip(document.len(), 4);
    let _ = lemma_fragments_read(header.0, header.1, from, bytes, offset, i, 4, bytes.len());
}

/// Every write takes at least one byte and no more than it is offered, every timeout can be set,
/// and the deadline, if there is one, stays ahead of the clock.
pub open spec fn accepts(script: LocalStreamScript, limit: Option<FrameLimit>) -> bool {
    &&& forall|at: nat, bytes: Seq<u8>|
        bytes.len() > 0 ==> ((#[trigger] (script.write)(at, bytes)) matches Ok(count) && 0 < count
            <= bytes.len())
    &&& limit matches Some(limit) ==> {
        &&& forall|at: nat| #[trigger] (script.write_timeout)(at) is Ok
        &&& forall|at: nat|
            limit.clock.calls.len() <= at ==> #[trigger] (limit.clock.script.now)(at)
                < limit.deadline
    }
}

proof fn lemma_bytes_accepted(
    world: LocalStreamWorld,
    rest: Seq<u8>,
    limit: Option<FrameLimit>,
)
    requires
        accepts(world.script, limit),
    ensures
        ({
            let written = exactly_written(world, rest, limit);
            &&& written.2 is Ok
            &&& written.0.script == world.script
            &&& accepts(world.script, written.1)
        }),
    decreases rest.len(),
{
    if rest.len() > 0 {
        let limited = write_limited(world, limit);
        assert((world.script.write_timeout)(world.calls.len()) is Ok || limit is None);
        assert(limited.2 is Ok);
        let reply = limited.0.write_reply(rest);
        assert(reply is Ok);
        lemma_bytes_accepted(
            limited.0.after_write(rest),
            rest.skip(reply->Ok_0 as int),
            limited.1,
        );
    }
}

/// A stream that takes at least one byte at each write, before the deadline if there is one, gets
/// every document of an allowed size.
pub proof fn law_accepted_frames_are_written(
    document: Seq<u8>,
    world: LocalStreamWorld,
    limit: Option<FrameLimit>,
)
    requires
        0 < document.len() <= NODE_PRIVATE_MAX_DOCUMENT_BYTES,
        accepts(world.script, limit),
    ensures
        frame_written(world, document, limit).2 is Ok,
{
    let length = be_bytes(document.len(), 4);
    lemma_bytes_accepted(world, length, limit);
    let header = exactly_written(world, length, limit);
    lemma_bytes_accepted(header.0, document, header.1);
}

// ---------------------------------------------------------------------------
// Deadlines
// ---------------------------------------------------------------------------

/// What one call of a limited frame may be, `offset` calls after its start: calls alternate between
/// a shortened timeout and one fragment, and each timeout is exactly the time from the clock to the
/// one deadline, which is ahead.
pub open spec fn fragment_in_time(
    call: LocalStreamCall,
    offset: nat,
    limit: FrameLimit,
    reading: bool,
) -> bool {
    let now = (limit.clock.script.now)(limit.clock.calls.len() + offset / 2);
    if offset % 2 == 0 {
        &&& now < limit.deadline
        &&& if reading {
            call matches LocalStreamCall::SetReadTimeout { timeout } && timeout.nanoseconds
                == limit.deadline - now
        } else {
            call matches LocalStreamCall::SetWriteTimeout { timeout } && timeout.nanoseconds
                == limit.deadline - now
        }
    } else if reading {
        call is Read
    } else {
        call is Write
    }
}

/// From one position of a trace on, every fragment is in time.
pub open spec fn fragments_in_time(
    calls: Seq<LocalStreamCall>,
    from: nat,
    limit: FrameLimit,
    reading: bool,
) -> bool {
    forall|at: int|
        from <= at < calls.len() ==> fragment_in_time(
            #[trigger] calls[at],
            (at - from) as nat,
            limit,
            reading,
        )
}

/// The clock was only read, as often as there were fragments.
pub open spec fn only_read(before: FrameLimit, after: Option<FrameLimit>, questions: nat) -> bool {
    &&& after matches Some(after)
    &&& after.deadline == before.deadline
    &&& after.clock.script == before.clock.script
    &&& after.clock.calls == before.clock.calls + Seq::new(
        questions,
        |i: int| LocalClockCall::Read,
    )
}

proof fn lemma_only_read_step(before: FrameLimit, after: Option<FrameLimit>, questions: nat)
    requires
        only_read(before.asked(), after, questions),
    ensures
        only_read(before, after, questions + 1),
{
    assert(after->Some_0.clock.calls =~= before.clock.calls + Seq::new(
        questions + 1,
        |i: int| LocalClockCall::Read,
    ));
}

proof fn lemma_only_read_none(before: FrameLimit)
    ensures
        only_read(before, Some(before), 0),
{
    assert(before.clock.calls + Seq::new(0, |i: int| LocalClockCall::Read) =~= before.clock.calls);
}

proof fn lemma_only_read_joined(
    before: FrameLimit,
    middle: FrameLimit,
    after: Option<FrameLimit>,
    first: nat,
    second: nat,
)
    requires
        only_read(before, Some(middle), first),
        only_read(middle, after, second),
    ensures
        only_read(before, after, first + second),
{
    assert(after->Some_0.clock.calls =~= before.clock.calls + Seq::new(
        first + second,
        |i: int| LocalClockCall::Read,
    ));
}

proof fn lemma_fragments_step(
    world: LocalStreamWorld,
    limited: LocalStreamCall,
    moved: LocalStreamCall,
    all: Seq<LocalStreamCall>,
    limit: FrameLimit,
    reading: bool,
)
    requires
        world.calls.push(limited).push(moved).is_prefix_of(all),
        fragment_in_time(limited, 0, limit, reading),
        fragment_in_time(moved, 1, limit, reading),
        fragments_in_time(all, world.calls.len() + 2, limit.asked(), reading),
    ensures
        fragments_in_time(all, world.calls.len(), limit, reading),
{
    let from = world.calls.len();
    assert forall|at: int| from <= at < all.len() implies fragment_in_time(
        #[trigger] all[at],
        (at - from) as nat,
        limit,
        reading,
    ) by {
        if at < from + 2 {
            assert(all[at] == world.calls.push(limited).push(moved)[at]);
        } else {
            assert(fragment_in_time(all[at], (at - (from + 2)) as nat, limit.asked(), reading));
            assert((at - from) / 2 == (at - (from + 2)) / 2 + 1);
        }
    }
}

proof fn lemma_reading_in_time(
    world: LocalStreamWorld,
    need: nat,
    got: Seq<u8>,
    limit: FrameLimit,
) -> (questions: nat)
    ensures
        ({
            let read = exactly_read(world, need, got, Some(limit));
            &&& world.calls.is_prefix_of(read.0.calls)
            &&& read.0.script == world.script
            &&& fragments_in_time(read.0.calls, world.calls.len(), limit, true)
            &&& only_read(limit, read.1, questions)
            &&& read.2 is Ok ==> read.0.calls.len() == world.calls.len() + 2 * questions
        }),
    decreases need, world.patience,
{
    lemma_only_read_none(limit);
    lemma_only_read_none(limit.asked());
    lemma_only_read_step(limit, Some(limit.asked()), 0);
    let read = exactly_read(world, need, got, Some(limit));
    let limited = read_limited(world, Some(limit));
    let next = limited.0.after_read(need);
    let timeout = LocalStreamCall::SetReadTimeout { timeout: limit.left()->Some_0 };
    let moved = LocalStreamCall::Read { length: need };
    if need > 0 && limited.2 is Ok {
        assert(next.calls == world.calls.push(timeout).push(moved));
    }
    if need == 0 {
        0
    } else if limited.2 is Err {
        1
    } else {
        match limited.0.read_reply(need) {
            Ok((count, bytes)) if 0 < count && count <= need => {
                let questions = lemma_reading_in_time(
                    next,
                    (need - count) as nat,
                    got + bytes,
                    limit.asked(),
                );
                lemma_fragments_step(world, timeout, moved, read.0.calls, limit, true);
                lemma_only_read_step(limit, read.1, questions);
                questions + 1
            },
            Err(NodePrivateLocalIoError::Interrupted) if world.patience > 0 => {
                let questions = lemma_reading_in_time(next, need, got, limit.asked());
                lemma_fragments_step(world, timeout, moved, read.0.calls, limit, true);
                lemma_only_read_step(limit, read.1, questions);
                questions + 1
            },
            _ => 1,
        }
    }
}

proof fn lemma_writing_in_time(
    world: LocalStreamWorld,
    rest: Seq<u8>,
    limit: FrameLimit,
) -> (questions: nat)
    ensures
        ({
            let written = exactly_written(world, rest, Some(limit));
            &&& world.calls.is_prefix_of(written.0.calls)
            &&& written.0.script == world.script
            &&& fragments_in_time(written.0.calls, world.calls.len(), limit, false)
            &&& only_read(limit, written.1, questions)
            &&& written.2 is Ok ==> written.0.calls.len() == world.calls.len() + 2 * questions
        }),
    decreases rest.len(), world.patience,
{
    lemma_only_read_none(limit);
    lemma_only_read_none(limit.asked());
    lemma_only_read_step(limit, Some(limit.asked()), 0);
    let written = exactly_written(world, rest, Some(limit));
    let limited = write_limited(world, Some(limit));
    let next = limited.0.after_write(rest);
    let timeout = LocalStreamCall::SetWriteTimeout { timeout: limit.left()->Some_0 };
    let moved = LocalStreamCall::Write { bytes: rest };
    if rest.len() > 0 && limited.2 is Ok {
        assert(next.calls == world.calls.push(timeout).push(moved));
    }
    if rest.len() == 0 {
        0
    } else if limited.2 is Err {
        1
    } else {
        match limited.0.write_reply(rest) {
            Ok(count) if 0 < count && count <= rest.len() => {
                let questions = lemma_writing_in_time(next, rest.skip(count as int), limit.asked());
                lemma_fragments_step(world, timeout, moved, written.0.calls, limit, false);
                lemma_only_read_step(limit, written.1, questions);
                questions + 1
            },
            Err(NodePrivateLocalIoError::Interrupted) if world.patience > 0 => {
                let questions = lemma_writing_in_time(next, rest, limit.asked());
                lemma_fragments_step(world, timeout, moved, written.0.calls, limit, false);
                lemma_only_read_step(limit, written.1, questions);
                questions + 1
            },
            _ => 1,
        }
    }
}

proof fn lemma_fragments_joined(
    first: Seq<LocalStreamCall>,
    all: Seq<LocalStreamCall>,
    from: nat,
    questions: nat,
    before: FrameLimit,
    middle: FrameLimit,
    reading: bool,
)
    requires
        first.is_prefix_of(all),
        first.len() == from + 2 * questions,
        only_read(before, Some(middle), questions),
        fragments_in_time(first, from, before, reading),
        fragments_in_time(all, first.len(), middle, reading),
    ensures
        fragments_in_time(all, from, before, reading),
{
    assert forall|at: int| from <= at < all.len() implies fragment_in_time(
        #[trigger] all[at],
        (at - from) as nat,
        before,
        reading,
    ) by {
        if at < first.len() {
            assert(all[at] == first[at]);
        } else {
            assert(fragment_in_time(all[at], (at - first.len()) as nat, middle, reading));
            assert((at - from) / 2 == (at - first.len()) / 2 + questions);
            assert((at - from) % 2 == (at - first.len()) % 2);
        }
    }
}

proof fn lemma_frame_read_in_time(world: LocalStreamWorld, limit: FrameLimit) -> (questions: nat)
    ensures
        ({
            let read = frame_read(world, Some(limit));
            &&& world.calls.is_prefix_of(read.0.calls)
            &&& read.0.script == world.script
            &&& fragments_in_time(read.0.calls, world.calls.len(), limit, true)
            &&& only_read(limit, read.1, questions)
        }),
{
    let header = exactly_read(world, 4, Seq::empty(), Some(limit));
    let questions = lemma_reading_in_time(world, 4, Seq::empty(), limit);
    let length = announced(header.2->Ok_0);
    if header.2 is Ok && 0 < length <= NODE_PRIVATE_MAX_DOCUMENT_BYTES {
        let middle = header.1->Some_0;
        let body = exactly_read(header.0, length, Seq::empty(), header.1);
        let more = lemma_reading_in_time(header.0, length, Seq::empty(), middle);
        lemma_fragments_joined(
            header.0.calls,
            body.0.calls,
            world.calls.len(),
            questions,
            limit,
            middle,
            true,
        );
        lemma_only_read_joined(limit, middle, body.1, questions, more);
        questions + more
    } else {
        questions
    }
}

proof fn lemma_frame_written_in_time(
    world: LocalStreamWorld,
    document: Seq<u8>,
    limit: FrameLimit,
) -> (questions: nat)
    ensures
        ({
            let written = frame_written(world, document, Some(limit));
            &&& world.calls.is_prefix_of(written.0.calls)
            &&& written.0.script == world.script
            &&& fragments_in_time(written.0.calls, world.calls.len(), limit, false)
            &&& only_read(limit, written.1, questions)
        }),
{
    lemma_only_read_none(limit);
    let length = be_bytes(document.len(), 4);
    let header = exactly_written(world, length, Some(limit));
    let questions = lemma_writing_in_time(world, length, limit);
    if !(0 < document.len() <= NODE_PRIVATE_MAX_DOCUMENT_BYTES) {
        0
    } else if header.2 is Err {
        questions
    } else {
        let middle = header.1->Some_0;
        let body = exactly_written(header.0, document, header.1);
        let more = lemma_writing_in_time(header.0, document, middle);
        lemma_fragments_joined(
            header.0.calls,
            body.0.calls,
            world.calls.len(),
            questions,
            limit,
            middle,
            false,
        );
        lemma_only_read_joined(limit, middle, body.1, questions, more);
        questions + more
    }
}

/// A frame is read before one deadline: each fragment is preceded by a timeout of exactly the time
/// that is left then, none is asked for at or after the deadline, and no fragment or interruption
/// moves the deadline.
pub proof fn law_frame_is_read_before_its_deadline(world: LocalStreamWorld, limit: FrameLimit)
    ensures
        ({
            let read = frame_read(world, Some(limit));
            &&& fragments_in_time(read.0.calls, world.calls.len(), limit, true)
            &&& read.1 matches Some(after) && after.deadline == limit.deadline
        }),
{
    let _ = lemma_frame_read_in_time(world, limit);
}

/// A frame is written before one deadline: each fragment is preceded by a timeout of exactly the
/// time that is left then, none is handed over at or after the deadline, and no fragment or
/// interruption moves the deadline.
pub proof fn law_frame_is_written_before_its_deadline(
    world: LocalStreamWorld,
    document: Seq<u8>,
    limit: FrameLimit,
)
    ensures
        ({
            let written = frame_written(world, document, Some(limit));
            &&& fragments_in_time(written.0.calls, world.calls.len(), limit, false)
            &&& written.1 matches Some(after) && after.deadline == limit.deadline
        }),
{
    let _ = lemma_frame_written_in_time(world, document, limit);
}

// ---------------------------------------------------------------------------
// Connections
// ---------------------------------------------------------------------------

/// Describes failure to map one Unix peer into the exact local Node identity.
#[derive(Clone, Copy, Debug, PartialEq, Eq, Structural)]
pub enum NodePrivateLocalPeerError {
    ForeignUser,
}

/// Maps an authenticated Unix peer identity into the Node identity it may represent.
pub trait NodePrivateLocalPeerIdentityProvider {
    /// The node that one peer may represent.
    spec fn node_of(&self, peer_uid: u32) -> Result<NodeId, NodePrivateLocalPeerError>;

    /// Returns the exact local Node identity only for an authorized peer user.
    fn node_id_for_peer(&self, peer_uid: u32) -> (node_id: Result<
        NodeId,
        NodePrivateLocalPeerError,
    >)
        ensures
            node_id == self.node_of(peer_uid),
    ;
}

/// Maps exactly one owner user into exactly one immutable local Node identity.
pub struct ExactNodePrivateLocalPeerIdentity {
    pub owner_uid: u32,
    pub local_node_id: NodeId,
}

impl ExactNodePrivateLocalPeerIdentity {
    /// Creates one immutable owner-to-Node mapping without discovering either identity.
    pub fn new(owner_uid: u32, local_node_id: NodeId) -> (identity: Self)
        ensures
            identity.owner_uid == owner_uid,
            identity.local_node_id == local_node_id,
    {
        ExactNodePrivateLocalPeerIdentity { owner_uid, local_node_id }
    }
}

impl NodePrivateLocalPeerIdentityProvider for ExactNodePrivateLocalPeerIdentity {
    open spec fn node_of(&self, peer_uid: u32) -> Result<NodeId, NodePrivateLocalPeerError> {
        if peer_uid == self.owner_uid {
            Ok(self.local_node_id)
        } else {
            Err(NodePrivateLocalPeerError::ForeignUser)
        }
    }

    /// Rejects every foreign user and returns no substitute Node identity.
    fn node_id_for_peer(&self, peer_uid: u32) -> (node_id: Result<
        NodeId,
        NodePrivateLocalPeerError,
    >) {
        if peer_uid != self.owner_uid {
            return Err(NodePrivateLocalPeerError::ForeignUser);
        }
        Ok(self.local_node_id)
    }
}

/// Describes one local endpoint rejection without retaining codec or manager details.
#[derive(Clone, Copy, Debug, PartialEq, Eq, Structural)]
pub enum NodePrivateLocalDocumentError {
    Rejected,
}

/// An endpoint: what it will answer at each position, and which documents it was given, by whom.
pub struct LocalEndpointWorld {
    pub script: spec_fn(nat) -> Result<Seq<u8>, NodePrivateLocalDocumentError>,
    pub calls: Seq<(NodeId, Seq<u8>)>,
}

impl LocalEndpointWorld {
    /// The endpoint after one more document.
    pub open spec fn after(self, local_node_id: NodeId, document: Seq<u8>) -> LocalEndpointWorld {
        LocalEndpointWorld {
            script: self.script,
            calls: self.calls.push((local_node_id, document)),
        }
    }
}

/// One answered document by view.
pub open spec fn outcome_document(
    result: Result<Vec<u8>, NodePrivateLocalDocumentError>,
) -> Result<Seq<u8>, NodePrivateLocalDocumentError> {
    match result {
        Ok(bytes) => Ok(bytes@),
        Err(error) => Err(error),
    }
}

/// Handles one already-framed document after exact peer identity authorization.
pub trait NodePrivateLocalDocumentEndpoint {
    /// The answers that are still to come and the documents that were given.
    spec fn world(&self) -> LocalEndpointWorld;

    /// Returns one bounded response document or one redacted rejection.
    fn handle_document(&mut self, local_node_id: &NodeId, document: &[u8]) -> (response: Result<
        Vec<u8>,
        NodePrivateLocalDocumentError,
    >)
        ensures
            final(self).world() == old(self).world().after(*local_node_id, document@),
            outcome_document(response) == (old(self).world().script)(
                old(self).world().calls.len(),
            ),
    ;
}

/// Describes one isolated connection failure without terminating the listener.
#[derive(Clone, Copy, Debug, PartialEq, Eq, Structural)]
pub enum NodePrivateLocalConnectionError {
    TimeoutConfiguration,
    PeerIdentityUnavailable,
    ForeignUser,
    Frame(NodePrivateLocalFrameError),
    EndpointRejected,
    CloseFailed,
}

impl NodePrivateLocalConnectionError {
    /// The fixed text of the failure.
    pub open spec fn text(self) -> Seq<char> {
        match self {
            NodePrivateLocalConnectionError::TimeoutConfiguration => {
                "private Node connection timeout configuration failed"@
            },
            NodePrivateLocalConnectionError::PeerIdentityUnavailable => {
                "private Node peer identity is unavailable"@
            },
            NodePrivateLocalConnectionError::ForeignUser => {
                "private Node peer user is not authorized"@
            },
            NodePrivateLocalConnectionError::Frame(error) => error.text(),
            NodePrivateLocalConnectionError::EndpointRejected => {
                "private Node endpoint rejected the request"@
            },
            NodePrivateLocalConnectionError::CloseFailed => "private Node connection close failed"@,
        }
    }

    /// Presents stable redacted language for one failed local connection.
    pub fn message(&self) -> (text: &'static str)
        ensures
            text@ == self.text(),
    {
        match self {
            NodePrivateLocalConnectionError::TimeoutConfiguration => {
                "private Node connection timeout configuration failed"
            },
            NodePrivateLocalConnectionError::PeerIdentityUnavailable => {
                "private Node peer identity is unavailable"
            },
            NodePrivateLocalConnectionError::ForeignUser => {
                "private Node peer user is not authorized"
            },
            NodePrivateLocalConnectionError::Frame(error) => error.message(),
            NodePrivateLocalConnectionError::EndpointRejected => {
                "private Node endpoint rejected the request"
            },
            NodePrivateLocalConnectionError::CloseFailed => "private Node connection close failed",
        }
    }
}

/// One connection: the stream, the endpoint, the clock and the outcome.
pub struct OpenConnection {
    pub stream: LocalStreamWorld,
    pub endpoint: LocalEndpointWorld,
    pub clock: LocalClockWorld,
    pub result: Result<(), NodePrivateLocalConnectionError>,
}

/// A connection that failed.
pub open spec fn connection_failed(
    stream: LocalStreamWorld,
    endpoint: LocalEndpointWorld,
    clock: LocalClockWorld,
    error: NodePrivateLocalConnectionError,
) -> OpenConnection {
    OpenConnection { stream, endpoint, clock, result: Err(error) }
}

/// The clock behind the limit of one frame.
pub open spec fn clock_behind(limit: Option<FrameLimit>) -> LocalClockWorld {
    limit->Some_0.clock
}

/// The response of one authorized connection: its deadline starts once the response is there.
pub open spec fn response_sent(
    stream: LocalStreamWorld,
    endpoint: LocalEndpointWorld,
    clock: LocalClockWorld,
    response: Seq<u8>,
    write_timeout: TimeSpan,
) -> OpenConnection {
    let started = clock.started(write_timeout);
    if started.1 is None {
        connection_failed(
            stream,
            endpoint,
            started.0,
            NodePrivateLocalConnectionError::Frame(NodePrivateLocalFrameError::TimedOut),
        )
    } else {
        let written = frame_written(stream, response, limit(started.1, started.0));
        OpenConnection {
            stream: written.0,
            endpoint,
            clock: clock_behind(written.1),
            result: match written.2 {
                Ok(()) => Ok(()),
                Err(error) => Err(NodePrivateLocalConnectionError::Frame(error)),
            },
        }
    }
}

/// The exchange of one authorized connection: one request frame before the read deadline, one
/// document, one response frame before the write deadline.
pub open spec fn document_exchanged(
    stream: LocalStreamWorld,
    endpoint: LocalEndpointWorld,
    clock: LocalClockWorld,
    local_node_id: NodeId,
    read_timeout: TimeSpan,
    write_timeout: TimeSpan,
) -> OpenConnection {
    let started = clock.started(read_timeout);
    if started.1 is None {
        connection_failed(
            stream,
            endpoint,
            started.0,
            NodePrivateLocalConnectionError::Frame(NodePrivateLocalFrameError::TimedOut),
        )
    } else {
        let read = frame_read(stream, limit(started.1, started.0));
        match read.2 {
            Err(error) => connection_failed(
                read.0,
                endpoint,
                clock_behind(read.1),
                NodePrivateLocalConnectionError::Frame(error),
            ),
            Ok(request) => {
                let asked = endpoint.after(local_node_id, request);
                match (endpoint.script)(endpoint.calls.len()) {
                    Err(_) => connection_failed(
                        read.0,
                        asked,
                        clock_behind(read.1),
                        NodePrivateLocalConnectionError::EndpointRejected,
                    ),
                    Ok(response) => response_sent(
                        read.0,
                        asked,
                        clock_behind(read.1),
                        response,
                        write_timeout,
                    ),
                }
            },
        }
    }
}

/// One connection up to its close: both timeouts, the peer, its node, then the exchange.
pub open spec fn connection_opened<I: NodePrivateLocalPeerIdentityProvider>(
    stream: LocalStreamWorld,
    endpoint: LocalEndpointWorld,
    clock: LocalClockWorld,
    identity: I,
    read_timeout: TimeSpan,
    write_timeout: TimeSpan,
) -> OpenConnection {
    let at = stream.calls.len();
    let reading = stream.after(LocalStreamCall::SetReadTimeout { timeout: read_timeout });
    if (stream.script.read_timeout)(at) is Err {
        connection_failed(
            reading,
            endpoint,
            clock,
            NodePrivateLocalConnectionError::TimeoutConfiguration,
        )
    } else {
        let writing = reading.after(LocalStreamCall::SetWriteTimeout { timeout: write_timeout });
        if (stream.script.write_timeout)(at + 1) is Err {
            connection_failed(
                writing,
                endpoint,
                clock,
                NodePrivateLocalConnectionError::TimeoutConfiguration,
            )
        } else {
            let known = writing.after(LocalStreamCall::PeerUid);
            match (stream.script.peer_uid)(at + 2) {
                Err(_) => connection_failed(
                    known,
                    endpoint,
                    clock,
                    NodePrivateLocalConnectionError::PeerIdentityUnavailable,
                ),
                Ok(peer_uid) => match identity.node_of(peer_uid) {
                    Err(_) => connection_failed(
                        known,
                        endpoint,
                        clock,
                        NodePrivateLocalConnectionError::ForeignUser,
                    ),
                    Ok(local_node_id) => document_exchanged(
                        known,
                        endpoint,
                        clock,
                        local_node_id,
                        read_timeout,
                        write_timeout,
                    ),
                },
            }
        }
    }
}

/// One whole connection: it is closed in every outcome, and the first failure is reported.
pub open spec fn connection_served<I: NodePrivateLocalPeerIdentityProvider>(
    stream: LocalStreamWorld,
    endpoint: LocalEndpointWorld,
    clock: LocalClockWorld,
    identity: I,
    read_timeout: TimeSpan,
    write_timeout: TimeSpan,
) -> OpenConnection {
    let open = connection_opened(stream, endpoint, clock, identity, read_timeout, write_timeout);
    OpenConnection {
        stream: open.stream.after(LocalStreamCall::Close),
        endpoint: open.endpoint,
        clock: open.clock,
        result: match open.result {
            Err(error) => Err(error),
            Ok(()) => match (open.stream.script.close)(open.stream.calls.len()) {
                Ok(()) => Ok(()),
                Err(_) => Err(NodePrivateLocalConnectionError::CloseFailed),
            },
        },
    }
}

/// Starts one deadline on the clock.
fn start_deadline<C: NodePrivateLocalClock>(clock: &mut C, span: TimeSpan) -> (deadline: Option<
    u128,
>)
    ensures
        old(clock).trace().is_prefix_of(final(clock).trace()),
        forall|script: LocalClockScript| #[trigger]
            answers(script, final(clock).trace()) ==> answers(script, old(clock).trace()) && (
                clock_world(script, final(clock).trace()),
                deadline,
            ) == clock_world(script, old(clock).trace()).started(span),
{
    let ghost earlier = clock.trace();
    let deadline = clock.start(span);
    proof {
        lemma_event_added(earlier, clock.trace().last());
    }
    deadline
}

/// Moves one request frame in and one response frame out, each before its own deadline.
fn exchange_document<
    E: NodePrivateLocalDocumentEndpoint,
    S: NodePrivateLocalStream,
    C: NodePrivateLocalClock,
>(
    endpoint: &mut E,
    stream: &mut S,
    clock: &mut C,
    local_node_id: &NodeId,
    read_timeout: TimeSpan,
    write_timeout: TimeSpan,
) -> (result: Result<(), NodePrivateLocalConnectionError>)
    ensures
        old(clock).trace().is_prefix_of(final(clock).trace()),
        forall|script: LocalClockScript| #[trigger]
            answers(script, final(clock).trace()) ==> (OpenConnection {
                stream: final(stream).world(),
                endpoint: final(endpoint).world(),
                clock: clock_world(script, final(clock).trace()),
                result,
            }) == document_exchanged(
                old(stream).world(),
                old(endpoint).world(),
                clock_world(script, old(clock).trace()),
                *local_node_id,
                read_timeout,
                write_timeout,
            ),
{
    let ghost begun = clock.trace();
    let deadline = start_deadline(clock, read_timeout);
    if deadline.is_none() {
        return Err(NodePrivateLocalConnectionError::Frame(NodePrivateLocalFrameError::TimedOut));
    }
    let ghost reading = clock.trace();
    let request = read_node_private_local_frame_before(stream, deadline, clock);
    let ghost read = clock.trace();
    proof {
        lemma_prefixes_joined(begun, reading, read);
        lemma_answers_earlier(reading, read);
    }
    let request = match request {
        Ok(request) => request,
        Err(error) => {
            return Err(NodePrivateLocalConnectionError::Frame(error));
        },
    };
    let response = match endpoint.handle_document(local_node_id, request.as_slice()) {
        Ok(response) => response,
        Err(_) => {
            return Err(NodePrivateLocalConnectionError::EndpointRejected);
        },
    };
    let deadline = start_deadline(clock, write_timeout);
    let ghost writing = clock.trace();
    proof {
        lemma_prefixes_joined(begun, read, writing);
    }
    if deadline.is_none() {
        return Err(NodePrivateLocalConnectionError::Frame(NodePrivateLocalFrameError::TimedOut));
    }
    let written = write_node_private_local_frame_before(
        stream,
        response.as_slice(),
        deadline,
        clock,
    );
    proof {
        lemma_prefixes_joined(begun, writing, clock.trace());
        lemma_answers_earlier(writing, clock.trace());
    }
    match written {
        Ok(()) => Ok(()),
        Err(error) => Err(NodePrivateLocalConnectionError::Frame(error)),
    }
}

/// Completes the authorized framed exchange before the symmetric close boundary.
fn handle_open<
    E: NodePrivateLocalDocumentEndpoint,
    I: NodePrivateLocalPeerIdentityProvider,
    S: NodePrivateLocalStream,
    C: NodePrivateLocalClock,
>(
    endpoint: &mut E,
    peer_identity: &I,
    read_timeout: TimeSpan,
    write_timeout: TimeSpan,
    stream: &mut S,
    clock: &mut C,
) -> (result: Result<(), NodePrivateLocalConnectionError>)
    ensures
        old(clock).trace().is_prefix_of(final(clock).trace()),
        forall|script: LocalClockScript| #[trigger]
            answers(script, final(clock).trace()) ==> (OpenConnection {
                stream: final(stream).world(),
                endpoint: final(endpoint).world(),
                clock: clock_world(script, final(clock).trace()),
                result,
            }) == connection_opened(
                old(stream).world(),
                old(endpoint).world(),
                clock_world(script, old(clock).trace()),
                *peer_identity,
                read_timeout,
                write_timeout,
            ),
{
    match stream.set_read_timeout(read_timeout) {
        Err(_) => Err(NodePrivateLocalConnectionError::TimeoutConfiguration),
        Ok(()) => match stream.set_write_timeout(write_timeout) {
            Err(_) => Err(NodePrivateLocalConnectionError::TimeoutConfiguration),
            Ok(()) => match stream.peer_uid() {
                Err(_) => Err(NodePrivateLocalConnectionError::PeerIdentityUnavailable),
                Ok(peer_uid) => match peer_identity.node_id_for_peer(peer_uid) {
                    Err(_) => Err(NodePrivateLocalConnectionError::ForeignUser),
                    Ok(local_node_id) => exchange_document(
                        endpoint,
                        stream,
                        clock,
                        &local_node_id,
                        read_timeout,
                        write_timeout,
                    ),
                },
            },
        },
    }
}

/// Serves exactly one request and response, then closes the connection in every outcome.
fn serve_connection<
    E: NodePrivateLocalDocumentEndpoint,
    I: NodePrivateLocalPeerIdentityProvider,
    S: NodePrivateLocalStream,
    C: NodePrivateLocalClock,
>(
    endpoint: &mut E,
    peer_identity: &I,
    read_timeout: TimeSpan,
    write_timeout: TimeSpan,
    stream: &mut S,
    clock: &mut C,
) -> (result: Result<(), NodePrivateLocalConnectionError>)
    ensures
        old(clock).trace().is_prefix_of(final(clock).trace()),
        (OpenConnection {
            stream: final(stream).world(),
            endpoint: final(endpoint).world(),
            clock: clock_shown(final(clock).trace(), final(clock).trace()),
            result,
        }) == connection_served(
            old(stream).world(),
            old(endpoint).world(),
            clock_shown(final(clock).trace(), old(clock).trace()),
            *peer_identity,
            read_timeout,
            write_timeout,
        ),
{
    let opened = handle_open(endpoint, peer_identity, read_timeout, write_timeout, stream, clock);
    proof {
        lemma_script_answers(clock.trace());
        assert(answers(script_of(clock.trace()), clock.trace()));
    }
    let closed = stream.close();
    match opened {
        Err(error) => Err(error),
        Ok(()) => match closed {
            Ok(()) => Ok(()),
            Err(_) => Err(NodePrivateLocalConnectionError::CloseFailed),
        },
    }
}

/// Owns peer authorization and one framed request/response lifecycle.
pub struct NodePrivateLocalConnectionHandler<E, I> {
    pub endpoint: E,
    pub peer_identity: I,
    pub read_timeout: TimeSpan,
    pub write_timeout: TimeSpan,
    pub clock: SystemLocalClock,
}

impl<
    E: NodePrivateLocalDocumentEndpoint,
    I: NodePrivateLocalPeerIdentityProvider,
> NodePrivateLocalConnectionHandler<E, I> {
    /// Creates one handler from explicit endpoint, peer identity, and timeout dependencies; its
    /// deadlines are measured on the system's clock.
    pub fn new(
        endpoint: E,
        peer_identity: I,
        read_timeout: TimeSpan,
        write_timeout: TimeSpan,
    ) -> (handler: Self)
        ensures
            handler.endpoint == endpoint,
            handler.peer_identity == peer_identity,
            handler.read_timeout == read_timeout,
            handler.write_timeout == write_timeout,
            handler.clock.trace() == Seq::<LocalClockEvent>::empty(),
    {
        let clock = SystemLocalClock::new();
        NodePrivateLocalConnectionHandler {
            endpoint,
            peer_identity,
            read_timeout,
            write_timeout,
            clock,
        }
    }

    /// Serves exactly one request and response on the system's clock, then closes the connection
    /// in every outcome.
    pub fn handle<S: NodePrivateLocalStream>(&mut self, stream: &mut S) -> (result: Result<
        (),
        NodePrivateLocalConnectionError,
    >)
        ensures
            old(self).clock.trace().is_prefix_of(final(self).clock.trace()),
            (OpenConnection {
                stream: final(stream).world(),
                endpoint: final(self).endpoint.world(),
                clock: clock_shown(final(self).clock.trace(), final(self).clock.trace()),
                result,
            }) == connection_served(
                old(stream).world(),
                old(self).endpoint.world(),
                clock_shown(final(self).clock.trace(), old(self).clock.trace()),
                old(self).peer_identity,
                old(self).read_timeout,
                old(self).write_timeout,
            ),
            spans_started(calls_of(final(self).clock.trace())) == spans_started(
                calls_of(old(self).clock.trace()),
            ) + spans_of_connection(
                old(stream).world(),
                old(self).endpoint.world(),
                final(self).endpoint.world(),
                old(self).peer_identity,
                old(self).read_timeout,
                old(self).write_timeout,
            ),
            final(self).peer_identity == old(self).peer_identity,
            final(self).read_timeout == old(self).read_timeout,
            final(self).write_timeout == old(self).write_timeout,
    {
        let ghost before = *self;
        let ghost opened = stream.world();
        let result = serve_connection(
            &mut self.endpoint,
            &self.peer_identity,
            self.read_timeout,
            self.write_timeout,
            stream,
            &mut self.clock,
        );
        proof {
            law_connection_starts_its_deadlines(
                opened,
                before.endpoint.world(),
                clock_shown(self.clock.trace(), before.clock.trace()),
                before.peer_identity,
                before.read_timeout,
                before.write_timeout,
            );
        }
        result
    }

    /// Serves exactly one request and response on the given clock, then closes the connection in
    /// every outcome.
    pub fn handle_with<S: NodePrivateLocalStream, C: NodePrivateLocalClock>(
        &mut self,
        stream: &mut S,
        clock: &mut C,
    ) -> (result: Result<(), NodePrivateLocalConnectionError>)
        ensures
            old(clock).trace().is_prefix_of(final(clock).trace()),
            (OpenConnection {
                stream: final(stream).world(),
                endpoint: final(self).endpoint.world(),
                clock: clock_shown(final(clock).trace(), final(clock).trace()),
                result,
            }) == connection_served(
                old(stream).world(),
                old(self).endpoint.world(),
                clock_shown(final(clock).trace(), old(clock).trace()),
                old(self).peer_identity,
                old(self).read_timeout,
                old(self).write_timeout,
            ),
            spans_started(calls_of(final(clock).trace())) == spans_started(
                calls_of(old(clock).trace()),
            ) + spans_of_connection(
                old(stream).world(),
                old(self).endpoint.world(),
                final(self).endpoint.world(),
                old(self).peer_identity,
                old(self).read_timeout,
                old(self).write_timeout,
            ),
            final(self).peer_identity == old(self).peer_identity,
            final(self).read_timeout == old(self).read_timeout,
            final(self).write_timeout == old(self).write_timeout,
            final(self).clock == old(self).clock,
    {
        let ghost before = *self;
        let ghost opened = stream.world();
        let ghost begun = clock.trace();
        let result = serve_connection(
            &mut self.endpoint,
            &self.peer_identity,
            self.read_timeout,
            self.write_timeout,
            stream,
            clock,
        );
        proof {
            law_connection_starts_its_deadlines(
                opened,
                before.endpoint.world(),
                clock_shown(clock.trace(), begun),
                before.peer_identity,
                before.read_timeout,
                before.write_timeout,
            );
        }
        result
    }
}

/// A connection is closed in every outcome, as its last call.
pub proof fn law_connection_is_closed<I: NodePrivateLocalPeerIdentityProvider>(
    stream: LocalStreamWorld,
    endpoint: LocalEndpointWorld,
    clock: LocalClockWorld,
    identity: I,
    read_timeout: TimeSpan,
    write_timeout: TimeSpan,
)
    ensures
        connection_served(
            stream,
            endpoint,
            clock,
            identity,
            read_timeout,
            write_timeout,
        ).stream.calls.last() == LocalStreamCall::Close,
{
}

/// A foreign user's connection moves no byte, starts no deadline and reaches no endpoint.
pub proof fn law_foreign_user_is_refused<I: NodePrivateLocalPeerIdentityProvider>(
    stream: LocalStreamWorld,
    endpoint: LocalEndpointWorld,
    clock: LocalClockWorld,
    identity: I,
    read_timeout: TimeSpan,
    write_timeout: TimeSpan,
    peer_uid: u32,
)
    requires
        (stream.script.read_timeout)(stream.calls.len()) is Ok,
        (stream.script.write_timeout)(stream.calls.len() + 1) is Ok,
        (stream.script.peer_uid)(stream.calls.len() + 2) == Ok::<u32, NodePrivateLocalIoError>(
            peer_uid,
        ),
        identity.node_of(peer_uid) is Err,
    ensures
        ({
            let served = connection_served(
                stream,
                endpoint,
                clock,
                identity,
                read_timeout,
                write_timeout,
            );
            &&& served.endpoint == endpoint
            &&& served.clock == clock
            &&& served.result == Err::<(), NodePrivateLocalConnectionError>(
                NodePrivateLocalConnectionError::ForeignUser,
            )
            &&& served.stream.calls == stream.calls + seq![
                LocalStreamCall::SetReadTimeout { timeout: read_timeout },
                LocalStreamCall::SetWriteTimeout { timeout: write_timeout },
                LocalStreamCall::PeerUid,
                LocalStreamCall::Close,
            ]
        }),
{
    let served = connection_served(stream, endpoint, clock, identity, read_timeout, write_timeout);
    assert(served.stream.calls =~= stream.calls + seq![
        LocalStreamCall::SetReadTimeout { timeout: read_timeout },
        LocalStreamCall::SetWriteTimeout { timeout: write_timeout },
        LocalStreamCall::PeerUid,
        LocalStreamCall::Close,
    ]);
}

/// A connection gives the endpoint at most one document, and always for the peer's own node.
pub proof fn law_connection_asks_at_most_once<I: NodePrivateLocalPeerIdentityProvider>(
    stream: LocalStreamWorld,
    endpoint: LocalEndpointWorld,
    clock: LocalClockWorld,
    identity: I,
    read_timeout: TimeSpan,
    write_timeout: TimeSpan,
)
    ensures
        ({
            let calls = connection_served(
                stream,
                endpoint,
                clock,
                identity,
                read_timeout,
                write_timeout,
            ).endpoint.calls;
            ||| calls == endpoint.calls
            ||| exists|peer_uid: u32, document: Seq<u8>|
                {
                    &&& (stream.script.peer_uid)(stream.calls.len() + 2) == Ok::<
                        u32,
                        NodePrivateLocalIoError,
                    >(peer_uid)
                    &&& identity.node_of(peer_uid) is Ok
                    &&& calls == #[trigger] endpoint.calls.push(
                        (identity.node_of(peer_uid)->Ok_0, document),
                    )
                }
        }),
{
    let opened = connection_opened(stream, endpoint, clock, identity, read_timeout, write_timeout);
    if opened.endpoint.calls != endpoint.calls {
        let peer_uid = (stream.script.peer_uid)(stream.calls.len() + 2)->Ok_0;
        let known = stream.after(LocalStreamCall::SetReadTimeout { timeout: read_timeout }).after(
            LocalStreamCall::SetWriteTimeout { timeout: write_timeout },
        ).after(LocalStreamCall::PeerUid);
        let started = clock.started(read_timeout);
        let document = frame_read(known, limit(started.1, started.0)).2->Ok_0;
        assert(opened.endpoint.calls == endpoint.calls.push(
            (identity.node_of(peer_uid)->Ok_0, document),
        ));
    }
}

/// The deadlines that one connection starts: none before the peer is authorized, then the read
/// timeout, then the write timeout once a response is there.
pub open spec fn spans_of_connection<I: NodePrivateLocalPeerIdentityProvider>(
    stream: LocalStreamWorld,
    before: LocalEndpointWorld,
    after: LocalEndpointWorld,
    identity: I,
    read_timeout: TimeSpan,
    write_timeout: TimeSpan,
) -> Seq<TimeSpan> {
    if !authorized(stream, identity) {
        Seq::empty()
    } else if after.calls == before.calls || (before.script)(before.calls.len()) is Err {
        seq![read_timeout]
    } else {
        seq![read_timeout, write_timeout]
    }
}

/// The timeouts could be set and the peer represents a node.
pub open spec fn authorized<I: NodePrivateLocalPeerIdentityProvider>(
    stream: LocalStreamWorld,
    identity: I,
) -> bool {
    &&& (stream.script.read_timeout)(stream.calls.len()) is Ok
    &&& (stream.script.write_timeout)(stream.calls.len() + 1) is Ok
    &&& (stream.script.peer_uid)(stream.calls.len() + 2) matches Ok(peer_uid)
    &&& identity.node_of(peer_uid) is Ok
}

proof fn lemma_reads_start_nothing(calls: Seq<LocalClockCall>, questions: nat)
    ensures
        spans_started(calls + Seq::new(questions, |i: int| LocalClockCall::Read)) == spans_started(
            calls,
        ),
    decreases questions,
{
    let all = calls + Seq::new(questions, |i: int| LocalClockCall::Read);
    if questions == 0 {
        assert(all =~= calls);
    } else {
        let fewer = (questions - 1) as nat;
        assert(all.drop_last() =~= calls + Seq::new(fewer, |i: int| LocalClockCall::Read));
        lemma_reads_start_nothing(calls, fewer);
    }
}

proof fn lemma_span_started(clock: LocalClockWorld, span: TimeSpan)
    ensures
        spans_started(clock.started(span).0.calls) == spans_started(clock.calls).push(span),
{
    assert(clock.started(span).0.calls.drop_last() =~= clock.calls);
}

/// A connection starts the read timeout's deadline once its peer is authorized, the write
/// timeout's once a response is there, and no other.
pub proof fn law_connection_starts_its_deadlines<I: NodePrivateLocalPeerIdentityProvider>(
    stream: LocalStreamWorld,
    endpoint: LocalEndpointWorld,
    clock: LocalClockWorld,
    identity: I,
    read_timeout: TimeSpan,
    write_timeout: TimeSpan,
)
    ensures
        ({
            let served = connection_served(
                stream,
                endpoint,
                clock,
                identity,
                read_timeout,
                write_timeout,
            );
            spans_started(served.clock.calls) == spans_started(clock.calls) + spans_of_connection(
                stream,
                endpoint,
                served.endpoint,
                identity,
                read_timeout,
                write_timeout,
            )
        }),
{
    let served = connection_served(stream, endpoint, clock, identity, read_timeout, write_timeout);
    let earlier = spans_started(clock.calls);
    if authorized(stream, identity) {
        let known = stream.after(LocalStreamCall::SetReadTimeout { timeout: read_timeout }).after(
            LocalStreamCall::SetWriteTimeout { timeout: write_timeout },
        ).after(LocalStreamCall::PeerUid);
        let started = clock.started(read_timeout);
        lemma_span_started(clock, read_timeout);
        assert(earlier.push(read_timeout) =~= earlier + seq![read_timeout]);
        if let Some(deadline) = started.1 {
            let before = FrameLimit { deadline, clock: started.0 };
            let questions = lemma_frame_read_in_time(known, before);
            lemma_reads_start_nothing(started.0.calls, questions);
            let read = frame_read(known, Some(before));
            let local_node_id = identity.node_of(
                (stream.script.peer_uid)(stream.calls.len() + 2)->Ok_0,
            )->Ok_0;
            if let Ok(request) = read.2 {
                let asked = endpoint.after(local_node_id, request);
                assert(asked.calls.len() != endpoint.calls.len());
                if let Ok(response) = (endpoint.script)(endpoint.calls.len()) {
                    let clock = clock_behind(read.1);
                    let writing = clock.started(write_timeout);
                    lemma_span_started(clock, write_timeout);
                    assert(earlier.push(read_timeout).push(write_timeout) =~= earlier
                        + seq![read_timeout, write_timeout]);
                    if let Some(deadline) = writing.1 {
                        let before = FrameLimit { deadline, clock: writing.0 };
                        let questions = lemma_frame_written_in_time(read.0, response, before);
                        lemma_reads_start_nothing(writing.0.calls, questions);
                    }
                }
            }
        }
    } else {
        assert(earlier + Seq::<TimeSpan>::empty() =~= earlier);
    }
}

proof fn lemma_nothing_delivered(
    script: LocalStreamScript,
    calls: Seq<LocalStreamCall>,
    from: nat,
)
    requires
        forall|i: int| from <= i < calls.len() ==> !(#[trigger] calls[i] is Read),
    ensures
        delivered(script, calls, from) == Seq::<u8>::empty(),
    decreases calls.len(),
{
    if calls.len() > from {
        assert forall|i: int| from <= i < calls.len() - 1 implies !(#[trigger] calls.drop_last()[i]
            is Read) by {
            assert(calls.drop_last()[i] == calls[i]);
        }
        lemma_nothing_delivered(script, calls.drop_last(), from);
        assert(!(calls[calls.len() - 1] is Read));
        assert(delivered(script, calls, from) =~= Seq::<u8>::empty());
    }
}

proof fn lemma_nothing_handed_over(
    script: LocalStreamScript,
    calls: Seq<LocalStreamCall>,
    from: nat,
)
    requires
        forall|i: int| from <= i < calls.len() ==> !(#[trigger] calls[i] is Write),
    ensures
        handed_over(script, calls, from) == Seq::<u8>::empty(),
    decreases calls.len(),
{
    if calls.len() > from {
        assert forall|i: int| from <= i < calls.len() - 1 implies !(#[trigger] calls.drop_last()[i]
            is Write) by {
            assert(calls.drop_last()[i] == calls[i]);
        }
        lemma_nothing_handed_over(script, calls.drop_last(), from);
        assert(!(calls[calls.len() - 1] is Write));
        assert(handed_over(script, calls, from) =~= Seq::<u8>::empty());
    }
}

/// A connection that succeeded took in exactly one frame and gave out exactly one: the endpoint
/// got the document of the first, for the peer's own node, and its response is the document of the
/// second.
pub proof fn law_connection_exchanges_one_frame_each_way<I: NodePrivateLocalPeerIdentityProvider>(
    stream: LocalStreamWorld,
    endpoint: LocalEndpointWorld,
    clock: LocalClockWorld,
    identity: I,
    read_timeout: TimeSpan,
    write_timeout: TimeSpan,
)
    requires
        honest(stream.script),
        connection_served(
            stream,
            endpoint,
            clock,
            identity,
            read_timeout,
            write_timeout,
        ).result is Ok,
    ensures
        ({
            let served = connection_served(
                stream,
                endpoint,
                clock,
                identity,
                read_timeout,
                write_timeout,
            );
            let peer_uid = (stream.script.peer_uid)(stream.calls.len() + 2);
            let request = served.endpoint.calls.last().1;
            let response = (endpoint.script)(endpoint.calls.len());
            &&& peer_uid is Ok
            &&& identity.node_of(peer_uid->Ok_0) is Ok
            &&& response is Ok
            &&& served.endpoint.calls == endpoint.calls.push(
                (identity.node_of(peer_uid->Ok_0)->Ok_0, request),
            )
            &&& delivered(stream.script, served.stream.calls, stream.calls.len()) == frame(request)
            &&& handed_over(stream.script, served.stream.calls, stream.calls.len()) == frame(
                response->Ok_0,
            )
        }),
{
    let served = connection_served(stream, endpoint, clock, identity, read_timeout, write_timeout);
    let script = stream.script;
    let from = stream.calls.len();
    let known = stream.after(LocalStreamCall::SetReadTimeout { timeout: read_timeout }).after(
        LocalStreamCall::SetWriteTimeout { timeout: write_timeout },
    ).after(LocalStreamCall::PeerUid);
    let started = clock.started(read_timeout);
    let reading = FrameLimit { deadline: started.1->Some_0, clock: started.0 };
    let read = frame_read(known, Some(reading));
    let request = read.2->Ok_0;
    let response = (endpoint.script)(endpoint.calls.len())->Ok_0;
    let after = clock_behind(read.1).started(write_timeout);
    let writing = FrameLimit { deadline: after.1->Some_0, clock: after.0 };
    let written = frame_written(read.0, response, Some(writing));
    let all = served.stream.calls;
    let _ = lemma_frame_read_in_time(known, reading);
    let _ = lemma_frame_written_in_time(read.0, response, writing);
    assert(all == written.0.calls.push(LocalStreamCall::Close));
    assert(served.endpoint.calls.last().1 == request);
    law_frame_read_is_delivered(known, Some(reading));
    law_frame_written_is_handed_over(read.0, response, Some(writing));
    let taken = read.0.calls;
    assert(stream.calls.is_prefix_of(known.calls));
    assert(taken.is_prefix_of(all));
    assert(known.calls.is_prefix_of(all)) by {
        assert forall|i: int| 0 <= i < known.calls.len() implies known.calls[i] == all[i] by {
            assert(known.calls[i] == taken[i]);
        }
    }
    assert forall|i: int| taken.len() <= i < all.len() implies !(#[trigger] all[i] is Read) by {
        if i < written.0.calls.len() {
            assert(all[i] == written.0.calls[i]);
        }
    }
    lemma_nothing_delivered(script, known.calls, from);
    lemma_nothing_delivered(script, all, taken.len());
    lemma_delivered_joined(script, known.calls, all, from);
    lemma_delivered_joined(script, taken, all, known.calls.len());
    assert(delivered(script, all, from) =~= frame(request));
    lemma_nothing_handed_over(script, taken, known.calls.len());
    lemma_nothing_handed_over(script, known.calls, from);
    lemma_handed_over_joined(script, known.calls, all, from);
    lemma_handed_over_joined(script, taken, all, known.calls.len());
    lemma_delivered_step(script, written.0.calls, LocalStreamCall::Close, taken.len());
    assert(handed_over(script, all, from) =~= frame(response));
}

/// Names fixed listener lifecycle failures without retaining paths or platform text.
#[derive(Clone, Copy, Debug, PartialEq, Eq, Structural)]
pub enum NodePrivateLocalServerError {
    UnsafeSocketParent,
    UnsafeSocketPath,
    AlreadyRunning,
    BindFailed,
    PermissionFailed,
    ListenerConfigurationFailed,
    AcceptFailed,
    ListenerSpawnFailed,
    WorkerSpawnFailed,
    WorkerPanicked,
    ServerThreadPanicked,
}

impl NodePrivateLocalServerError {
    /// The fixed text of the failure.
    pub open spec fn text(self) -> Seq<char> {
        match self {
            NodePrivateLocalServerError::UnsafeSocketParent => {
                "private Node socket parent is not owner-only"@
            },
            NodePrivateLocalServerError::UnsafeSocketPath => {
                "private Node socket path is not a safe owned socket"@
            },
            NodePrivateLocalServerError::AlreadyRunning => {
                "another private Node listener is already running"@
            },
            NodePrivateLocalServerError::BindFailed => "private Node socket bind failed"@,
            NodePrivateLocalServerError::PermissionFailed => {
                "private Node socket permission update failed"@
            },
            NodePrivateLocalServerError::ListenerConfigurationFailed => {
                "private Node listener configuration failed"@
            },
            NodePrivateLocalServerError::AcceptFailed => "private Node socket accept failed"@,
            NodePrivateLocalServerError::ListenerSpawnFailed => {
                "private Node listener could not start"@
            },
            NodePrivateLocalServerError::WorkerSpawnFailed => {
                "private Node connection worker could not start"@
            },
            NodePrivateLocalServerError::WorkerPanicked => "private Node connection worker failed"@,
            NodePrivateLocalServerError::ServerThreadPanicked => {
                "private Node listener thread failed"@
            },
        }
    }

    /// Presents stable listener failures without copying native error messages.
    pub fn message(&self) -> (text: &'static str)
        ensures
            text@ == self.text(),
    {
        match self {
            NodePrivateLocalServerError::UnsafeSocketParent => {
                "private Node socket parent is not owner-only"
            },
            NodePrivateLocalServerError::UnsafeSocketPath => {
                "private Node socket path is not a safe owned socket"
            },
            NodePrivateLocalServerError::AlreadyRunning => {
                "another private Node listener is already running"
            },
            NodePrivateLocalServerError::BindFailed => "private Node socket bind failed",
            NodePrivateLocalServerError::PermissionFailed => {
                "private Node socket permission update failed"
            },
            NodePrivateLocalServerError::ListenerConfigurationFailed => {
                "private Node listener configuration failed"
            },
            NodePrivateLocalServerError::AcceptFailed => "private Node socket accept failed",
            NodePrivateLocalServerError::ListenerSpawnFailed => {
                "private Node listener could not start"
            },
            NodePrivateLocalServerError::WorkerSpawnFailed => {
                "private Node connection worker could not start"
            },
            NodePrivateLocalServerError::WorkerPanicked => "private Node connection worker failed",
            NodePrivateLocalServerError::ServerThreadPanicked => {
                "private Node listener thread failed"
            },
        }
    }
}

// ---------------------------------------------------------------------------
// Workers
// ---------------------------------------------------------------------------

/// The active workers after one more was reserved, if there is room.
pub open spec fn worker_reserved(active_workers: usize, maximum_workers: usize) -> Option<usize> {
    if active_workers < maximum_workers {
        Some((active_workers + 1) as usize)
    } else {
        None
    }
}

/// Reserves one active-worker slot without ever exceeding the configured maximum.
pub fn reserve_worker(active_workers: usize, maximum_workers: usize) -> (reserved: Option<usize>)
    ensures
        reserved == worker_reserved(active_workers, maximum_workers),
{
    if active_workers < maximum_workers {
        Some(active_workers + 1)
    } else {
        None
    }
}

/// Releases exactly one worker reservation.
pub fn release_worker(active_workers: usize) -> (left: usize)
    requires
        active_workers > 0,
    ensures
        left == active_workers - 1,
{
    active_workers - 1
}

/// A reservation never exceeds the maximum, and its release gives back the count before it.
pub proof fn law_workers_stay_bounded(active_workers: usize, maximum_workers: usize)
    requires
        active_workers <= maximum_workers,
    ensures
        worker_reserved(active_workers, maximum_workers) matches Some(reserved) ==> reserved
            <= maximum_workers && reserved - 1 == active_workers,
        worker_reserved(active_workers, maximum_workers) is None <==> active_workers
            == maximum_workers,
{
}

/// What the accept loop does with one attempt.
#[derive(Clone, Copy, Debug, PartialEq, Eq, Structural)]
pub enum AcceptStep {
    /// Starts a worker for the stream; this many are active with it.
    Serve { active_workers: usize },
    /// Closes the stream, since every worker is busy.
    Refuse,
    /// Waits before the next attempt.
    Wait,
}

/// What one attempt leads to: a stream is served while there is room.
pub open spec fn attempt_judged(
    accepted: Result<bool, NodePrivateLocalServerError>,
    active_workers: usize,
    maximum_workers: usize,
) -> Result<AcceptStep, NodePrivateLocalServerError> {
    match accepted {
        Err(error) => Err(error),
        Ok(false) => Ok(AcceptStep::Wait),
        Ok(true) => match worker_reserved(active_workers, maximum_workers) {
            Some(active_workers) => Ok(AcceptStep::Serve { active_workers }),
            None => Ok(AcceptStep::Refuse),
        },
    }
}

/// A listener: what each of its accept attempts will bring, and how many were made.
pub struct ListenerWorld {
    pub script: spec_fn(nat) -> Result<bool, NodePrivateLocalServerError>,
    pub attempts: nat,
}

/// Accepts nonblocking streams while retaining socket cleanup ownership in the provider.
pub trait NodePrivateLocalListener {
    /// The streams that it hands out.
    type Stream: NodePrivateLocalStream;

    /// The attempts that are still to come and the number of those made.
    spec fn world(&self) -> ListenerWorld;

    /// Returns one accepted stream, no pending stream, or one terminal listener failure.
    fn accept(&mut self) -> (reply: Result<Option<Self::Stream>, NodePrivateLocalServerError>)
        ensures
            final(self).world().script == old(self).world().script,
            final(self).world().attempts == old(self).world().attempts + 1,
            (old(self).world().script)(old(self).world().attempts) == (match reply {
                Ok(stream) => Ok::<bool, NodePrivateLocalServerError>(stream is Some),
                Err(error) => Err(error),
            }),
    ;
}

/// What one turn of the accept loop came to.
pub enum AcceptTurn<S> {
    /// A worker is due for the stream; this many are active with it.
    Serve { stream: S, active_workers: usize },
    /// The stream was closed, since every worker was busy.
    Refused { stream: S },
    /// Nothing was pending.
    Wait,
}

impl<S> AcceptTurn<S> {
    /// The step that the turn took.
    pub open spec fn step(self) -> AcceptStep {
        match self {
            AcceptTurn::Serve { active_workers, .. } => AcceptStep::Serve { active_workers },
            AcceptTurn::Refused { .. } => AcceptStep::Refuse,
            AcceptTurn::Wait => AcceptStep::Wait,
        }
    }
}

/// Takes one turn of the accept loop: a stream for which there is no room is closed at once, and
/// how its close ended does not matter.
pub fn accept_turn<L: NodePrivateLocalListener>(
    listener: &mut L,
    active_workers: usize,
    maximum_workers: usize,
) -> (turn: Result<AcceptTurn<L::Stream>, NodePrivateLocalServerError>)
    ensures
        final(listener).world().script == old(listener).world().script,
        final(listener).world().attempts == old(listener).world().attempts + 1,
        (match turn {
            Ok(turn) => Ok::<AcceptStep, NodePrivateLocalServerError>(turn.step()),
            Err(error) => Err(error),
        }) == attempt_judged(
            (old(listener).world().script)(old(listener).world().attempts),
            active_workers,
            maximum_workers,
        ),
        turn matches Ok(AcceptTurn::Refused { stream }) ==> stream.world().calls.len() > 0
            && stream.world().calls.last() == LocalStreamCall::Close,
{
    match listener.accept() {
        Err(error) => Err(error),
        Ok(None) => Ok(AcceptTurn::Wait),
        Ok(Some(mut stream)) => match reserve_worker(active_workers, maximum_workers) {
            Some(active_workers) => Ok(AcceptTurn::Serve { stream, active_workers }),
            None => {
                let _ = stream.close();
                Ok(AcceptTurn::Refused { stream })
            },
        },
    }
}

/// Reads one accept attempt: no pending stream is no failure.
pub fn classify_accept(accepted: Result<(), NativeErrorKind>) -> (result: Result<
    bool,
    NodePrivateLocalServerError,
>)
    ensures
        result == (match accepted {
            Ok(()) => Ok::<bool, NodePrivateLocalServerError>(true),
            Err(NativeErrorKind::WouldBlock) | Err(NativeErrorKind::Interrupted) => Ok(false),
            Err(_) => Err(NodePrivateLocalServerError::AcceptFailed),
        }),
{
    match accepted {
        Ok(()) => Ok(true),
        Err(NativeErrorKind::WouldBlock) | Err(NativeErrorKind::Interrupted) => Ok(false),
        Err(_) => Err(NodePrivateLocalServerError::AcceptFailed),
    }
}

/// Reports how one listener ended: a lost thread first, then its terminal failure.
pub fn shutdown_result(
    joined: bool,
    terminal_error: Option<NodePrivateLocalServerError>,
) -> (result:
    Result<(), NodePrivateLocalServerError>)
    ensures
        result == (if !joined {
            Err(NodePrivateLocalServerError::ServerThreadPanicked)
        } else {
            match terminal_error {
                Some(error) => Err(error),
                None => Ok::<(), NodePrivateLocalServerError>(()),
            }
        }),
{
    if !joined {
        return Err(NodePrivateLocalServerError::ServerThreadPanicked);
    }
    match terminal_error {
        Some(error) => Err(error),
        None => Ok(()),
    }
}

// ---------------------------------------------------------------------------
// The socket
// ---------------------------------------------------------------------------

/// What one path showed.
#[derive(Clone, Copy, Debug, PartialEq, Eq, Structural)]
pub struct SocketObservation {
    pub is_socket: bool,
    pub user_id: u32,
    pub mode: u32,
    pub device: u64,
    pub inode: u64,
}

/// A socket that only its owner can use.
pub open spec fn private_socket(socket: SocketObservation, owner_uid: u32) -> bool {
    socket.is_socket && socket.user_id == owner_uid && socket.mode & 0o077 == 0
}

/// Requires the configured owner to be the effective user.
pub fn require_owner(owner_uid: u32, effective_uid: u32) -> (result: Result<
    (),
    NodePrivateLocalServerError,
>)
    ensures
        result == (if owner_uid == effective_uid {
            Ok::<(), NodePrivateLocalServerError>(())
        } else {
            Err(NodePrivateLocalServerError::UnsafeSocketParent)
        }),
{
    if owner_uid != effective_uid {
        return Err(NodePrivateLocalServerError::UnsafeSocketParent);
    }
    Ok(())
}

/// What is done about the path before it is bound.
#[derive(Clone, Copy, Debug, PartialEq, Eq, Structural)]
pub enum SocketPreparation {
    /// Nothing is there.
    Ready,
    /// A private socket is there: find out whether anyone listens.
    Probe,
    /// Nobody listens: remove the stale socket.
    Remove,
}

/// What the metadata of the path leads to.
pub open spec fn path_prepared(
    metadata: Result<SocketObservation, NativeErrorKind>,
    owner_uid: u32,
) -> Result<SocketPreparation, NodePrivateLocalServerError> {
    match metadata {
        Err(NativeErrorKind::NotFound) => Ok(SocketPreparation::Ready),
        Ok(socket) if private_socket(socket, owner_uid) => Ok(SocketPreparation::Probe),
        _ => Err(NodePrivateLocalServerError::UnsafeSocketPath),
    }
}

/// Decides from the metadata of the path how it is prepared.
pub fn prepare_socket_path(
    metadata: Result<SocketObservation, NativeErrorKind>,
    owner_uid: u32,
) -> (step: Result<SocketPreparation, NodePrivateLocalServerError>)
    ensures
        step == path_prepared(metadata, owner_uid),
{
    match metadata {
        Err(NativeErrorKind::NotFound) => Ok(SocketPreparation::Ready),
        Err(_) => Err(NodePrivateLocalServerError::UnsafeSocketPath),
        Ok(socket) => {
            if !socket.is_socket || socket.user_id != owner_uid || socket.mode & 0o077 != 0 {
                return Err(NodePrivateLocalServerError::UnsafeSocketPath);
            }
            Ok(SocketPreparation::Probe)
        },
    }
}

/// What a connection attempt to the stale path leads to.
pub open spec fn path_probed(connected: Result<(), NativeErrorKind>) -> Result<
    SocketPreparation,
    NodePrivateLocalServerError,
> {
    match connected {
        Ok(()) => Err(NodePrivateLocalServerError::AlreadyRunning),
        Err(NativeErrorKind::ConnectionRefused) => Ok(SocketPreparation::Remove),
        Err(NativeErrorKind::NotFound) => Ok(SocketPreparation::Ready),
        Err(_) => Err(NodePrivateLocalServerError::UnsafeSocketPath),
    }
}

/// Decides from a connection attempt whether the stale socket goes.
pub fn probe_socket_path(connected: Result<(), NativeErrorKind>) -> (step: Result<
    SocketPreparation,
    NodePrivateLocalServerError,
>)
    ensures
        step == path_probed(connected),
{
    match connected {
        Ok(()) => Err(NodePrivateLocalServerError::AlreadyRunning),
        Err(NativeErrorKind::ConnectionRefused) => Ok(SocketPreparation::Remove),
        Err(NativeErrorKind::NotFound) => Ok(SocketPreparation::Ready),
        Err(_) => Err(NodePrivateLocalServerError::UnsafeSocketPath),
    }
}

/// A stale path is removed only if it was a private socket of the owner on which nobody listens.
pub proof fn law_only_stale_sockets_are_removed(
    metadata: Result<SocketObservation, NativeErrorKind>,
    connected: Result<(), NativeErrorKind>,
    owner_uid: u32,
)
    requires
        path_prepared(metadata, owner_uid) == Ok::<SocketPreparation, NodePrivateLocalServerError>(
            SocketPreparation::Probe,
        ),
        path_probed(connected) == Ok::<SocketPreparation, NodePrivateLocalServerError>(
            SocketPreparation::Remove,
        ),
    ensures
        metadata matches Ok(socket) && private_socket(socket, owner_uid),
        connected == Err::<(), NativeErrorKind>(NativeErrorKind::ConnectionRefused),
{
}

/// Requires the path that was just bound to be a socket of the effective user.
pub fn bound_socket(metadata: Option<SocketObservation>, effective_uid: u32) -> (socket: Result<
    SocketObservation,
    NodePrivateLocalServerError,
>)
    ensures
        socket == (match metadata {
            Some(socket) if socket.is_socket && socket.user_id == effective_uid => Ok::<
                SocketObservation,
                NodePrivateLocalServerError,
            >(socket),
            _ => Err(NodePrivateLocalServerError::UnsafeSocketPath),
        }),
{
    match metadata {
        Some(socket) => {
            if !socket.is_socket || socket.user_id != effective_uid {
                return Err(NodePrivateLocalServerError::UnsafeSocketPath);
            }
            Ok(socket)
        },
        None => Err(NodePrivateLocalServerError::UnsafeSocketPath),
    }
}

/// Requires the configured listener's path to be the private socket that was bound.
pub fn listening_socket(
    bound: SocketObservation,
    metadata: Option<SocketObservation>,
    effective_uid: u32,
) -> (socket: Result<SocketObservation, NodePrivateLocalServerError>)
    ensures
        socket == (match metadata {
            Some(socket) if private_socket(socket, effective_uid) && socket.device == bound.device
                && socket.inode == bound.inode => Ok::<
                SocketObservation,
                NodePrivateLocalServerError,
            >(socket),
            _ => Err(NodePrivateLocalServerError::UnsafeSocketPath),
        }),
{
    match metadata {
        Some(socket) => {
            if !socket.is_socket || socket.user_id != effective_uid || socket.mode & 0o077 != 0
                || socket.device != bound.device || socket.inode != bound.inode {
                return Err(NodePrivateLocalServerError::UnsafeSocketPath);
            }
            Ok(socket)
        },
        None => Err(NodePrivateLocalServerError::UnsafeSocketPath),
    }
}

/// Returns whether the path is exactly the socket that this listener created.
pub fn removes_exact_socket(
    metadata: Option<SocketObservation>,
    owner_uid: u32,
    device: u64,
    inode: u64,
) -> (removes: bool)
    ensures
        removes == (metadata matches Some(socket) && socket.is_socket && socket.user_id == owner_uid
            && socket.device == device && socket.inode == inode),
{
    match metadata {
        Some(socket) => socket.is_socket && socket.user_id == owner_uid && socket.device == device
            && socket.inode == inode,
        None => false,
    }
}

/// Maps one native I/O failure into a closed redacted stream result.
pub fn classify_stream_error(kind: NativeErrorKind) -> (mapped: NodePrivateLocalIoError)
    ensures
        mapped == (match kind {
            NativeErrorKind::TimedOut | NativeErrorKind::WouldBlock => {
                NodePrivateLocalIoError::TimedOut
            },
            NativeErrorKind::Interrupted => NodePrivateLocalIoError::Interrupted,
            _ => NodePrivateLocalIoError::Unavailable,
        }),
{
    match kind {
        NativeErrorKind::TimedOut | NativeErrorKind::WouldBlock => NodePrivateLocalIoError::TimedOut,
        NativeErrorKind::Interrupted => NodePrivateLocalIoError::Interrupted,
        _ => NodePrivateLocalIoError::Unavailable,
    }
}

/// Reads one shutdown of both directions: an already closed peer is no failure.
pub fn classify_close(closed: Result<(), NativeErrorKind>) -> (result: Result<
    (),
    NodePrivateLocalIoError,
>)
    ensures
        result == (match closed {
            Ok(()) | Err(NativeErrorKind::NotConnected) => Ok::<(), NodePrivateLocalIoError>(()),
            Err(NativeErrorKind::TimedOut) | Err(NativeErrorKind::WouldBlock) => Err(
                NodePrivateLocalIoError::TimedOut,
            ),
            Err(NativeErrorKind::Interrupted) => Err(NodePrivateLocalIoError::Interrupted),
            Err(_) => Err(NodePrivateLocalIoError::Unavailable),
        }),
{
    match closed {
        Ok(()) => Ok(()),
        Err(NativeErrorKind::NotConnected) => Ok(()),
        Err(kind) => Err(classify_stream_error(kind)),
    }
}

} // verus!
