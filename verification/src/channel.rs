//! The queue through which commands reach the owner of the overlay.

use vstd::prelude::*;
use crossbeam_channel::{Receiver, SendTimeoutError, Sender, TryRecvError, TrySendError};

verus! {

/// The sending half of a channel.
#[verifier::external_type_specification]
#[verifier::external_body]
#[verifier::reject_recursive_types(T)]
pub struct ExSender<T>(Sender<T>);

/// The receiving half of a channel.
#[verifier::external_type_specification]
#[verifier::external_body]
#[verifier::reject_recursive_types(T)]
pub struct ExReceiver<T>(Receiver<T>);

/// How many commands the queue holds. A burst across several cursors must fit,
/// or the cursor does not appear.
pub const QUEUE_CAPACITY: usize = 256;

/// How long a sender waits for room in a full queue, in milliseconds.
pub const SEND_WAIT_MILLIS: u64 = 100;

/// What a command asks of the cursor, as far as the overlay tells commands
/// apart.
#[derive(Clone, Copy, Debug, PartialEq, Eq, Structural)]
pub enum CommandKind {
    MoveTo,
    SnapTo,
    ClickPulse,
    ShowFocusRect,
    Other,
}

impl CommandKind {
    /// Whether a command of this kind names a point on the screen that the
    /// cursor goes to.
    pub open spec fn spec_has_target(self) -> bool {
        self == CommandKind::MoveTo || self == CommandKind::SnapTo || self
            == CommandKind::ClickPulse
    }

    /// Whether a command of this kind names a point on the screen that the
    /// cursor goes to.
    #[verifier::when_used_as_spec(spec_has_target)]
    pub fn has_target(self) -> (r: bool)
        ensures
            r == self.spec_has_target(),
    {
        match self {
            CommandKind::MoveTo | CommandKind::SnapTo | CommandKind::ClickPulse => true,
            CommandKind::ShowFocusRect | CommandKind::Other => false,
        }
    }
}

/// A command for the render core. The overlay reads the kind. The payload is a
/// number under which the sender keeps what else the command says.
#[derive(Clone, Copy, Debug, PartialEq, Eq, Structural)]
pub struct OverlayCommand {
    pub kind: CommandKind,
    pub payload: u64,
}

/// A message to the overlay.
#[derive(Clone, Copy, Debug, PartialEq, Eq, Structural)]
pub enum OverlayMsg {
    /// The cursor is removed.
    Remove,
    /// A command for the cursor.
    Cmd(OverlayCommand),
}

/// What travels through the queue: plain values, with nothing ghost in them.
/// The queue's history foretells what comes out, and a value that could be made
/// from the history would contradict it.
#[derive(Clone, Copy, Debug, PartialEq, Eq, Structural)]
pub enum WlOverlayCmd {
    Cmd { cmd: OverlayCommand },
    Remove,
    Shutdown,
}

/// What became of an attempt to send without waiting.
#[derive(Clone, Copy, Debug, PartialEq, Eq, Structural)]
pub enum TrySend {
    Sent,
    Full(WlOverlayCmd),
    Disconnected(WlOverlayCmd),
}

/// What became of a command. One that was not queued is handed back.
#[derive(Clone, Copy, Debug, PartialEq, Eq, Structural)]
pub enum Delivery {
    Queued,
    /// The queue stayed full for as long as it was waited for.
    TimedOut(WlOverlayCmd),
    /// The owner was gone.
    Disconnected(WlOverlayCmd),
    /// The owner went while room was waited for.
    DisconnectedInWait(WlOverlayCmd),
}

/// What to do after an attempt to send without waiting.
#[derive(Clone, Copy, Debug, PartialEq, Eq, Structural)]
pub enum SendStep {
    /// Nothing more is to be done.
    Finished(Delivery),
    /// The queue is full: wait for room.
    Wait(WlOverlayCmd),
}

/// What became of a message.
#[derive(Clone, Copy, Debug, PartialEq, Eq, Structural)]
pub enum Forwarded {
    /// There is no owner to forward to.
    NotStarted,
    /// The overlay does not show such commands.
    Ignored,
    /// The message was handed to the queue.
    Handed(Delivery),
}

/// What a look into the queue brought.
#[derive(Clone, Copy, Debug, PartialEq, Eq, Structural)]
pub enum Received {
    Got(WlOverlayCmd),
    Empty,
    Disconnected,
}

/// A way of sending a command.
pub enum Attempt {
    /// Without waiting; `full` where the queue had no room.
    Try { full: bool },
    /// Waiting for room for some milliseconds at most.
    Wait { millis: u64 },
    /// Waiting for room however long it takes.
    Block,
}

/// The mathematical value of a queue.
pub struct Queue {
    /// What tells the queue from any other.
    pub id: int,
    /// How many commands the queue holds at most.
    pub capacity: nat,
    /// The commands that enter the queue in its lifetime, whoever sends them,
    /// by the place in the order in which they enter.
    pub history: Map<nat, WlOverlayCmd>,
}

/// A handle for sending commands. Its view is the commands that went into the
/// queue through this handle, in order.
pub struct CommandSender {
    tx: Sender<WlOverlayCmd>,
    sent: Ghost<Seq<WlOverlayCmd>>,
    stand: Ghost<Seq<nat>>,
    passed: Ghost<nat>,
    tried: Ghost<Seq<Attempt>>,
    of: Ghost<Queue>,
}

/// The handle for receiving commands. Its view is the commands that came out
/// of the queue through this handle, in order.
pub struct CommandReceiver {
    rx: Receiver<WlOverlayCmd>,
    got: Ghost<Seq<WlOverlayCmd>>,
    seen: Ghost<Seq<Received>>,
    of: Ghost<Queue>,
}

impl View for CommandSender {
    type V = Seq<WlOverlayCmd>;

    closed spec fn view(&self) -> Seq<WlOverlayCmd> {
        self.sent@
    }
}

impl View for CommandReceiver {
    type V = Seq<WlOverlayCmd>;

    closed spec fn view(&self) -> Seq<WlOverlayCmd> {
        self.got@
    }
}

impl CommandSender {
    /// The queue that the handle belongs to.
    pub closed spec fn queue(&self) -> Queue {
        self.of@
    }

    /// How many commands the queue holds at most.
    pub open spec fn capacity(&self) -> nat {
        self.queue().capacity
    }

    /// The places in the queue's history of the commands that were sent through
    /// this handle.
    pub closed spec fn places(&self) -> Seq<nat> {
        self.stand@
    }

    /// How many commands are known, by what happened to this handle, to have
    /// entered the queue. What the handle sends stands behind them.
    pub closed spec fn floor(&self) -> nat {
        self.passed@
    }

    /// The attempts to send that were made through this handle, successful or
    /// not, in order.
    pub closed spec fn attempts(&self) -> Seq<Attempt> {
        self.tried@
    }

    /// Each command that was sent through this handle stands at a place of its
    /// own in the queue's history, behind those sent before it.
    pub open spec fn wf(&self) -> bool {
        &&& self.places().len() == self@.len()
        &&& forall|i: int|
            0 <= i < self.places().len() ==> #[trigger] self.places()[i] < self.floor()
        &&& forall|i: int, j: int|
            0 <= i < j < self.places().len() ==> self.places()[i] < self.places()[j]
        &&& forall|i: int|
            #![trigger self.places()[i]]
            #![trigger self@[i]]
            0 <= i < self@.len() ==> self.queue().history.contains_key(self.places()[i])
                && self.queue().history[self.places()[i]] == self@[i]
    }

    /// What this handle sends from now on stands behind all that `other` has
    /// sent.
    pub open spec fn follows(&self, other: CommandSender) -> bool {
        &&& self.queue() == other.queue()
        &&& other.floor() <= self.floor()
    }

    /// The handle after `cmd` went into its queue, behind all that was known to
    /// have entered it before.
    pub open spec fn is_sent(&self, cmd: WlOverlayCmd, after: CommandSender) -> bool {
        &&& after.queue() == self.queue()
        &&& after@ == self@.push(cmd)
        &&& after.places() == self.places().push(after.places().last())
        &&& self.floor() <= after.places().last()
        &&& after.floor() == after.places().last() + 1
        &&& self.queue().history.contains_key(after.places().last())
        &&& self.queue().history[after.places().last()] == cmd
    }

    /// The handle after nothing went into its queue.
    pub open spec fn is_kept(&self, after: CommandSender) -> bool {
        &&& after.queue() == self.queue()
        &&& after@ == self@
        &&& after.places() == self.places()
        &&& after.floor() == self.floor()
    }

    /// A handle through which nothing was sent or tried.
    pub open spec fn is_fresh(&self) -> bool {
        &&& self@ == Seq::<WlOverlayCmd>::empty()
        &&& self.places() == Seq::<nat>::empty()
        &&& self.attempts() == Seq::<Attempt>::empty()
    }
}

impl CommandReceiver {
    /// The queue that the handle belongs to.
    pub closed spec fn queue(&self) -> Queue {
        self.of@
    }

    /// What each look into the queue through this handle brought, in order.
    pub closed spec fn looks(&self) -> Seq<Received> {
        self.seen@
    }

    /// What came out of the queue is the beginning of the queue's history.
    pub open spec fn wf(&self) -> bool {
        forall|i: nat|
            #![trigger self@[i as int]]
            #![trigger self.queue().history.contains_key(i)]
            i < self@.len() ==> self.queue().history.contains_key(i)
                && self.queue().history[i] == self@[i as int]
    }

    /// Everything that ever enters the queue has come out.
    pub open spec fn is_drained(&self) -> bool {
        forall|n: nat| #[trigger] self.queue().history.contains_key(n) ==> n < self@.len()
    }

    /// The handle after a look that brought `received`: a command that came out
    /// is the next one of the queue's history, and where no sender is left the
    /// history has no more.
    pub open spec fn is_looked(&self, received: Received, after: CommandReceiver) -> bool {
        &&& after.queue() == self.queue()
        &&& after.looks() == self.looks().push(received)
        &&& match received {
            Received::Got(cmd) => {
                &&& after@ == self@.push(cmd)
                &&& self.queue().history.contains_key(self@.len())
                &&& self.queue().history[self@.len()] == cmd
            },
            Received::Empty => after@ == self@,
            Received::Disconnected => after@ == self@ && self.is_drained(),
        }
    }
}

impl Delivery {
    /// The outcome of handing `cmd` to a queue: either `cmd` was the one
    /// addition to what was sent, or nothing was and `cmd` came back.
    pub open spec fn accounts_for(
        self,
        cmd: WlOverlayCmd,
        before: CommandSender,
        after: CommandSender,
    ) -> bool {
        match self {
            Delivery::Queued => before.is_sent(cmd, after),
            Delivery::TimedOut(c)
            | Delivery::Disconnected(c)
            | Delivery::DisconnectedInWait(c) => before.is_kept(after) && c == cmd,
        }
    }

    /// The attempts behind the outcome: one without waiting, and, exactly where
    /// that one found the queue full, one that waits for [`SEND_WAIT_MILLIS`].
    pub open spec fn took_attempts(self, before: Seq<Attempt>, after: Seq<Attempt>) -> bool {
        ||| {
            &&& after == before.push(Attempt::Try { full: false })
            &&& self is Queued || self is Disconnected
        }
        ||| {
            &&& after == before.push(Attempt::Try { full: true }).push(
                Attempt::Wait { millis: SEND_WAIT_MILLIS },
            )
            &&& self is Queued || self is TimedOut || self is DisconnectedInWait
        }
    }
}

/// Sending keeps a handle well-formed.
proof fn lemma_sent_keeps_wf(
    delivery: Delivery,
    cmd: WlOverlayCmd,
    before: CommandSender,
    after: CommandSender,
)
    requires
        delivery.accounts_for(cmd, before, after),
        before.wf(),
    ensures
        after.wf(),
{
    assert forall|i: int, j: int| 0 <= i < j < after.places().len() implies after.places()[i]
        < after.places()[j] by {
        if j == before.places().len() && delivery is Queued {
            assert(after.places()[i] == before.places()[i]);
        }
    }
    assert forall|i: int|
        #![trigger after.places()[i]]
        #![trigger after@[i]]
        0 <= i < after@.len() implies after.queue().history.contains_key(after.places()[i])
        && after.queue().history[after.places()[i]] == after@[i] by {
        if i < before@.len() {
            assert(before.places()[i] == after.places()[i]);
            assert(before@[i] == after@[i]);
        }
    }
}

/// Looking into the queue keeps a handle well-formed.
proof fn lemma_looked_keeps_wf(
    received: Received,
    before: CommandReceiver,
    after: CommandReceiver,
)
    requires
        before.is_looked(received, after),
        before.wf(),
    ensures
        after.wf(),
{
    assert forall|i: nat|
        #![trigger after@[i as int]]
        #![trigger after.queue().history.contains_key(i)]
        i < after@.len() implies after.queue().history.contains_key(i)
        && after.queue().history[i] == after@[i as int] by {
        if i < before@.len() {
            assert(before@[i as int] == after@[i as int]);
        }
    }
}

impl CommandSender {
    /// `Sender::try_send` puts the command into the queue at once, or returns
    /// it where the queue is full or its receiver is gone. A command that goes
    /// in stands behind all that entered the queue before the call. Which of
    /// the three happens rests on the other threads.
    #[verifier::external_body]
    fn try_send(&mut self, cmd: WlOverlayCmd) -> (r: TrySend)
        ensures
            final(self).attempts() == old(self).attempts().push(Attempt::Try { full: r is Full }),
            match r {
                TrySend::Sent => old(self).is_sent(cmd, *final(self)),
                TrySend::Full(c) | TrySend::Disconnected(c) => old(self).is_kept(*final(self))
                    && c == cmd,
            },
    {
        match self.tx.try_send(cmd) {
            Ok(()) => TrySend::Sent,
            Err(TrySendError::Full(c)) => TrySend::Full(c),
            Err(TrySendError::Disconnected(c)) => TrySend::Disconnected(c),
        }
    }

    /// `Sender::send_timeout` puts the command into the queue as soon as there
    /// is room, or returns it where `millis` milliseconds passed first or the
    /// receiver is gone. Which of the three happens rests on the other threads
    /// and on time.
    #[verifier::external_body]
    fn send_timeout(&mut self, cmd: WlOverlayCmd, millis: u64) -> (r: Delivery)
        ensures
            final(self).attempts() == old(self).attempts().push(Attempt::Wait { millis }),
            r.accounts_for(cmd, *old(self), *final(self)),
            r !is Disconnected,
    {
        match self.tx.send_timeout(cmd, std::time::Duration::from_millis(millis)) {
            Ok(()) => Delivery::Queued,
            Err(SendTimeoutError::Timeout(c)) => Delivery::TimedOut(c),
            Err(SendTimeoutError::Disconnected(c)) => Delivery::DisconnectedInWait(c),
        }
    }

    /// `Sender::send` waits until the command is in the queue, or returns it
    /// where the receiver is gone. It never times out.
    #[verifier::external_body]
    fn send(&mut self, cmd: WlOverlayCmd) -> (r: Delivery)
        ensures
            final(self).attempts() == old(self).attempts().push(Attempt::Block),
            r.accounts_for(cmd, *old(self), *final(self)),
            r is Queued || r is Disconnected,
    {
        match self.tx.send(cmd) {
            Ok(()) => Delivery::Queued,
            Err(error) => Delivery::Disconnected(error.0),
        }
    }

    /// `Sender::clone` gives a second handle to the same queue, through which
    /// nothing was sent yet. What entered the queue before the call is in front
    /// of what the second handle sends.
    #[verifier::external_body]
    fn clone_handle(&self) -> (r: CommandSender)
        ensures
            r.queue() == self.queue(),
            r.is_fresh(),
            r.floor() == self.floor(),
    {
        CommandSender {
            tx: self.tx.clone(),
            sent: Ghost(Seq::empty()),
            stand: Ghost(Seq::empty()),
            passed: self.passed,
            tried: Ghost(Seq::empty()),
            of: self.of,
        }
    }

    /// `Sender::same_channel` tells whether two handles belong to one queue.
    /// Where they do, what the other handle has sent entered the queue before
    /// the call, and is in front of what this handle sends after it.
    #[verifier::external_body]
    fn same_channel(&mut self, other: &CommandSender) -> (r: bool)
        ensures
            r == (old(self).queue().id == other.queue().id),
            r ==> old(self).queue() == other.queue(),
            final(self).queue() == old(self).queue(),
            final(self)@ == old(self)@,
            final(self).places() == old(self).places(),
            final(self).attempts() == old(self).attempts(),
            final(self).floor() == if r && old(self).floor() < other.floor() {
                other.floor()
            } else {
                old(self).floor()
            },
    {
        self.tx.same_channel(&other.tx)
    }

    /// A second handle to the same queue, for another thread. What it sends
    /// stands behind all that this handle has sent.
    pub fn handle(&self) -> (r: CommandSender)
        ensures
            r.is_fresh(),
            r.wf(),
            r.follows(*self),
            r.floor() == self.floor(),
    {
        self.clone_handle()
    }

    /// Has this handle send behind all that `other` has sent, where both belong
    /// to one queue. Returns whether they do.
    pub fn follow(&mut self, other: &CommandSender) -> (r: bool)
        ensures
            r == (old(self).queue().id == other.queue().id),
            r ==> final(self).follows(*other),
            final(self).follows(*old(self)),
            final(self).floor() == old(self).floor() || r && final(self).floor() == other.floor(),
            final(self)@ == old(self)@,
            final(self).places() == old(self).places(),
            final(self).attempts() == old(self).attempts(),
            old(self).wf() ==> final(self).wf(),
    {
        self.same_channel(other)
    }
}

/// `crossbeam_channel::bounded` makes an empty queue with room for `cap`
/// commands. It panics where `cap` places cannot be laid out in memory.
#[verifier::external_body]
fn bounded(cap: usize) -> (r: (CommandSender, CommandReceiver))
    requires
        0 < cap <= QUEUE_CAPACITY,
    ensures
        r.0.queue() == r.1.queue(),
        r.0.capacity() == cap,
        r.0.is_fresh(),
        r.0.floor() == 0,
        r.1@ == Seq::<WlOverlayCmd>::empty(),
        r.1.looks() == Seq::<Received>::empty(),
{
    let (tx, rx) = crossbeam_channel::bounded(cap);
    let of: Ghost<Queue> = Ghost(arbitrary());
    let sent = Ghost(Seq::empty());
    let stand = Ghost(Seq::empty());
    let sender = CommandSender { tx, sent, stand, passed: Ghost(0), tried: Ghost(Seq::empty()), of };
    (sender, CommandReceiver { rx, got: Ghost(Seq::empty()), seen: Ghost(Seq::empty()), of })
}

impl CommandReceiver {
    /// `Receiver::try_recv` takes the oldest command out of the queue, or says
    /// that the queue is empty, or that it is empty and no sender is left, so
    /// that nothing enters it any more. What it finds rests on the other
    /// threads. Each call is one look, and its result is what that look found.
    #[verifier::external_body]
    fn try_recv(&mut self) -> (r: Received)
        ensures
            old(self).is_looked(r, *final(self)),
    {
        match self.rx.try_recv() {
            Ok(cmd) => Received::Got(cmd),
            Err(TryRecvError::Empty) => Received::Empty,
            Err(TryRecvError::Disconnected) => Received::Disconnected,
        }
    }

    /// Looks into the queue exactly once, without waiting, and returns what the
    /// look brought: the command that it took out, or that there was none.
    pub fn poll(&mut self) -> (r: Received)
        ensures
            old(self).is_looked(r, *final(self)),
            old(self).wf() ==> final(self).wf(),
    {
        let ghost before = *self;
        let r: Received = self.try_recv();
        proof {
            if before.wf() {
                lemma_looked_keeps_wf(r, before, *self);
            }
        }
        r
    }
}

/// Starts the queue where there is none yet, and returns the receiving end for
/// the owner to be started with. Later calls change nothing.
pub fn ensure_started(slot: &mut Option<CommandSender>) -> (r: Option<CommandReceiver>)
    ensures
        *final(slot) is Some,
        *old(slot) is Some ==> *final(slot) == *old(slot) && r is None,
        *old(slot) is None ==> {
            &&& r is Some
            &&& r->0@ == Seq::<WlOverlayCmd>::empty()
            &&& r->0.looks() == Seq::<Received>::empty()
            &&& r->0.wf()
            &&& final(slot)->0.queue() == r->0.queue()
            &&& final(slot)->0.is_fresh()
            &&& final(slot)->0.wf()
            &&& final(slot)->0.floor() == 0
            &&& final(slot)->0.capacity() == QUEUE_CAPACITY
            &&& final(slot)->0.capacity() == 256
        },
{
    if slot.is_some() {
        return None;
    }
    let (tx, rx): (CommandSender, CommandReceiver) = bounded(QUEUE_CAPACITY);
    *slot = Some(tx);
    Some(rx)
}

/// What follows an attempt to send without waiting: a full queue is waited
/// for, rather than dropping a command that makes the cursor appear.
pub fn after_try_send(outcome: TrySend) -> (r: SendStep)
    ensures
        r == match outcome {
            TrySend::Sent => SendStep::Finished(Delivery::Queued),
            TrySend::Full(cmd) => SendStep::Wait(cmd),
            TrySend::Disconnected(cmd) => SendStep::Finished(Delivery::Disconnected(cmd)),
        },
{
    match outcome {
        TrySend::Sent => SendStep::Finished(Delivery::Queued),
        TrySend::Full(cmd) => SendStep::Wait(cmd),
        TrySend::Disconnected(cmd) => SendStep::Finished(Delivery::Disconnected(cmd)),
    }
}

/// Puts a command into the queue: at once where there is room, else within
/// [`SEND_WAIT_MILLIS`]. The command goes in once, or comes back.
pub fn enqueue(tx: &mut CommandSender, cmd: WlOverlayCmd) -> (r: Delivery)
    ensures
        r.accounts_for(cmd, *old(tx), *final(tx)),
        old(tx).wf() ==> final(tx).wf(),
        r.took_attempts(old(tx).attempts(), final(tx).attempts()),
{
    let ghost before = *tx;
    let outcome: TrySend = tx.try_send(cmd);
    let r: Delivery = match after_try_send(outcome) {
        SendStep::Finished(delivery) => delivery,
        SendStep::Wait(cmd) => tx.send_timeout(cmd, SEND_WAIT_MILLIS),
    };
    proof {
        if before.wf() {
            lemma_sent_keeps_wf(r, cmd, before, *tx);
        }
    }
    r
}

impl OverlayMsg {
    /// Whether the message is one that the overlay shows: all but focus
    /// rectangles.
    pub open spec fn is_shown(self) -> bool {
        match self {
            OverlayMsg::Remove => true,
            OverlayMsg::Cmd(cmd) => cmd.kind != CommandKind::ShowFocusRect,
        }
    }

    /// What the message becomes in the queue.
    pub open spec fn command(self) -> WlOverlayCmd {
        match self {
            OverlayMsg::Remove => WlOverlayCmd::Remove,
            OverlayMsg::Cmd(cmd) => WlOverlayCmd::Cmd { cmd },
        }
    }

    /// What the message becomes in the queue, or `None` for a focus rectangle.
    pub fn queued(&self) -> (r: Option<WlOverlayCmd>)
        ensures
            r == if self.is_shown() {
                Some(self.command())
            } else {
                None
            },
    {
        match self {
            OverlayMsg::Remove => Some(WlOverlayCmd::Remove),
            OverlayMsg::Cmd(cmd) => {
                if matches!(cmd.kind, CommandKind::ShowFocusRect) {
                    None
                } else {
                    Some(WlOverlayCmd::Cmd { cmd: *cmd })
                }
            },
        }
    }
}

/// Hands a message to the owner of the overlay.
pub fn forward(slot: &mut Option<CommandSender>, msg: &OverlayMsg) -> (r: Forwarded)
    ensures
        r.answers(*msg, *old(slot) is Some),
        *old(slot) is None <==> r is NotStarted,
        *old(slot) is Some && !msg.is_shown() <==> r is Ignored,
        *old(slot) is Some && msg.is_shown() <==> r is Handed,
        *final(slot) is Some <==> *old(slot) is Some,
        r !is Handed ==> *final(slot) == *old(slot),
        r matches Forwarded::Handed(delivery) ==> {
            &&& old(slot)->0.wf() ==> final(slot)->0.wf()
            &&& delivery.took_attempts(old(slot)->0.attempts(), final(slot)->0.attempts())
            &&& delivery.accounts_for(msg.command(), old(slot)->0, final(slot)->0)
        },
{
    match slot.as_mut() {
        None => Forwarded::NotStarted,
        Some(tx) => {
            match msg.queued() {
                None => Forwarded::Ignored,
                Some(cmd) => Forwarded::Handed(enqueue(tx, cmd)),
            }
        },
    }
}

impl Forwarded {
    /// Whether the message was taken over, delivered or not.
    pub open spec fn is_accepted(self) -> bool {
        self is Handed
    }

    /// The outcome is one of forwarding `msg` where an owner was started or not.
    pub open spec fn answers(self, msg: OverlayMsg, started: bool) -> bool {
        &&& self is NotStarted <==> !started
        &&& self is Ignored <==> started && !msg.is_shown()
        &&& self is Handed <==> started && msg.is_shown()
    }

    /// Whether the message was taken over, delivered or not.
    pub fn accepted(&self) -> (r: bool)
        ensures
            r == (*self is Handed),
            r == self.is_accepted(),
    {
        match self {
            Forwarded::Handed(_) => true,
            Forwarded::NotStarted | Forwarded::Ignored => false,
        }
    }
}

/// Asks the owner of the overlay to stop, where it was started.
pub fn shutdown(slot: &mut Option<CommandSender>) -> (r: Option<Delivery>)
    ensures
        r is Some <==> *old(slot) is Some,
        *final(slot) is Some <==> *old(slot) is Some,
        r matches Some(delivery) ==> {
            &&& delivery is Queued || delivery is Disconnected
            &&& delivery.accounts_for(WlOverlayCmd::Shutdown, old(slot)->0, final(slot)->0)
            &&& final(slot)->0.attempts() == old(slot)->0.attempts().push(Attempt::Block)
            &&& old(slot)->0.wf() ==> final(slot)->0.wf()
        },
{
    match slot.as_mut() {
        None => None,
        Some(tx) => {
            let ghost before = *tx;
            let delivery: Delivery = tx.send(WlOverlayCmd::Shutdown);
            proof {
                if before.wf() {
                    lemma_sent_keeps_wf(delivery, WlOverlayCmd::Shutdown, before, *tx);
                }
            }
            Some(delivery)
        },
    }
}

/// Commands come out of the queue in the order in which they were sent through
/// a handle: once the later of two has come out, each of them has, at a place
/// of its own, the earlier one in front.
pub proof fn law_commands_arrive_in_order(
    tx: CommandSender,
    rx: CommandReceiver,
    i: int,
    j: int,
)
    requires
        tx.wf(),
        rx.wf(),
        tx.queue() == rx.queue(),
        0 <= i < j < tx@.len(),
        tx.places()[j] < rx@.len(),
    ensures
        tx.places()[i] < tx.places()[j],
        rx@[tx.places()[i] as int] == tx@[i],
        rx@[tx.places()[j] as int] == tx@[j],
{
}

/// Messages arrive in the order in which they are forwarded, behind all that
/// was queued before. Let `first` be forwarded and queued, and then `second`,
/// through the same handle or one that follows it. Once the second command has
/// come out of the queue so has the first, in front of it, each at one place of
/// its own; and all that was sent through any handle that the first call's
/// handle followed came out in front of both.
pub proof fn law_forwards_arrive_in_order(
    earlier: CommandSender,
    before_first: CommandSender,
    after_first: CommandSender,
    before_second: CommandSender,
    after_second: CommandSender,
    first: OverlayMsg,
    second: OverlayMsg,
    rx: CommandReceiver,
)
    requires
        earlier.wf(),
        before_first.follows(earlier),
        first.is_shown(),
        Delivery::Queued.accounts_for(first.command(), before_first, after_first),
        before_second.follows(after_first),
        second.is_shown(),
        Delivery::Queued.accounts_for(second.command(), before_second, after_second),
        rx.wf(),
        rx.queue() == earlier.queue(),
        after_second.places().last() < rx@.len(),
    ensures
        after_first.places().last() < after_second.places().last(),
        rx@[after_first.places().last() as int] == first.command(),
        rx@[after_second.places().last() as int] == second.command(),
        forall|i: int|
            0 <= i < earlier@.len() ==> {
                &&& #[trigger] earlier.places()[i] < after_first.places().last()
                &&& rx@[earlier.places()[i] as int] == earlier@[i]
            },
{
}

/// A command goes into the queue once, or comes back as it was with the queue
/// untouched.
pub proof fn law_command_is_queued_or_returned(
    delivery: Delivery,
    cmd: WlOverlayCmd,
    before: CommandSender,
    after: CommandSender,
)
    requires
        delivery.accounts_for(cmd, before, after),
    ensures
        delivery is Queued ==> after@ == before@.push(cmd) && after.places().len()
            == before.places().len() + 1,
        delivery matches Delivery::TimedOut(c) ==> c == cmd,
        delivery matches Delivery::Disconnected(c) ==> c == cmd,
        delivery matches Delivery::DisconnectedInWait(c) ==> c == cmd,
        delivery !is Queued ==> after@ == before@ && after.places() == before.places(),
        after.queue() == before.queue(),
{
}

/// A command is first sent without waiting. Only a full queue is waited for,
/// once and for 100 ms; what time runs out on is returned only after that, and
/// an owner found gone at once is not waited for.
pub proof fn law_only_a_full_queue_is_waited_for(
    delivery: Delivery,
    before: Seq<Attempt>,
    after: Seq<Attempt>,
)
    requires
        delivery.took_attempts(before, after),
    ensures
        after.len() == before.len() + 1 || after.len() == before.len() + 2,
        after.take(before.len() as int) == before,
        after[before.len() as int] is Try,
        after.len() == before.len() + 2 <==> after[before.len() as int] == (Attempt::Try {
            full: true,
        }),
        after.len() == before.len() + 2 ==> after.last() == (Attempt::Wait { millis: 100 }),
        delivery is TimedOut || delivery is DisconnectedInWait ==> after.len() == before.len() + 2,
        delivery is Disconnected ==> after.len() == before.len() + 1,
{
    assert(after.take(before.len() as int) =~= before);
}

/// Removals and all commands but focus rectangles are shown, and reach the queue
/// with the kind and the payload that they came with.
pub proof fn law_messages_keep_their_command(msg: OverlayMsg, other: OverlayMsg)
    ensures
        msg is Remove ==> msg.is_shown() && msg.command() is Remove,
        msg matches OverlayMsg::Cmd(cmd) ==> {
            &&& msg.is_shown() <==> !(cmd.kind is ShowFocusRect)
            &&& msg.command() matches WlOverlayCmd::Cmd { cmd: queued }
            &&& queued.kind == cmd.kind
            &&& queued.payload == cmd.payload
        },
        msg.command() !is Shutdown,
        msg.command() == other.command() ==> msg == other,
{
}

/// A message is accepted exactly where an owner was started and the message is
/// not a focus rectangle, even where its command was then dropped.
pub proof fn law_shown_messages_are_accepted(outcome: Forwarded, msg: OverlayMsg, started: bool)
    requires
        outcome.answers(msg, started),
    ensures
        outcome.is_accepted() <==> started && match msg {
            OverlayMsg::Remove => true,
            OverlayMsg::Cmd(cmd) => !(cmd.kind is ShowFocusRect),
        },
        outcome matches Forwarded::Handed(_) ==> outcome.is_accepted(),
{
}

} // verus!
