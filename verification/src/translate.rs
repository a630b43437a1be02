//! Turning decoded MIDI messages into engine commands.
//!
//! A control change is routed through a table from controller number to a
//! parameter slot and a value range, and its raw value is rescaled linearly
//! into that range. A note event goes to a fixed list of nodes with its raw
//! note number and velocity.
use vstd::prelude::*;
use crate::channel::{after_send, after_sends, displaced_by, displaced_count, ControlChannel};
use crate::command::{views, Command, CommandView, FIXED_ONE};
use crate::midi::{
    control_change_decodes, decode, end_at, halt_from, messages_from, Decoded, MidiMessage,
    STATUS_CONTROL_CHANGE,
};

verus! {

/// The raw controller value that maps onto the upper end of a range.
pub const RAW_MAX: u8 = 127;

/// Largest magnitude a range bound may have (fixed-point).
pub const RANGE_LIMIT: i64 = 1_000_000_000_000_000_000;

/// Where a controller's value goes and the range it is rescaled into.
#[derive(Clone, Copy, Debug, PartialEq, Eq, Structural)]
pub struct ControllerTarget {
    pub target_node: usize,
    pub param_slot: usize,
    /// Value at raw 0 (fixed-point).
    pub lo: i64,
    /// Value at raw 127 (fixed-point).
    pub hi: i64,
}

/// `raw` rescaled linearly from `[0, 127]` into `[lo, hi]`, rounded down.
pub open spec fn scaled(lo: int, hi: int, raw: int) -> int {
    lo + ((hi - lo) * raw) / (RAW_MAX as int)
}

impl ControllerTarget {
    /// A range runs upwards and stays within the limit.
    pub open spec fn valid(self) -> bool {
        -RANGE_LIMIT <= self.lo <= self.hi <= RANGE_LIMIT
    }

    /// The raw value `raw` rescaled into this target's range.
    pub open spec fn scaled_to(self, raw: u8) -> i64 {
        scaled(self.lo as int, self.hi as int, raw as int) as i64
    }

    /// Whether this target's range is one the table accepts.
    pub fn is_valid(&self) -> (ok: bool)
        ensures
            ok == self.valid(),
    {
        -RANGE_LIMIT <= self.lo && self.lo <= self.hi && self.hi <= RANGE_LIMIT
    }

    /// Rescales a raw controller value into this target's range.
    pub fn scale(&self, raw: u8) -> (value: i64)
        requires
            self.valid(),
        ensures
            value == scaled(self.lo as int, self.hi as int, raw as int),
            value == self.scaled_to(raw),
    {
        let span: u128 = (self.hi as i128 - self.lo as i128) as u128;
        assert(span * raw <= span * 255) by (nonlinear_arith)
            requires
                raw <= 255,
        ;
        let product: u128 = span * (raw as u128);
        let raised: u128 = product / (RAW_MAX as u128);
        assert(raised <= product) by (nonlinear_arith)
            requires
                raised == product / 127,
        ;
        assert(raised <= 5 * RANGE_LIMIT) by (nonlinear_arith)
            requires
                raised == product / 127,
                product <= 510 * RANGE_LIMIT,
                RANGE_LIMIT == 1_000_000_000_000_000_000,
        ;
        (self.lo as i128 + raised as i128) as i64
    }
}

/// Number of controller numbers a status byte's data byte can name.
pub const CONTROLLER_COUNT: usize = 256;

/// The routing table from controller number to target.
pub struct ControllerMap {
    slots: Vec<Option<ControllerTarget>>,
}

impl View for ControllerMap {
    type V = Map<u8, ControllerTarget>;

    closed spec fn view(&self) -> Map<u8, ControllerTarget> {
        Map::new(
            |controller: u8| self.slots@[controller as int].is_some(),
            |controller: u8| self.slots@[controller as int].unwrap(),
        )
    }
}

impl ControllerMap {
    /// The table has a slot for every controller number, and every target
    /// in it has a valid range.
    pub closed spec fn wf(&self) -> bool {
        &&& self.slots@.len() == CONTROLLER_COUNT
        &&& forall|controller: int|
            0 <= controller < CONTROLLER_COUNT && (#[trigger] self.slots@[controller]).is_some()
                ==> self.slots@[controller].unwrap().valid()
    }

    /// A table that routes no controller.
    pub fn new() -> (map: Self)
        ensures
            map.wf(),
            map@ == Map::<u8, ControllerTarget>::empty(),
    {
        let mut slots: Vec<Option<ControllerTarget>> = Vec::new();
        while slots.len() < CONTROLLER_COUNT
            invariant
                slots@.len() <= CONTROLLER_COUNT,
                forall|controller: int|
                    0 <= controller < slots@.len() ==> (#[trigger] slots@[controller]).is_none(),
            decreases CONTROLLER_COUNT - slots@.len(),
        {
            slots.push(None);
        }
        let map = ControllerMap { slots };
        assert(map@ =~= Map::<u8, ControllerTarget>::empty());
        map
    }

    /// Routes `controller` to `target`, in place of any earlier route.
    ///
    /// A target whose range is not valid is refused and the table stays as
    /// it was.
    pub fn bind(&mut self, controller: u8, target: ControllerTarget) -> (bound: bool)
        requires
            old(self).wf(),
        ensures
            final(self).wf(),
            bound == target.valid(),
            bound ==> final(self)@ == old(self)@.insert(controller, target),
            !bound ==> final(self)@ == old(self)@,
    {
        if !target.is_valid() {
            return false;
        }
        self.slots[controller as usize] = Some(target);
        assert(self@ =~= old(self)@.insert(controller, target));
        true
    }

    /// The target that `controller` is routed to, if any.
    pub fn lookup(&self, controller: u8) -> (found: Option<ControllerTarget>)
        requires
            self.wf(),
        ensures
            found.is_some() == self@.contains_key(controller),
            found matches Some(target) ==> target == self@[controller] && target.valid(),
    {
        self.slots[controller as usize]
    }

    /// Every target in a well-formed table has a valid range.
    pub proof fn targets_valid(&self)
        requires
            self.wf(),
        ensures
            forall|controller: u8| #[trigger]
                self@.contains_key(controller) ==> self@[controller].valid(),
    {
        assert forall|controller: u8| #[trigger] self@.contains_key(controller) implies self@[
            controller
        ].valid() by {
            assert(self.slots@[controller as int].is_some());
        }
    }
}

/// The command that `message` turns into, if it turns into one.
///
/// A control change whose controller is not in `bindings` turns into
/// nothing.
pub open spec fn translated<D>(
    message: MidiMessage,
    timestamp: u64,
    bindings: Map<u8, ControllerTarget>,
    note_targets: Seq<usize>,
) -> Option<CommandView<D>> {
    match message {
        MidiMessage::ControlChange { controller, value } => {
            if bindings.contains_key(controller) {
                let target = bindings[controller];
                Some(
                    CommandView::SetParam {
                        target_node: target.target_node,
                        param_slot: target.param_slot,
                        value: target.scaled_to(value),
                        timestamp,
                    },
                )
            } else {
                None
            }
        },
        MidiMessage::NoteEvent { note, velocity, is_on } => Some(
            CommandView::Note {
                target_nodes: note_targets,
                pitch: (note * FIXED_ONE) as i64,
                velocity: (velocity * FIXED_ONE) as i64,
                on: is_on,
                timestamp,
            },
        ),
    }
}

/// The commands that `messages` turn into, in their order.
pub open spec fn translated_all<D>(
    messages: Seq<MidiMessage>,
    timestamp: u64,
    bindings: Map<u8, ControllerTarget>,
    note_targets: Seq<usize>,
) -> Seq<CommandView<D>>
    decreases messages.len(),
{
    if messages.len() == 0 {
        Seq::empty()
    } else {
        let rest = translated_all(messages.drop_first(), timestamp, bindings, note_targets);
        match translated(messages[0], timestamp, bindings, note_targets) {
            Some(command) => seq![command] + rest,
            None => rest,
        }
    }
}

/// What became of one packet.
#[derive(Debug, PartialEq, Eq)]
pub struct Dispatch {
    /// The messages found in the packet and where decoding halted.
    pub decoded: Decoded,
    /// How many commands were pushed out of the channel to make room.
    pub displaced: usize,
}

/// The event translator: a routing table for controllers and the nodes that
/// note events go to.
pub struct Translator {
    pub bindings: ControllerMap,
    pub note_targets: Vec<usize>,
}

fn copy_nodes(nodes: &Vec<usize>) -> (copy: Vec<usize>)
    ensures
        copy@ == nodes@,
{
    let mut copy: Vec<usize> = Vec::new();
    let mut at: usize = 0;
    while at < nodes.len()
        invariant
            at <= nodes@.len(),
            copy@ == nodes@.take(at as int),
        decreases nodes@.len() - at,
    {
        copy.push(nodes[at]);
        at += 1;
        assert(copy@ =~= nodes@.take(at as int));
    }
    assert(nodes@.take(at as int) =~= nodes@);
    copy
}

/// The node whose parameter the first standard controller sets.
pub const CUTOFF_NODE: usize = 3;

/// The node whose parameter the second standard controller sets.
pub const RESONANCE_NODE: usize = 4;

/// The node that takes note events and the third standard controller.
pub const PITCH_NODE: usize = 5;

/// The base-two logarithm of 22 000, the upper end of a log-frequency
/// range (fixed-point).
pub const LOG2_22K: i64 = 14_425_216;

/// Upper end of the resonance range (fixed-point).
pub const RESONANCE_MAX: i64 = 995_000;

/// The standard routes: controllers 1, 2 and 3, each to slot 0 of its node.
pub open spec fn standard_bindings() -> Map<u8, ControllerTarget> {
    Map::<u8, ControllerTarget>::empty().insert(
        1,
        ControllerTarget { target_node: CUTOFF_NODE, param_slot: 0, lo: 0, hi: LOG2_22K },
    ).insert(
        2,
        ControllerTarget { target_node: RESONANCE_NODE, param_slot: 0, lo: 0, hi: RESONANCE_MAX },
    ).insert(
        3,
        ControllerTarget { target_node: PITCH_NODE, param_slot: 0, lo: 0, hi: LOG2_22K },
    )
}

/// Sending a command does to the contents of the queue what it does to the
/// queue.
proof fn lemma_views_after_send<D>(queue: Seq<Command<D>>, capacity: nat, command: Command<D>)
    ensures
        views(after_send(queue, capacity, command)) == after_send(
            views(queue),
            capacity,
            command@,
        ),
        displaced_by(queue, capacity, command).is_some() == displaced_by(
            views(queue),
            capacity,
            command@,
        ).is_some(),
{
    assert(views(after_send(queue, capacity, command)) =~= after_send(
        views(queue),
        capacity,
        command@,
    ));
}

/// Unfolds the sending of a first command followed by `rest`.
proof fn lemma_sends_first<T>(queue: Seq<T>, capacity: nat, first: T, rest: Seq<T>)
    ensures
        after_sends(queue, capacity, seq![first] + rest) == after_sends(
            after_send(queue, capacity, first),
            capacity,
            rest,
        ),
        displaced_count(queue, capacity, seq![first] + rest) == (if displaced_by(
            queue,
            capacity,
            first,
        ).is_some() {
            1nat
        } else {
            0nat
        }) + displaced_count(after_send(queue, capacity, first), capacity, rest),
{
    let items = seq![first] + rest;
    assert(items[0] == first);
    assert(items.drop_first() =~= rest);
}

impl Translator {
    /// The routing table is well formed.
    pub open spec fn wf(&self) -> bool {
        self.bindings.wf()
    }

    /// A translator with the given routes and note targets.
    pub fn new(bindings: ControllerMap, note_targets: Vec<usize>) -> (made: Self)
        requires
            bindings.wf(),
        ensures
            made.wf(),
            made.bindings == bindings,
            made.note_targets == note_targets,
    {
        Translator { bindings, note_targets }
    }

    /// The translator with the standard routes, whose note events go to
    /// the pitch node.
    pub fn standard() -> (made: Self)
        ensures
            made.wf(),
            made.bindings@ == standard_bindings(),
            made.note_targets@ == seq![PITCH_NODE],
    {
        let mut bindings = ControllerMap::new();
        bindings.bind(
            1,
            ControllerTarget { target_node: CUTOFF_NODE, param_slot: 0, lo: 0, hi: LOG2_22K },
        );
        bindings.bind(
            2,
            ControllerTarget {
                target_node: RESONANCE_NODE,
                param_slot: 0,
                lo: 0,
                hi: RESONANCE_MAX,
            },
        );
        bindings.bind(
            3,
            ControllerTarget { target_node: PITCH_NODE, param_slot: 0, lo: 0, hi: LOG2_22K },
        );
        let mut note_targets: Vec<usize> = Vec::new();
        note_targets.push(PITCH_NODE);
        assert(note_targets@ =~= seq![PITCH_NODE]);
        Translator { bindings, note_targets }
    }

    /// Turns one message, stamped with `timestamp`, into at most one
    /// command.
    pub fn translate<D>(&self, message: MidiMessage, timestamp: u64) -> (command: Option<
        Command<D>,
    >)
        requires
            self.wf(),
        ensures
            command.is_some() == translated::<D>(
                message,
                timestamp,
                self.bindings@,
                self.note_targets@,
            ).is_some(),
            command matches Some(made) ==> Some(made@) == translated::<D>(
                message,
                timestamp,
                self.bindings@,
                self.note_targets@,
            ),
    {
        match message {
            MidiMessage::ControlChange { controller, value } => {
                match self.bindings.lookup(controller) {
                    Some(target) => Some(
                        Command::SetParam {
                            target_node: target.target_node,
                            param_slot: target.param_slot,
                            value: target.scale(value),
                            timestamp,
                        },
                    ),
                    None => None,
                }
            },
            MidiMessage::NoteEvent { note, velocity, is_on } => Some(
                Command::Note {
                    target_nodes: copy_nodes(&self.note_targets),
                    pitch: note as i64 * FIXED_ONE,
                    velocity: velocity as i64 * FIXED_ONE,
                    on: is_on,
                    timestamp,
                },
            ),
        }
    }

    /// Decodes one packet, translates each of its messages and sends the
    /// resulting commands into `channel`, in the order of their bytes.
    ///
    /// Every command is stamped with `timestamp`. A control change whose
    /// controller has no route sends nothing.
    pub fn dispatch<D>(
        &self,
        data: &[u8],
        timestamp: u64,
        channel: &mut ControlChannel<Command<D>>,
    ) -> (outcome: Dispatch)
        requires
            self.wf(),
            old(channel).wf(),
        ensures
            final(channel).wf(),
            final(channel).capacity() == old(channel).capacity(),
            outcome.decoded.messages@ == messages_from(data@, 0),
            outcome.decoded.consumed == halt_from(data@, 0),
            outcome.decoded.end == end_at(data@, outcome.decoded.consumed as int),
            views(final(channel)@) == after_sends(
                views(old(channel)@),
                old(channel).capacity() as nat,
                translated_all::<D>(
                    messages_from(data@, 0),
                    timestamp,
                    self.bindings@,
                    self.note_targets@,
                ),
            ),
            outcome.displaced == displaced_count(
                views(old(channel)@),
                old(channel).capacity() as nat,
                translated_all::<D>(
                    messages_from(data@, 0),
                    timestamp,
                    self.bindings@,
                    self.note_targets@,
                ),
            ),
    {
        let decoded = decode(data);
        let ghost messages = decoded.messages@;
        let ghost capacity = channel.capacity() as nat;
        let ghost bindings = self.bindings@;
        let ghost note_targets = self.note_targets@;
        let mut displaced: usize = 0;
        let mut at: usize = 0;
        assert(messages.skip(0) =~= messages);
        while at < decoded.messages.len()
            invariant
                self.wf(),
                channel.wf(),
                channel.capacity() == capacity,
                messages == decoded.messages@,
                bindings == self.bindings@,
                note_targets == self.note_targets@,
                at <= messages.len(),
                displaced <= at,
                after_sends(
                    views(channel@),
                    capacity,
                    translated_all::<D>(
                        messages.skip(at as int),
                        timestamp,
                        bindings,
                        note_targets,
                    ),
                ) == after_sends(
                    views(old(channel)@),
                    capacity,
                    translated_all::<D>(messages, timestamp, bindings, note_targets),
                ),
                displaced + displaced_count(
                    views(channel@),
                    capacity,
                    translated_all::<D>(
                        messages.skip(at as int),
                        timestamp,
                        bindings,
                        note_targets,
                    ),
                ) == displaced_count(
                    views(old(channel)@),
                    capacity,
                    translated_all::<D>(messages, timestamp, bindings, note_targets),
                ),
            decreases messages.len() - at,
        {
            let message = decoded.messages[at];
            let ghost before = channel@;
            let ghost rest = translated_all::<D>(
                messages.skip(at + 1),
                timestamp,
                bindings,
                note_targets,
            );
            proof {
                assert(messages.skip(at as int)[0] == message);
                assert(messages.skip(at as int).drop_first() =~= messages.skip(at + 1));
            }
            match self.translate::<D>(message, timestamp) {
                Some(command) => {
                    proof {
                        lemma_views_after_send(before, capacity, command);
                        lemma_sends_first(views(before), capacity, command@, rest);
                    }
                    if channel.send(command).is_some() {
                        displaced += 1;
                    }
                },
                None => {},
            }
            at += 1;
        }
        assert(messages.skip(at as int) =~= Seq::<MidiMessage>::empty());
        Dispatch { decoded, displaced }
    }
}

/// Rescaling is exact at both ends of the raw range and stays inside the
/// target range in between, never falling short of the true value by a
/// whole unit.
pub proof fn scaled_spans_range(lo: int, hi: int, raw: int)
    requires
        lo <= hi,
        0 <= raw <= RAW_MAX,
    ensures
        scaled(lo, hi, 0) == lo,
        scaled(lo, hi, RAW_MAX as int) == hi,
        lo <= scaled(lo, hi, raw) <= hi,
        127 * (scaled(lo, hi, raw) - lo) <= (hi - lo) * raw < 127 * (scaled(lo, hi, raw) - lo)
            + 127,
{
    let span = hi - lo;
    assert((span * 0) / 127 == 0) by (nonlinear_arith);
    assert((span * 127) / 127 == span) by (nonlinear_arith);
    assert(0 <= (span * raw) / 127 <= span) by (nonlinear_arith)
        requires
            0 <= span,
            0 <= raw <= 127,
    ;
    assert(127 * ((span * raw) / 127) <= span * raw < 127 * ((span * raw) / 127) + 127)
        by (nonlinear_arith);
}

/// Rescaling never decreases as the raw value grows.
pub proof fn scaled_is_monotonic(lo: int, hi: int, lower: int, higher: int)
    requires
        lo <= hi,
        0 <= lower <= higher,
    ensures
        scaled(lo, hi, lower) <= scaled(lo, hi, higher),
{
    let span = hi - lo;
    assert((span * lower) / 127 <= (span * higher) / 127) by (nonlinear_arith)
        requires
            0 <= span,
            0 <= lower <= higher,
    ;
}

/// A control-change triple on a routed controller becomes exactly one
/// parameter update: for the routed node and slot, stamped with the
/// packet's time, and valued `lo + raw * (hi - lo) / 127`, which is `lo` at
/// raw 0 and `hi` at raw 127.
pub proof fn control_change_scales_linearly<D>(
    controller: u8,
    raw: u8,
    timestamp: u64,
    bindings: Map<u8, ControllerTarget>,
    note_targets: Seq<usize>,
)
    requires
        raw <= RAW_MAX,
        bindings.contains_key(controller),
        bindings[controller].valid(),
    ensures
        ({
            let target = bindings[controller];
            let value = target.scaled_to(raw);
            &&& translated_all::<D>(
                messages_from(seq![STATUS_CONTROL_CHANGE, controller, raw], 0),
                timestamp,
                bindings,
                note_targets,
            ) == seq![
                CommandView::<D>::SetParam {
                    target_node: target.target_node,
                    param_slot: target.param_slot,
                    value,
                    timestamp,
                },
            ]
            &&& value == target.lo + ((target.hi - target.lo) * raw) / 127
            &&& target.lo <= value <= target.hi
            &&& raw == 0 ==> value == target.lo
            &&& raw == RAW_MAX ==> value == target.hi
        }),
{
    let target = bindings[controller];
    let message = MidiMessage::ControlChange { controller, value: raw };
    control_change_decodes(controller, raw);
    scaled_spans_range(target.lo as int, target.hi as int, raw as int);
    let messages = seq![message];
    assert(messages.drop_first() =~= Seq::<MidiMessage>::empty());
    assert(translated_all::<D>(messages.drop_first(), timestamp, bindings, note_targets)
        =~= Seq::<CommandView<D>>::empty());
    let made = translated::<D>(message, timestamp, bindings, note_targets).unwrap();
    assert(translated_all::<D>(messages, timestamp, bindings, note_targets) =~= seq![made]);
}

/// An unrouted controller sends nothing.
pub proof fn unrouted_controller_is_dropped<D>(
    controller: u8,
    raw: u8,
    timestamp: u64,
    bindings: Map<u8, ControllerTarget>,
    note_targets: Seq<usize>,
)
    requires
        !bindings.contains_key(controller),
    ensures
        translated::<D>(
            MidiMessage::ControlChange { controller, value: raw },
            timestamp,
            bindings,
            note_targets,
        ) == None::<CommandView<D>>,
{
}

} // verus!
