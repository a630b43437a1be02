//! The commands that travel from the control side to the render side.
//!
//! Quantities that the engine reads as real numbers are carried as
//! fixed-point integers: a count of millionths of one engine unit.
use vstd::prelude::*;

verus! {

/// The fixed-point integer that stands for one whole engine unit.
pub const FIXED_ONE: i64 = 1_000_000;

/// One instruction for the synthesis engine.
///
/// `D` is the engine's own description of a node; nothing here looks inside.
#[derive(Debug, PartialEq, Eq)]
pub enum Command<D> {
    /// Set one parameter slot of one node to `value` (fixed-point).
    SetParam { target_node: usize, param_slot: usize, value: i64, timestamp: u64 },
    /// Start or stop a note on each of `target_nodes`, in their order.
    /// `pitch` and `velocity` are fixed-point.
    Note { target_nodes: Vec<usize>, pitch: i64, velocity: i64, on: bool, timestamp: u64 },
    /// Place a node into the graph under `id`. Each input is a pair of the
    /// node it comes from and that node's output slot.
    Node {
        id: usize,
        definition: D,
        buffer_inputs: Vec<(usize, usize)>,
        control_inputs: Vec<(usize, usize)>,
    },
}

/// The mathematical content of a [`Command`].
pub enum CommandView<D> {
    SetParam { target_node: usize, param_slot: usize, value: i64, timestamp: u64 },
    Note { target_nodes: Seq<usize>, pitch: i64, velocity: i64, on: bool, timestamp: u64 },
    Node {
        id: usize,
        definition: D,
        buffer_inputs: Seq<(usize, usize)>,
        control_inputs: Seq<(usize, usize)>,
    },
}

impl<D> CommandView<D> {
    /// The logical time a command was stamped with; topology changes carry
    /// none.
    pub open spec fn timestamp(self) -> Option<u64> {
        match self {
            CommandView::SetParam { timestamp, .. } => Some(timestamp),
            CommandView::Note { timestamp, .. } => Some(timestamp),
            CommandView::Node { .. } => None,
        }
    }
}

impl<D> View for Command<D> {
    type V = CommandView<D>;

    open spec fn view(&self) -> CommandView<D> {
        match *self {
            Command::SetParam { target_node, param_slot, value, timestamp } => {
                CommandView::SetParam { target_node, param_slot, value, timestamp }
            },
            Command::Note { target_nodes, pitch, velocity, on, timestamp } => CommandView::Note {
                target_nodes: target_nodes@,
                pitch,
                velocity,
                on,
                timestamp,
            },
            Command::Node { id, definition, buffer_inputs, control_inputs } => CommandView::Node {
                id,
                definition,
                buffer_inputs: buffer_inputs@,
                control_inputs: control_inputs@,
            },
        }
    }
}

/// The contents of a sequence of commands, one by one.
pub open spec fn views<D>(commands: Seq<Command<D>>) -> Seq<CommandView<D>> {
    Seq::new(commands.len(), |i: int| commands[i]@)
}

impl<D> Command<D> {
    /// The logical time this command was stamped with, if it carries one.
    pub fn timestamp(&self) -> (stamp: Option<u64>)
        ensures
            stamp == self@.timestamp(),
    {
        match self {
            Command::SetParam { timestamp, .. } => Some(*timestamp),
            Command::Note { timestamp, .. } => Some(*timestamp),
            Command::Node { .. } => None,
        }
    }
}

} // verus!
