//! Framing of display bus transfers: how the mode-select line and the
//! optional chip-select line are driven around a block of bytes.

use vstd::prelude::*;

verus! {

/// What a block of bytes means to the display controller.
#[derive(Clone, Copy, Debug, PartialEq, Eq, Structural)]
pub enum TransferKind {
    /// The bytes are controller commands: the mode line is low.
    Command,
    /// The bytes are display data: the mode line is high.
    Data,
}

/// One action on the bus lines.
#[derive(Clone, Copy, Debug, PartialEq, Eq, Structural)]
pub enum BusOp {
    /// Drive chip-select low.
    AssertChipSelect,
    /// Drive chip-select high.
    ReleaseChipSelect,
    /// Drive the mode line low.
    ModeCommand,
    /// Drive the mode line high.
    ModeData,
    /// Write the block of bytes to the bus.
    Transfer,
}

/// The mode-line action that a kind of transfer needs.
pub open spec fn mode_op(kind: TransferKind) -> BusOp {
    match kind {
        TransferKind::Command => BusOp::ModeCommand,
        TransferKind::Data => BusOp::ModeData,
    }
}

/// The actions of one framed transfer, in order. With a chip-select line the
/// transfer is bracketed by asserting and releasing it; without one the bus is
/// taken to be the adapter's own and the line is never touched.
pub open spec fn frame_plan(kind: TransferKind, chip_select: bool) -> Seq<BusOp> {
    if chip_select {
        seq![BusOp::AssertChipSelect, mode_op(kind), BusOp::Transfer, BusOp::ReleaseChipSelect]
    } else {
        seq![mode_op(kind), BusOp::Transfer]
    }
}

/// The actions of one framed transfer, in the order in which to perform them.
pub fn frame_ops(kind: TransferKind, chip_select: bool) -> (ops: Vec<BusOp>)
    ensures
        ops@ == frame_plan(kind, chip_select),
{
    let mode: BusOp = match kind {
        TransferKind::Command => BusOp::ModeCommand,
        TransferKind::Data => BusOp::ModeData,
    };
    let mut ops: Vec<BusOp> = Vec::new();
    if chip_select {
        ops.push(BusOp::AssertChipSelect);
    }
    ops.push(mode);
    ops.push(BusOp::Transfer);
    if chip_select {
        ops.push(BusOp::ReleaseChipSelect);
    }
    assert(ops@ =~= frame_plan(kind, chip_select));
    ops
}

/// The levels of the two bus lines.
#[derive(Clone, Copy, Debug, PartialEq, Eq, Structural)]
pub struct BusLines {
    /// The mode line is high: bytes are taken as data.
    pub mode_data: bool,
    /// The chip-select line is low: the controller listens.
    pub chip_selected: bool,
}

/// The lines of a bus together with the line levels under which each
/// transfer so far was made.
pub struct BusTrace {
    pub lines: BusLines,
    pub transfers: Seq<BusLines>,
}

/// The lines after one action.
pub open spec fn lines_after(op: BusOp, lines: BusLines) -> BusLines {
    match op {
        BusOp::AssertChipSelect => BusLines { chip_selected: true, ..lines },
        BusOp::ReleaseChipSelect => BusLines { chip_selected: false, ..lines },
        BusOp::ModeCommand => BusLines { mode_data: false, ..lines },
        BusOp::ModeData => BusLines { mode_data: true, ..lines },
        BusOp::Transfer => lines,
    }
}

/// The trace after one action: a transfer is recorded with the lines as they
/// stand, any other action moves a line.
pub open spec fn trace_after(op: BusOp, trace: BusTrace) -> BusTrace {
    BusTrace {
        lines: lines_after(op, trace.lines),
        transfers: if op == BusOp::Transfer {
            trace.transfers.push(trace.lines)
        } else {
            trace.transfers
        },
    }
}

/// The trace after a sequence of actions, performed first to last.
pub open spec fn trace_after_all(ops: Seq<BusOp>, trace: BusTrace) -> BusTrace
    decreases ops.len(),
{
    if ops.len() == 0 {
        trace
    } else {
        trace_after_all(ops.drop_first(), trace_after(ops[0], trace))
    }
}

/// A trace that starts at the given lines with no transfer made yet.
pub open spec fn fresh_trace(lines: BusLines) -> BusTrace {
    BusTrace { lines, transfers: Seq::empty() }
}

impl BusLines {
    /// Moves the lines as the action says.
    pub fn apply(&mut self, op: BusOp)
        ensures
            *final(self) == lines_after(op, *old(self)),
    {
        match op {
            BusOp::AssertChipSelect => {
                self.chip_selected = true;
            },
            BusOp::ReleaseChipSelect => {
                self.chip_selected = false;
            },
            BusOp::ModeCommand => {
                self.mode_data = false;
            },
            BusOp::ModeData => {
                self.mode_data = true;
            },
            BusOp::Transfer => {},
        }
    }
}

/// A framed transfer makes exactly one transfer. A command goes out with the
/// mode line low and data with the mode line high. With a chip-select line the
/// transfer happens while it is asserted and the line is released afterward,
/// whatever it was before; without one the line is left as it was.
pub proof fn lemma_frame_discipline(kind: TransferKind, chip_select: bool, start: BusLines)
    ensures
        ({
            let end = trace_after_all(frame_plan(kind, chip_select), fresh_trace(start));
            &&& end.transfers.len() == 1
            &&& end.transfers[0].mode_data == (kind == TransferKind::Data)
            &&& end.lines.mode_data == (kind == TransferKind::Data)
            &&& chip_select ==> end.transfers[0].chip_selected && !end.lines.chip_selected
            &&& !chip_select ==> end.transfers[0].chip_selected == start.chip_selected
                && end.lines.chip_selected == start.chip_selected
        }),
{
    reveal_with_fuel(trace_after_all, 5);
    let plan = frame_plan(kind, chip_select);
    let t0 = fresh_trace(start);
    if chip_select {
        let p1 = plan.drop_first();
        let p2 = p1.drop_first();
        let p3 = p2.drop_first();
        let p4 = p3.drop_first();
        assert(p4.len() == 0);
        let t1 = trace_after(plan[0], t0);
        let t2 = trace_after(p1[0], t1);
        let t3 = trace_after(p2[0], t2);
        let t4 = trace_after(p3[0], t3);
        assert(trace_after_all(plan, t0) == t4);
        assert(t4.transfers =~= seq![t2.lines]);
    } else {
        let p1 = plan.drop_first();
        let p2 = p1.drop_first();
        assert(p2.len() == 0);
        let t1 = trace_after(plan[0], t0);
        let t2 = trace_after(p1[0], t1);
        assert(trace_after_all(plan, t0) == t2);
        assert(t2.transfers =~= seq![t1.lines]);
    }
}

/// Why a transport stopped working.
#[derive(Clone, Copy, Debug, PartialEq, Eq, Structural)]
pub enum TransportError {
    /// The chip-select line could not be asserted.
    ChipSelect,
    /// The mode line could not be driven.
    Mode,
    /// The bus refused the bytes.
    BusWrite,
}

/// The fault that a failed action leaves behind. Failing to release
/// chip-select after a transfer is not a fault: the bytes are out.
pub open spec fn fault_of(op: BusOp) -> Option<TransportError> {
    match op {
        BusOp::AssertChipSelect => Some(TransportError::ChipSelect),
        BusOp::ModeCommand => Some(TransportError::Mode),
        BusOp::ModeData => Some(TransportError::Mode),
        BusOp::Transfer => Some(TransportError::BusWrite),
        BusOp::ReleaseChipSelect => None,
    }
}

/// The actions still owed after `op` has failed: a refused transfer is
/// followed by the release of chip-select where there is such a line, and
/// nothing follows any other failure.
pub open spec fn cleanup_plan(op: BusOp, chip_select: bool) -> Seq<BusOp> {
    if op == BusOp::Transfer && chip_select {
        seq![BusOp::ReleaseChipSelect]
    } else {
        Seq::empty()
    }
}

/// The framing side of a display transport: whether it has a chip-select
/// line, and the first fault it met. A fault ends the transport: no frame is
/// planned after it, and nothing is retried.
#[derive(Clone, Copy, Debug, PartialEq, Eq, Structural)]
pub struct Transport {
    pub chip_select: bool,
    pub fault: Option<TransportError>,
}

impl Transport {
    /// A working transport, with or without a chip-select line.
    pub fn new(chip_select: bool) -> (transport: Transport)
        ensures
            transport.chip_select == chip_select,
            transport.fault.is_none(),
    {
        Transport { chip_select, fault: None }
    }

    /// The plan for a command write: the frame's actions, or the fault that
    /// ended the transport.
    pub fn write_command(&self) -> (plan: Result<Vec<BusOp>, TransportError>)
        ensures
            self.fault.is_none() ==> plan.is_ok() && plan.unwrap()@ == frame_plan(
                TransferKind::Command,
                self.chip_select,
            ),
            self.fault.is_some() ==> plan == Err::<Vec<BusOp>, TransportError>(self.fault.unwrap()),
    {
        self.begin(TransferKind::Command)
    }

    /// The plan for a data write: the frame's actions, or the fault that ended
    /// the transport.
    pub fn write_data(&self) -> (plan: Result<Vec<BusOp>, TransportError>)
        ensures
            self.fault.is_none() ==> plan.is_ok() && plan.unwrap()@ == frame_plan(
                TransferKind::Data,
                self.chip_select,
            ),
            self.fault.is_some() ==> plan == Err::<Vec<BusOp>, TransportError>(self.fault.unwrap()),
    {
        self.begin(TransferKind::Data)
    }

    /// The plan for a write of the given kind: the frame's actions, or the
    /// fault that ended the transport.
    pub fn begin(&self, kind: TransferKind) -> (plan: Result<Vec<BusOp>, TransportError>)
        ensures
            self.fault.is_none() ==> plan.is_ok() && plan.unwrap()@ == frame_plan(kind, self.chip_select),
            self.fault.is_some() ==> plan == Err::<Vec<BusOp>, TransportError>(self.fault.unwrap()),
    {
        match self.fault {
            Some(fault) => Err(fault),
            None => Ok(frame_ops(kind, self.chip_select)),
        }
    }

    /// Records that `op` failed and returns the actions still to perform
    /// before the error is handed on. The first fault stays.
    pub fn fail(&mut self, op: BusOp) -> (cleanup: Vec<BusOp>)
        ensures
            final(self).chip_select == old(self).chip_select,
            old(self).fault.is_some() ==> final(self).fault == old(self).fault,
            old(self).fault.is_none() ==> final(self).fault == fault_of(op),
            cleanup@ == cleanup_plan(op, old(self).chip_select),
    {
        if self.fault.is_none() {
            self.fault = match op {
                BusOp::AssertChipSelect => Some(TransportError::ChipSelect),
                BusOp::ModeCommand => Some(TransportError::Mode),
                BusOp::ModeData => Some(TransportError::Mode),
                BusOp::Transfer => Some(TransportError::BusWrite),
                BusOp::ReleaseChipSelect => None,
            };
        }
        let mut cleanup: Vec<BusOp> = Vec::new();
        if self.chip_select {
            match op {
                BusOp::Transfer => {
                    cleanup.push(BusOp::ReleaseChipSelect);
                },
                _ => {},
            }
        }
        assert(cleanup@ =~= cleanup_plan(op, old(self).chip_select));
        cleanup
    }
}

/// A transfer that the bus refuses still ends with chip-select released:
/// the actions taken up to the transfer, followed by the actions owed after
/// its failure, leave the line high, and no transfer has been made.
pub proof fn lemma_refused_transfer_releases_chip_select(kind: TransferKind, start: BusLines)
    ensures
        ({
            let taken = frame_plan(kind, true).subrange(0, 2);
            let end = trace_after_all(taken + cleanup_plan(BusOp::Transfer, true), fresh_trace(start));
            &&& !end.lines.chip_selected
            &&& end.transfers.len() == 0
        }),
{
    reveal_with_fuel(trace_after_all, 4);
    let taken = frame_plan(kind, true).subrange(0, 2);
    let ops = taken + cleanup_plan(BusOp::Transfer, true);
    assert(ops =~= seq![BusOp::AssertChipSelect, mode_op(kind), BusOp::ReleaseChipSelect]);
    let t0 = fresh_trace(start);
    let p1 = ops.drop_first();
    let p2 = p1.drop_first();
    let p3 = p2.drop_first();
    assert(p3.len() == 0);
    let t1 = trace_after(ops[0], t0);
    let t2 = trace_after(p1[0], t1);
    let t3 = trace_after(p2[0], t2);
    assert(trace_after_all(ops, t0) == t3);
}

} // verus!
