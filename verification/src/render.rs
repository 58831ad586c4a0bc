//! The render loop: what one iteration does, in which order, and how the
//! frame counter drives the telemetry line and the indicator lines.

use crate::display::{DrawSurface, SurfaceModel};
use crate::indicators::{indicator_high, indicator_levels};
use crate::telemetry::{frame_line, Overflow, Scratch};
use vstd::prelude::*;
use vstd::string::StringSliceAdditionalSpecFns;

verus! {

/// Milliseconds to sleep at the end of every iteration. This is the loop's
/// only pacing.
pub const FRAME_DELAY_MS: u32 = 1000;

/// One action of an iteration.
#[derive(Clone, Copy, Debug, PartialEq, Eq, Structural)]
pub enum RenderAction {
    /// Write the telemetry line to the serial channel, in one blocking write.
    WriteSerial,
    /// Clear the drawing surface.
    ClearSurface,
    /// Draw the decorative outline.
    DrawOutline,
    /// Draw the telemetry line.
    DrawText,
    /// Transfer the framebuffer to the panel.
    Flush,
    /// Drive the eight indicator lines.
    SetIndicators,
    /// Sleep for the frame delay.
    Delay,
}

/// The frame counter one iteration later: one more, wrapping to zero after
/// the largest value.
pub open spec fn next_counter(counter: u32) -> u32 {
    if counter == u32::MAX {
        0
    } else {
        (counter + 1) as u32
    }
}

/// The frame counter `n` iterations later.
pub open spec fn counter_after(counter: u32, n: nat) -> u32
    decreases n,
{
    if n == 0 {
        counter
    } else {
        next_counter(counter_after(counter, (n - 1) as nat))
    }
}

/// The actions of one iteration, in order. A framebuffer surface is flushed
/// once, after the drawing; a direct-write surface is never flushed, because
/// every draw has already reached the panel.
pub open spec fn frame_actions(buffered: bool) -> Seq<RenderAction> {
    if buffered {
        seq![
            RenderAction::WriteSerial,
            RenderAction::ClearSurface,
            RenderAction::DrawOutline,
            RenderAction::DrawText,
            RenderAction::Flush,
            RenderAction::SetIndicators,
            RenderAction::Delay,
        ]
    } else {
        seq![
            RenderAction::WriteSerial,
            RenderAction::ClearSurface,
            RenderAction::DrawOutline,
            RenderAction::DrawText,
            RenderAction::SetIndicators,
            RenderAction::Delay,
        ]
    }
}

/// How often an action occurs in a sequence.
pub open spec fn occurrences(actions: Seq<RenderAction>, action: RenderAction) -> nat
    decreases actions.len(),
{
    if actions.len() == 0 {
        0
    } else {
        let rest = occurrences(actions.drop_last(), action);
        if actions.last() == action {
            rest + 1
        } else {
            rest
        }
    }
}

/// The actions of one iteration, in the order in which to perform them.
pub fn plan_frame(buffered: bool) -> (actions: Vec<RenderAction>)
    ensures
        actions@ == frame_actions(buffered),
{
    let mut actions: Vec<RenderAction> = Vec::new();
    actions.push(RenderAction::WriteSerial);
    actions.push(RenderAction::ClearSurface);
    actions.push(RenderAction::DrawOutline);
    actions.push(RenderAction::DrawText);
    if buffered {
        actions.push(RenderAction::Flush);
    }
    actions.push(RenderAction::SetIndicators);
    actions.push(RenderAction::Delay);
    assert(actions@ =~= frame_actions(buffered));
    actions
}

/// What one iteration hands to the hardware besides the telemetry text.
pub struct Frame {
    /// The frame counter of this iteration.
    pub counter: u32,
    /// The level of each indicator line.
    pub indicators: [bool; 8],
    /// Milliseconds to sleep at the end of the iteration.
    pub delay_ms: u32,
    /// The actions of the iteration, in order.
    pub actions: Vec<RenderAction>,
}

impl Frame {
    /// Whether the frame is the one that belongs to the counter value
    /// `counter` on a surface that is buffered or not: indicator line `j` is
    /// high exactly where bit `j` of the counter's low byte is set, the delay
    /// is the frame delay, and the actions are those of an iteration.
    pub open spec fn belongs_to(self, counter: u32, buffered: bool) -> bool {
        &&& self.counter == counter
        &&& self.delay_ms == FRAME_DELAY_MS
        &&& self.actions@ == frame_actions(buffered)
        &&& forall|line: u32| line < 8 ==> self.indicators@[line as int] == #[trigger] indicator_high(counter, line)
    }
}

/// The render loop as plain values.
pub struct RenderModel {
    pub surface: SurfaceModel,
    /// The frame counter of the last iteration; zero before the first.
    pub counter: u32,
    /// The title that starts every telemetry line.
    pub title: Seq<char>,
    /// The bytes in the scratch buffer.
    pub text: Seq<u8>,
}

impl RenderModel {
    /// The telemetry line of the next iteration.
    pub open spec fn next_line(self) -> Seq<u8> {
        frame_line(vstd::utf8::encode_utf8(self.title), next_counter(self.counter))
    }
}

/// The render loop: sole owner of the surface, the frame counter and the
/// scratch buffer.
pub struct RenderLoop {
    surface: DrawSurface,
    counter: u32,
    title: String,
    scratch: Scratch,
}

impl View for RenderLoop {
    type V = RenderModel;

    closed spec fn view(&self) -> RenderModel {
        RenderModel {
            surface: self.surface@,
            counter: self.counter,
            title: self.title@,
            text: self.scratch@,
        }
    }
}

impl RenderLoop {
    /// A render loop on the given surface, before its first iteration.
    pub fn new(surface: DrawSurface, title: &str) -> (render: RenderLoop)
        ensures
            render@ == (RenderModel {
                surface: surface@,
                counter: 0,
                title: title@,
                text: Seq::<u8>::empty(),
            }),
    {
        RenderLoop { surface, counter: 0, title: title.to_owned(), scratch: Scratch::new() }
    }

    /// The frame counter of the last iteration.
    pub fn counter(&self) -> (counter: u32)
        ensures
            counter == self@.counter,
    {
        self.counter
    }

    /// The surface that the loop draws on.
    pub fn surface(&self) -> (surface: &DrawSurface)
        ensures
            surface@ == self@.surface,
    {
        &self.surface
    }

    /// The telemetry line of the last iteration, to draw.
    pub fn text(&self) -> (text: &str)
        ensures
            text.spec_bytes() == self@.text,
    {
        self.scratch.as_str()
    }

    /// The telemetry line of the last iteration, to write to the serial
    /// channel.
    pub fn text_bytes(&self) -> (bytes: &[u8])
        ensures
            bytes@ == self@.text,
    {
        self.scratch.as_bytes()
    }

    /// One iteration. The frame counter goes up by one, wrapping; the scratch
    /// buffer is refilled with the telemetry line; the frame says what to do
    /// with it. Where the line does not fit into the scratch buffer the
    /// iteration is refused and the buffer is left empty; the counter has
    /// gone up all the same.
    pub fn step(&mut self) -> (result: Result<Frame, Overflow>)
        ensures
            final(self)@.surface == old(self)@.surface,
            final(self)@.title == old(self)@.title,
            final(self)@.counter == next_counter(old(self)@.counter),
            result.is_ok() == (old(self)@.next_line().len() <= 1024),
            result.is_ok() ==> final(self)@.text == old(self)@.next_line() && result.unwrap().belongs_to(
                next_counter(old(self)@.counter),
                old(self)@.surface.controller.spec_buffered(),
            ),
            result.is_err() ==> final(self)@.text == Seq::<u8>::empty(),
    {
        let counter: u32 = self.counter.wrapping_add(1);
        self.counter = counter;
        let written = self.scratch.write_frame_line(self.title.as_str(), counter);
        if written.is_err() {
            return Err(Overflow);
        }
        Ok(
            Frame {
                counter,
                indicators: indicator_levels(counter),
                delay_ms: FRAME_DELAY_MS,
                actions: plan_frame(self.surface.buffered()),
            },
        )
    }
}

/// Counting in a sequence with one more action at its end.
proof fn lemma_occurrences_push(actions: Seq<RenderAction>, last: RenderAction, action: RenderAction)
    ensures
        occurrences(actions.push(last), action) == occurrences(actions, action) + if last == action {
            1nat
        } else {
            0nat
        },
{
    assert(actions.push(last).drop_last() =~= actions);
}

/// An iteration on a framebuffer surface flushes exactly once, and one on a
/// direct-write surface never does. Either way the serial line is written
/// once, the surface is cleared once, the indicators are driven once and the
/// loop sleeps once.
pub proof fn lemma_one_flush_per_frame(buffered: bool)
    ensures
        occurrences(frame_actions(buffered), RenderAction::Flush) == if buffered {
            1nat
        } else {
            0nat
        },
        occurrences(frame_actions(buffered), RenderAction::WriteSerial) == 1,
        occurrences(frame_actions(buffered), RenderAction::ClearSurface) == 1,
        occurrences(frame_actions(buffered), RenderAction::SetIndicators) == 1,
        occurrences(frame_actions(buffered), RenderAction::Delay) == 1,
{
    let e = Seq::<RenderAction>::empty();
    let a1 = e.push(RenderAction::WriteSerial);
    let a2 = a1.push(RenderAction::ClearSurface);
    let a3 = a2.push(RenderAction::DrawOutline);
    let a4 = a3.push(RenderAction::DrawText);
    let a5 = if buffered {
        a4.push(RenderAction::Flush)
    } else {
        a4
    };
    let a6 = a5.push(RenderAction::SetIndicators);
    let a7 = a6.push(RenderAction::Delay);
    assert(frame_actions(buffered) =~= a7);
    assert forall|action: RenderAction|
        occurrences(a7, action) == (if action == RenderAction::Flush && !buffered {
            0nat
        } else {
            1nat
        }) by {
        lemma_occurrences_push(e, RenderAction::WriteSerial, action);
        lemma_occurrences_push(a1, RenderAction::ClearSurface, action);
        lemma_occurrences_push(a2, RenderAction::DrawOutline, action);
        lemma_occurrences_push(a3, RenderAction::DrawText, action);
        if buffered {
            lemma_occurrences_push(a4, RenderAction::Flush, action);
        }
        lemma_occurrences_push(a5, RenderAction::SetIndicators, action);
        lemma_occurrences_push(a6, RenderAction::Delay, action);
    }
}

/// After `n` iterations the frame counter has gone up by `n`, modulo two to
/// the power 32.
pub proof fn lemma_counter_after(counter: u32, n: nat)
    ensures
        counter_after(counter, n) == (counter + n) % 0x1_0000_0000,
    decreases n,
{
    if n > 0 {
        lemma_counter_after(counter, (n - 1) as nat);
        let before = counter_after(counter, (n - 1) as nat);
        assert((counter + n - 1) % 0x1_0000_0000 == before);
        if before == u32::MAX {
            assert((counter + n) % 0x1_0000_0000 == 0) by (nonlinear_arith)
                requires
                    (counter + n - 1) % 0x1_0000_0000 == 0xffff_ffff,
            ;
        } else {
            assert((counter + n) % 0x1_0000_0000 == before + 1) by (nonlinear_arith)
                requires
                    (counter + n - 1) % 0x1_0000_0000 == before,
                    before < 0xffff_ffff,
            ;
        }
    }
}

} // verus!
