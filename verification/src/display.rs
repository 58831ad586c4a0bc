//! Start-up of the display: the two controller protocols, the surface each
//! one yields, and what a failed step means under each failure policy.

use vstd::prelude::*;

verus! {

/// The display controller the firmware is built for. Chosen once; never
/// switched while running.
#[derive(Clone, Copy, Debug, PartialEq, Eq, Structural)]
pub enum Controller {
    /// Framebuffer-backed OLED panel, driven over the bare bus.
    Oled,
    /// Direct-write TFT panel behind a framed transport with chip-select.
    Tft,
    /// Direct-write TFT panel behind a framed transport without chip-select.
    TftNoChipSelect,
}

/// How a surface stores one pixel.
#[derive(Clone, Copy, Debug, PartialEq, Eq, Structural)]
pub enum PixelFormat {
    /// One bit per pixel.
    Binary,
    /// Sixteen bits of colour per pixel.
    Color16,
}

/// One step of a start-up protocol.
#[derive(Clone, Copy, Debug, PartialEq, Eq, Structural)]
pub enum InitStep {
    /// Drive chip-select high.
    ReleaseChipSelect,
    /// Drive chip-select low.
    AssertChipSelect,
    /// Build the framed transport over the bus and the mode line.
    BuildTransport,
    /// Construct the driver at the panel's native geometry.
    BuildDriver,
    /// Drive the reset line through its timed low pulse and leave it high.
    ResetPulse,
    /// Send the controller's register initialisation sequence.
    InitSequence,
    /// Let the driver pulse reset itself, then send its initialisation
    /// sequence.
    ResetAndInit,
    /// Transfer the cleared framebuffer once.
    FlushCleared,
    /// Set the fixed display orientation.
    SetOrientation,
    /// Wait the fixed settle time.
    Settle,
}

/// Microseconds to wait after a direct-write panel is initialised.
pub const SETTLE_MICROS: u32 = 10;

/// How a panel is turned relative to its controller's memory.
#[derive(Clone, Copy, Debug, PartialEq, Eq, Structural)]
pub enum Orientation {
    Portrait,
    Landscape,
    PortraitSwapped,
    LandscapeSwapped,
}

/// The orientation that a direct-write panel is set to at start-up.
pub const ORIENTATION: Orientation = Orientation::PortraitSwapped;

impl Controller {
    /// Whether the controller keeps a framebuffer that a flush transfers.
    pub open spec fn spec_buffered(self) -> bool {
        self == Controller::Oled
    }

    /// Whether the controller's transport frames transfers with chip-select.
    pub open spec fn spec_framed_chip_select(self) -> bool {
        self == Controller::Tft
    }

    /// The start-up protocol of the controller, first step first.
    pub open spec fn spec_plan(self) -> Seq<InitStep> {
        match self {
            Controller::Oled => seq![
                InitStep::ReleaseChipSelect,
                InitStep::AssertChipSelect,
                InitStep::BuildDriver,
                InitStep::ResetPulse,
                InitStep::InitSequence,
                InitStep::FlushCleared,
            ],
            Controller::Tft => seq![
                InitStep::BuildTransport,
                InitStep::BuildDriver,
                InitStep::ResetAndInit,
                InitStep::SetOrientation,
                InitStep::Settle,
            ],
            Controller::TftNoChipSelect => seq![
                InitStep::BuildTransport,
                InitStep::BuildDriver,
                InitStep::ResetAndInit,
                InitStep::SetOrientation,
                InitStep::Settle,
            ],
        }
    }

    /// Width and height of the controller's panel, in pixels.
    pub fn geometry(self) -> (size: (u32, u32))
        ensures
            size.0 == native_surface(self).width,
            size.1 == native_surface(self).height,
    {
        match self {
            Controller::Oled => (96, 64),
            _ => (240, 240),
        }
    }

    /// Whether the controller keeps a framebuffer that a flush transfers.
    #[verifier::when_used_as_spec(spec_buffered)]
    pub fn buffered(self) -> (buffered: bool)
        ensures
            buffered == self.spec_buffered(),
    {
        match self {
            Controller::Oled => true,
            _ => false,
        }
    }

    /// Whether the controller's transport frames transfers with chip-select.
    #[verifier::when_used_as_spec(spec_framed_chip_select)]
    pub fn framed_chip_select(self) -> (framed: bool)
        ensures
            framed == self.spec_framed_chip_select(),
    {
        match self {
            Controller::Tft => true,
            _ => false,
        }
    }
}

/// The start-up protocol of the OLED controller.
pub fn ssd1331() -> (plan: Vec<InitStep>)
    ensures
        plan@ == Controller::Oled.spec_plan(),
{
    let mut plan: Vec<InitStep> = Vec::new();
    plan.push(InitStep::ReleaseChipSelect);
    plan.push(InitStep::AssertChipSelect);
    plan.push(InitStep::BuildDriver);
    plan.push(InitStep::ResetPulse);
    plan.push(InitStep::InitSequence);
    plan.push(InitStep::FlushCleared);
    assert(plan@ =~= Controller::Oled.spec_plan());
    plan
}

/// The start-up protocol of the TFT controller with chip-select.
pub fn st7789() -> (plan: Vec<InitStep>)
    ensures
        plan@ == Controller::Tft.spec_plan(),
{
    let mut plan: Vec<InitStep> = Vec::new();
    plan.push(InitStep::BuildTransport);
    plan.push(InitStep::BuildDriver);
    plan.push(InitStep::ResetAndInit);
    plan.push(InitStep::SetOrientation);
    plan.push(InitStep::Settle);
    assert(plan@ =~= Controller::Tft.spec_plan());
    plan
}

/// The start-up protocol of the TFT controller without chip-select.
pub fn st7789_nocs() -> (plan: Vec<InitStep>)
    ensures
        plan@ == Controller::TftNoChipSelect.spec_plan(),
{
    let mut plan: Vec<InitStep> = Vec::new();
    plan.push(InitStep::BuildTransport);
    plan.push(InitStep::BuildDriver);
    plan.push(InitStep::ResetAndInit);
    plan.push(InitStep::SetOrientation);
    plan.push(InitStep::Settle);
    assert(plan@ =~= Controller::TftNoChipSelect.spec_plan());
    plan
}

/// The start-up protocol of the given controller.
pub fn init_plan(controller: Controller) -> (plan: Vec<InitStep>)
    ensures
        plan@ == controller.spec_plan(),
{
    match controller {
        Controller::Oled => ssd1331(),
        Controller::Tft => st7789(),
        Controller::TftNoChipSelect => st7789_nocs(),
    }
}

/// What start-up has achieved on the panel so far.
pub struct PanelState {
    /// The chip-select line is low.
    pub chip_select_low: bool,
    /// Chip-select has been taken from high to low.
    pub chip_select_edge: bool,
    /// The framed transport exists.
    pub transport_built: bool,
    /// The driver exists.
    pub driver_built: bool,
    /// The reset line has gone through a whole timed pulse.
    pub reset_pulsed: bool,
    /// The reset line is high.
    pub reset_high: bool,
    /// The controller's initialisation sequence has been sent.
    pub initialised: bool,
    /// How often the cleared framebuffer has been transferred.
    pub cleared_flushes: nat,
    /// The orientation has been set.
    pub oriented: bool,
    /// The settle time has passed.
    pub settled: bool,
}

/// A panel on which nothing has been done yet. The levels of the chip-select
/// and reset lines are whatever the hardware powers up with.
pub open spec fn powered_on(state: PanelState) -> bool {
    &&& !state.chip_select_edge
    &&& !state.transport_built
    &&& !state.driver_built
    &&& !state.reset_pulsed
    &&& !state.initialised
    &&& state.cleared_flushes == 0
    &&& !state.oriented
    &&& !state.settled
}

/// Whether a step may be taken in the given state: the driver is built over
/// a clean chip-select edge or over its transport, no initialisation command
/// goes out before reset has completed, and nothing is sent to a controller
/// that is not initialised.
pub open spec fn step_ready(controller: Controller, step: InitStep, state: PanelState) -> bool {
    match step {
        InitStep::ReleaseChipSelect => true,
        InitStep::AssertChipSelect => true,
        InitStep::BuildTransport => true,
        InitStep::BuildDriver => if controller == Controller::Oled {
            state.chip_select_edge
        } else {
            state.transport_built
        },
        InitStep::ResetPulse => state.driver_built,
        InitStep::InitSequence => state.driver_built && state.reset_pulsed && state.reset_high,
        InitStep::ResetAndInit => state.driver_built,
        InitStep::FlushCleared => state.initialised,
        InitStep::SetOrientation => state.initialised,
        InitStep::Settle => state.initialised,
    }
}

/// The panel after a step has been taken.
pub open spec fn panel_after(step: InitStep, state: PanelState) -> PanelState {
    match step {
        InitStep::ReleaseChipSelect => PanelState { chip_select_low: false, ..state },
        InitStep::AssertChipSelect => PanelState {
            chip_select_low: true,
            chip_select_edge: state.chip_select_edge || !state.chip_select_low,
            ..state
        },
        InitStep::BuildTransport => PanelState { transport_built: true, ..state },
        InitStep::BuildDriver => PanelState { driver_built: true, ..state },
        InitStep::ResetPulse => PanelState { reset_pulsed: true, reset_high: true, ..state },
        InitStep::InitSequence => PanelState { initialised: true, ..state },
        InitStep::ResetAndInit => PanelState {
            reset_pulsed: true,
            reset_high: true,
            initialised: true,
            ..state
        },
        InitStep::FlushCleared => PanelState { cleared_flushes: state.cleared_flushes + 1, ..state },
        InitStep::SetOrientation => PanelState { oriented: true, ..state },
        InitStep::Settle => PanelState { settled: true, ..state },
    }
}

/// The panel after a sequence of steps, taken first to last.
pub open spec fn panel_after_all(steps: Seq<InitStep>, state: PanelState) -> PanelState
    decreases steps.len(),
{
    if steps.len() == 0 {
        state
    } else {
        panel_after_all(steps.drop_first(), panel_after(steps[0], state))
    }
}

/// Whether every step of a sequence may be taken when its turn comes.
pub open spec fn steps_ready(controller: Controller, steps: Seq<InitStep>, state: PanelState) -> bool
    decreases steps.len(),
{
    if steps.len() == 0 {
        true
    } else {
        step_ready(controller, steps[0], state) && steps_ready(
            controller,
            steps.drop_first(),
            panel_after(steps[0], state),
        )
    }
}

/// Taking one more step after a sequence is the same as taking the sequence
/// with that step appended.
proof fn lemma_panel_after_push(steps: Seq<InitStep>, step: InitStep, state: PanelState)
    ensures
        panel_after_all(steps.push(step), state) == panel_after(step, panel_after_all(steps, state)),
    decreases steps.len(),
{
    if steps.len() == 0 {
        assert(steps.push(step).drop_first() =~= Seq::<InitStep>::empty());
        assert(panel_after_all(steps.push(step).drop_first(), panel_after(step, state)) == panel_after(
            step,
            state,
        ));
    } else {
        assert(steps.push(step).drop_first() =~= steps.drop_first().push(step));
        lemma_panel_after_push(steps.drop_first(), step, panel_after(steps[0], state));
    }
}

/// A sequence with one more step is ready when the sequence is ready and the
/// step is ready in the state that the sequence leaves.
proof fn lemma_steps_ready_push(
    controller: Controller,
    steps: Seq<InitStep>,
    step: InitStep,
    state: PanelState,
)
    ensures
        steps_ready(controller, steps.push(step), state) == (steps_ready(controller, steps, state)
            && step_ready(controller, step, panel_after_all(steps, state))),
    decreases steps.len(),
{
    if steps.len() == 0 {
        assert(steps.push(step).drop_first() =~= Seq::<InitStep>::empty());
        assert(steps_ready(controller, steps.push(step).drop_first(), panel_after(step, state)));
    } else {
        assert(steps.push(step).drop_first() =~= steps.drop_first().push(step));
        lemma_steps_ready_push(controller, steps.drop_first(), step, panel_after(steps[0], state));
    }
}

/// On a panel fresh from power-up every step of a controller's protocol may
/// be taken when its turn comes. The protocol ends with the controller
/// initialised after a completed reset pulse and with the reset line high. A
/// framebuffer controller has then had its cleared framebuffer transferred
/// exactly once; a direct-write controller has had its orientation set and
/// its settle time, and no flush.
pub proof fn lemma_startup_order(controller: Controller, start: PanelState)
    requires
        powered_on(start),
    ensures
        steps_ready(controller, controller.spec_plan(), start),
        ({
            let end = panel_after_all(controller.spec_plan(), start);
            &&& end.driver_built
            &&& end.reset_pulsed
            &&& end.reset_high
            &&& end.initialised
            &&& controller.spec_buffered() ==> end.cleared_flushes == 1 && end.chip_select_low
            &&& !controller.spec_buffered() ==> end.cleared_flushes == 0 && end.oriented && end.settled
                && end.chip_select_low == start.chip_select_low
        }),
{
    let plan = controller.spec_plan();
    let e = Seq::<InitStep>::empty();
    if controller == Controller::Oled {
        let p1 = e.push(InitStep::ReleaseChipSelect);
        let p2 = p1.push(InitStep::AssertChipSelect);
        let p3 = p2.push(InitStep::BuildDriver);
        let p4 = p3.push(InitStep::ResetPulse);
        let p5 = p4.push(InitStep::InitSequence);
        let p6 = p5.push(InitStep::FlushCleared);
        assert(plan =~= p6);
        lemma_panel_after_push(e, InitStep::ReleaseChipSelect, start);
        lemma_panel_after_push(p1, InitStep::AssertChipSelect, start);
        lemma_panel_after_push(p2, InitStep::BuildDriver, start);
        lemma_panel_after_push(p3, InitStep::ResetPulse, start);
        lemma_panel_after_push(p4, InitStep::InitSequence, start);
        lemma_panel_after_push(p5, InitStep::FlushCleared, start);
        lemma_steps_ready_push(controller, e, InitStep::ReleaseChipSelect, start);
        lemma_steps_ready_push(controller, p1, InitStep::AssertChipSelect, start);
        lemma_steps_ready_push(controller, p2, InitStep::BuildDriver, start);
        lemma_steps_ready_push(controller, p3, InitStep::ResetPulse, start);
        lemma_steps_ready_push(controller, p4, InitStep::InitSequence, start);
        lemma_steps_ready_push(controller, p5, InitStep::FlushCleared, start);
    } else {
        let p1 = e.push(InitStep::BuildTransport);
        let p2 = p1.push(InitStep::BuildDriver);
        let p3 = p2.push(InitStep::ResetAndInit);
        let p4 = p3.push(InitStep::SetOrientation);
        let p5 = p4.push(InitStep::Settle);
        assert(plan =~= p5);
        lemma_panel_after_push(e, InitStep::BuildTransport, start);
        lemma_panel_after_push(p1, InitStep::BuildDriver, start);
        lemma_panel_after_push(p2, InitStep::ResetAndInit, start);
        lemma_panel_after_push(p3, InitStep::SetOrientation, start);
        lemma_panel_after_push(p4, InitStep::Settle, start);
        lemma_steps_ready_push(controller, e, InitStep::BuildTransport, start);
        lemma_steps_ready_push(controller, p1, InitStep::BuildDriver, start);
        lemma_steps_ready_push(controller, p2, InitStep::ResetAndInit, start);
        lemma_steps_ready_push(controller, p3, InitStep::SetOrientation, start);
        lemma_steps_ready_push(controller, p4, InitStep::Settle, start);
    }
}

/// Whether `step` stands somewhere before position `i` of a sequence.
pub open spec fn occurs_before(steps: Seq<InitStep>, step: InitStep, i: int) -> bool {
    exists|j: int| 0 <= j < i && j < steps.len() && #[trigger] steps[j] == step
}

/// In every protocol a reset comes strictly before the first initialisation
/// command: a bare initialisation sequence has the reset pulse somewhere
/// before it. The cleared framebuffer is flushed only after the controller
/// has been initialised.
pub proof fn lemma_reset_precedes_init(controller: Controller, i: int)
    requires
        0 <= i < controller.spec_plan().len(),
    ensures
        controller.spec_plan()[i] == InitStep::InitSequence ==> occurs_before(
            controller.spec_plan(),
            InitStep::ResetPulse,
            i,
        ),
        controller.spec_plan()[i] == InitStep::FlushCleared ==> occurs_before(
            controller.spec_plan(),
            InitStep::InitSequence,
            i,
        ),
{
    let plan = controller.spec_plan();
    if plan[i] == InitStep::InitSequence {
        assert(controller == Controller::Oled && i == 4);
        assert(plan[3] == InitStep::ResetPulse);
    }
    if plan[i] == InitStep::FlushCleared {
        assert(controller == Controller::Oled && i == 5);
        assert(plan[4] == InitStep::InitSequence);
    }
}

/// What a drawing surface is, as plain values.
pub struct SurfaceModel {
    pub controller: Controller,
    pub width: u32,
    pub height: u32,
    pub format: PixelFormat,
}

/// The surface that a controller yields: its native geometry and format.
pub open spec fn native_surface(controller: Controller) -> SurfaceModel {
    match controller {
        Controller::Oled => SurfaceModel { controller, width: 96, height: 64, format: PixelFormat::Color16 },
        Controller::Tft => SurfaceModel { controller, width: 240, height: 240, format: PixelFormat::Color16 },
        Controller::TftNoChipSelect => SurfaceModel {
            controller,
            width: 240,
            height: 240,
            format: PixelFormat::Color16,
        },
    }
}

/// The drawing target that start-up yields. It is bound to one controller,
/// and its geometry and format never change.
#[derive(Clone, Copy, Debug, PartialEq, Eq)]
pub struct DrawSurface {
    controller: Controller,
    width: u32,
    height: u32,
    format: PixelFormat,
}

impl View for DrawSurface {
    type V = SurfaceModel;

    closed spec fn view(&self) -> SurfaceModel {
        SurfaceModel {
            controller: self.controller,
            width: self.width,
            height: self.height,
            format: self.format,
        }
    }
}

impl DrawSurface {
    #[verifier::type_invariant]
    spec fn is_native(self) -> bool {
        self@ == native_surface(self.controller)
    }

    /// The surface of a controller, at its native geometry.
    fn native(controller: Controller) -> (surface: DrawSurface)
        ensures
            surface@ == native_surface(controller),
    {
        let size: (u32, u32) = controller.geometry();
        DrawSurface { controller, width: size.0, height: size.1, format: PixelFormat::Color16 }
    }

    /// The controller behind the surface.
    pub fn controller(&self) -> (controller: Controller)
        ensures
            controller == self@.controller,
            self@ == native_surface(controller),
    {
        proof {
            use_type_invariant(self);
        }
        self.controller
    }

    /// Width in pixels.
    pub fn width(&self) -> (width: u32)
        ensures
            width == self@.width,
            width == native_surface(self@.controller).width,
    {
        proof {
            use_type_invariant(self);
        }
        self.width
    }

    /// Height in pixels.
    pub fn height(&self) -> (height: u32)
        ensures
            height == self@.height,
            height == native_surface(self@.controller).height,
    {
        proof {
            use_type_invariant(self);
        }
        self.height
    }

    /// How a pixel is stored.
    pub fn format(&self) -> (format: PixelFormat)
        ensures
            format == self@.format,
            format == native_surface(self@.controller).format,
    {
        proof {
            use_type_invariant(self);
        }
        self.format
    }

    /// Whether a flush transfers a framebuffer. On a direct-write surface
    /// every draw has already reached the panel and there is nothing to flush.
    pub fn buffered(&self) -> (buffered: bool)
        ensures
            buffered == self@.controller.spec_buffered(),
    {
        self.controller.buffered()
    }
}

/// What a failed start-up step means. The choice is made when the firmware
/// is built.
#[derive(Clone, Copy, Debug, PartialEq, Eq, Structural)]
pub enum FailurePolicy {
    /// A failed step ends start-up: without its display the device is of no use.
    Halt,
    /// A failed step is passed over and start-up goes on; the display may not
    /// work.
    Continue,
}

/// Where start-up stands.
#[derive(Clone, Copy, Debug, PartialEq, Eq, Structural)]
pub enum StartupStatus {
    /// Steps remain.
    Running,
    /// Every step was taken and none failed.
    Ready,
    /// Every step was taken, some failed and were passed over.
    Degraded,
    /// A step failed and start-up was abandoned.
    Halted,
}

/// Start-up as plain values: how many steps have been reported and what
/// became of them.
pub struct StartupModel {
    pub controller: Controller,
    pub policy: FailurePolicy,
    /// Number of steps reported so far.
    pub position: nat,
    /// Some reported step failed.
    pub failed: bool,
}

impl StartupModel {
    /// Start-up before its first step.
    pub open spec fn initial(controller: Controller, policy: FailurePolicy) -> StartupModel {
        StartupModel { controller, policy, position: 0, failed: false }
    }

    /// No more steps have been reported than the protocol has.
    pub open spec fn wf(self) -> bool {
        self.position <= self.controller.spec_plan().len()
    }

    /// Start-up was abandoned: a step failed under the halting policy.
    pub open spec fn halted(self) -> bool {
        self.failed && self.policy == FailurePolicy::Halt
    }

    /// Where start-up stands.
    pub open spec fn status(self) -> StartupStatus {
        if self.halted() {
            StartupStatus::Halted
        } else if self.position < self.controller.spec_plan().len() {
            StartupStatus::Running
        } else if self.failed {
            StartupStatus::Degraded
        } else {
            StartupStatus::Ready
        }
    }

    /// The step to take next, while start-up is running.
    pub open spec fn pending(self) -> Option<InitStep> {
        if self.status() == StartupStatus::Running {
            Some(self.controller.spec_plan()[self.position as int])
        } else {
            None
        }
    }

    /// Start-up after the pending step has been reported as done (`ok`) or
    /// failed. A report made when nothing is pending changes nothing.
    pub open spec fn reported(self, ok: bool) -> StartupModel {
        if self.status() != StartupStatus::Running {
            self
        } else if ok {
            StartupModel { position: self.position + 1, ..self }
        } else if self.policy == FailurePolicy::Halt {
            StartupModel { failed: true, ..self }
        } else {
            StartupModel { position: self.position + 1, failed: true, ..self }
        }
    }

    /// Start-up after `n` steps in a row have been reported as done.
    pub open spec fn reported_ok(self, n: nat) -> StartupModel
        decreases n,
    {
        if n == 0 {
            self
        } else {
            self.reported_ok((n - 1) as nat).reported(true)
        }
    }
}

/// The sequencer of start-up: it names the step to take, is told how the step
/// went, and yields the surface once every step is behind it.
#[derive(Clone, Copy, Debug, PartialEq, Eq)]
pub struct Startup {
    controller: Controller,
    policy: FailurePolicy,
    position: usize,
    failed: bool,
}

impl View for Startup {
    type V = StartupModel;

    closed spec fn view(&self) -> StartupModel {
        StartupModel {
            controller: self.controller,
            policy: self.policy,
            position: self.position as nat,
            failed: self.failed,
        }
    }
}

impl Startup {
    #[verifier::type_invariant]
    spec fn within_plan(self) -> bool {
        self@.wf()
    }

    /// Start-up of the given controller under the given policy, before its
    /// first step.
    pub fn new(controller: Controller, policy: FailurePolicy) -> (startup: Startup)
        ensures
            startup@ == StartupModel::initial(controller, policy),
            startup@.wf(),
    {
        Startup { controller, policy, position: 0, failed: false }
    }

    /// Where start-up stands.
    pub fn status(&self) -> (status: StartupStatus)
        ensures
            status == self@.status(),
            self@.wf(),
    {
        proof {
            use_type_invariant(self);
        }
        let plan: Vec<InitStep> = init_plan(self.controller);
        let halting: bool = match self.policy {
            FailurePolicy::Halt => true,
            FailurePolicy::Continue => false,
        };
        if self.failed && halting {
            StartupStatus::Halted
        } else if self.position < plan.len() {
            StartupStatus::Running
        } else if self.failed {
            StartupStatus::Degraded
        } else {
            StartupStatus::Ready
        }
    }

    /// The step to take next, or nothing once start-up is over.
    pub fn next_step(&self) -> (step: Option<InitStep>)
        ensures
            step == self@.pending(),
            self@.wf(),
    {
        proof {
            use_type_invariant(self);
        }
        match self.status() {
            StartupStatus::Running => {
                let plan: Vec<InitStep> = init_plan(self.controller);
                Some(plan[self.position])
            },
            _ => None,
        }
    }

    /// Records how the pending step went.
    pub fn report(&mut self, ok: bool)
        ensures
            final(self)@ == old(self)@.reported(ok),
            final(self)@.wf(),
    {
        proof {
            use_type_invariant(&*self);
        }
        match self.status() {
            StartupStatus::Running => {
                let halting: bool = match self.policy {
                    FailurePolicy::Halt => true,
                    FailurePolicy::Continue => false,
                };
                if ok {
                    self.position = self.position + 1;
                } else if halting {
                    self.failed = true;
                } else {
                    self.position = self.position + 1;
                    self.failed = true;
                }
            },
            _ => {},
        }
    }

    /// The surface to draw on, once every step is behind: whether all went
    /// well or failures were passed over. While steps remain, and after
    /// start-up was abandoned, there is none.
    pub fn surface(&self) -> (surface: Option<DrawSurface>)
        ensures
            self@.status() == StartupStatus::Ready || self@.status() == StartupStatus::Degraded
                ==> surface.is_some() && surface.unwrap()@ == native_surface(self@.controller),
            self@.status() == StartupStatus::Running || self@.status() == StartupStatus::Halted
                ==> surface.is_none(),
    {
        match self.status() {
            StartupStatus::Ready => Some(DrawSurface::native(self.controller)),
            StartupStatus::Degraded => Some(DrawSurface::native(self.controller)),
            _ => None,
        }
    }
}

/// While every step is reported as done, the steps are offered in the order
/// of the protocol, and after the last one start-up is ready.
pub proof fn lemma_steps_in_protocol_order(controller: Controller, policy: FailurePolicy, n: nat)
    requires
        n <= controller.spec_plan().len(),
    ensures
        StartupModel::initial(controller, policy).reported_ok(n) == (StartupModel {
            controller,
            policy,
            position: n,
            failed: false,
        }),
        n < controller.spec_plan().len() ==> StartupModel::initial(controller, policy).reported_ok(
            n,
        ).pending() == Some(controller.spec_plan()[n as int]),
        n == controller.spec_plan().len() ==> StartupModel::initial(controller, policy).reported_ok(
            n,
        ).status() == StartupStatus::Ready,
    decreases n,
{
    if n > 0 {
        lemma_steps_in_protocol_order(controller, policy, (n - 1) as nat);
    }
}

/// A report keeps start-up within its protocol, and never undoes a step or
/// forgets a failure.
pub proof fn lemma_report_keeps_progress(startup: StartupModel, ok: bool)
    requires
        startup.wf(),
    ensures
        startup.reported(ok).wf(),
        startup.reported(ok).position >= startup.position,
        startup.reported(ok).position <= startup.position + 1,
        startup.failed ==> startup.reported(ok).failed,
        startup.reported(ok).controller == startup.controller,
        startup.reported(ok).policy == startup.policy,
{
}

/// Under the halting policy a failed step abandons start-up for good: no step
/// is offered afterward and no later report changes anything. Under the
/// continuing policy start-up is never abandoned: a failed step counts as
/// taken, and once all are taken the display is marked as degraded.
pub proof fn lemma_failure_policy(startup: StartupModel, later: bool)
    requires
        startup.wf(),
        startup.status() == StartupStatus::Running,
    ensures
        startup.policy == FailurePolicy::Halt ==> {
            &&& startup.reported(false).status() == StartupStatus::Halted
            &&& startup.reported(false).pending().is_none()
            &&& startup.reported(false).reported(later) == startup.reported(false)
        },
        startup.policy == FailurePolicy::Continue ==> {
            &&& startup.reported(false).position == startup.position + 1
            &&& startup.reported(false).status() != StartupStatus::Halted
            &&& startup.reported(false).status() != StartupStatus::Ready
            &&& startup.reported(false).reported(later).status() != StartupStatus::Ready
        },
{
}

} // verus!
