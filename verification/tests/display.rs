use litex_panel::display::{
    init_plan, ssd1331, st7789, st7789_nocs, Controller, FailurePolicy, InitStep, PixelFormat,
    Orientation, Startup, StartupStatus, ORIENTATION, SETTLE_MICROS,
};

fn position(plan: &[InitStep], step: InitStep) -> Option<usize> {
    plan.iter().position(|s| *s == step)
}

#[test]
fn oled_protocol() {
    assert_eq!(
        ssd1331(),
        vec![
            InitStep::ReleaseChipSelect,
            InitStep::AssertChipSelect,
            InitStep::BuildDriver,
            InitStep::ResetPulse,
            InitStep::InitSequence,
            InitStep::FlushCleared,
        ]
    );
    assert_eq!(init_plan(Controller::Oled), ssd1331());
}

#[test]
fn tft_protocols() {
    let expected = vec![
        InitStep::BuildTransport,
        InitStep::BuildDriver,
        InitStep::ResetAndInit,
        InitStep::SetOrientation,
        InitStep::Settle,
    ];
    assert_eq!(st7789(), expected);
    assert_eq!(st7789_nocs(), expected);
    assert_eq!(init_plan(Controller::Tft), expected);
    assert_eq!(init_plan(Controller::TftNoChipSelect), expected);
    assert_eq!(SETTLE_MICROS, 10);
}

#[test]
fn reset_completes_before_initialisation() {
    let plan = ssd1331();
    let reset = position(&plan, InitStep::ResetPulse).unwrap();
    let init = position(&plan, InitStep::InitSequence).unwrap();
    let flush = position(&plan, InitStep::FlushCleared).unwrap();
    assert!(reset < init);
    assert!(init < flush);
    assert_eq!(plan.iter().filter(|s| **s == InitStep::FlushCleared).count(), 1);
    for controller in [Controller::Tft, Controller::TftNoChipSelect] {
        let plan = init_plan(controller);
        assert_eq!(position(&plan, InitStep::InitSequence), None);
        assert_eq!(position(&plan, InitStep::FlushCleared), None);
        let init = position(&plan, InitStep::ResetAndInit).unwrap();
        assert!(init < position(&plan, InitStep::SetOrientation).unwrap());
        assert_eq!(plan.last(), Some(&InitStep::Settle));
    }
}

#[test]
fn oled_chip_select_edge_comes_before_the_driver() {
    let plan = ssd1331();
    let release = position(&plan, InitStep::ReleaseChipSelect).unwrap();
    let assert = position(&plan, InitStep::AssertChipSelect).unwrap();
    let build = position(&plan, InitStep::BuildDriver).unwrap();
    assert!(release < assert && assert < build);
}

#[test]
fn panel_geometry_and_orientation() {
    assert_eq!(Controller::Oled.geometry(), (96, 64));
    assert_eq!(Controller::Tft.geometry(), (240, 240));
    assert_eq!(Controller::TftNoChipSelect.geometry(), (240, 240));
    assert_eq!(ORIENTATION, Orientation::PortraitSwapped);
}

#[test]
fn controller_properties() {
    assert!(Controller::Oled.buffered());
    assert!(!Controller::Tft.buffered());
    assert!(!Controller::TftNoChipSelect.buffered());
    assert!(Controller::Tft.framed_chip_select());
    assert!(!Controller::TftNoChipSelect.framed_chip_select());
    assert!(!Controller::Oled.framed_chip_select());
}

fn run(controller: Controller, policy: FailurePolicy, fail_at: Option<usize>) -> (Startup, Vec<InitStep>) {
    let mut startup = Startup::new(controller, policy);
    let mut taken = Vec::new();
    while let Some(step) = startup.next_step() {
        let ok = Some(taken.len()) != fail_at;
        taken.push(step);
        startup.report(ok);
    }
    (startup, taken)
}

#[test]
fn startup_offers_the_steps_in_order() {
    for controller in [Controller::Oled, Controller::Tft, Controller::TftNoChipSelect] {
        for policy in [FailurePolicy::Halt, FailurePolicy::Continue] {
            let (startup, taken) = run(controller, policy, None);
            assert_eq!(taken, init_plan(controller));
            assert_eq!(startup.status(), StartupStatus::Ready);
            assert_eq!(startup.next_step(), None);
        }
    }
}

#[test]
fn startup_is_running_until_the_last_report() {
    let mut startup = Startup::new(Controller::Tft, FailurePolicy::Halt);
    for _ in 0..5 {
        assert_eq!(startup.status(), StartupStatus::Running);
        assert!(startup.surface().is_none());
        startup.report(true);
    }
    assert_eq!(startup.status(), StartupStatus::Ready);
    startup.report(false);
    assert_eq!(startup.status(), StartupStatus::Ready);
}

#[test]
fn surfaces_have_the_native_geometry() {
    let (oled, _) = run(Controller::Oled, FailurePolicy::Halt, None);
    let surface = oled.surface().unwrap();
    assert_eq!(surface.controller(), Controller::Oled);
    assert_eq!((surface.width(), surface.height()), (96, 64));
    assert_eq!(surface.format(), PixelFormat::Color16);
    assert!(surface.buffered());

    for controller in [Controller::Tft, Controller::TftNoChipSelect] {
        let (tft, _) = run(controller, FailurePolicy::Halt, None);
        let surface = tft.surface().unwrap();
        assert_eq!(surface.controller(), controller);
        assert_eq!((surface.width(), surface.height()), (240, 240));
        assert_eq!(surface.format(), PixelFormat::Color16);
        assert!(!surface.buffered());
    }
}

#[test]
fn a_failure_halts_startup_under_the_halting_policy() {
    for fail_at in 0..6 {
        let (startup, taken) = run(Controller::Oled, FailurePolicy::Halt, Some(fail_at));
        assert_eq!(taken.len(), fail_at + 1);
        assert_eq!(startup.status(), StartupStatus::Halted);
        assert_eq!(startup.next_step(), None);
        assert!(startup.surface().is_none());
        let mut later = startup;
        later.report(true);
        assert_eq!(later.status(), StartupStatus::Halted);
        assert_eq!(later, startup);
    }
}

#[test]
fn a_failure_is_passed_over_under_the_continuing_policy() {
    for fail_at in 0..5 {
        let (startup, taken) = run(Controller::Tft, FailurePolicy::Continue, Some(fail_at));
        assert_eq!(taken, init_plan(Controller::Tft));
        assert_eq!(startup.status(), StartupStatus::Degraded);
        let surface = startup.surface().unwrap();
        assert_eq!((surface.width(), surface.height()), (240, 240));
    }
}
