use litex_panel::transport::{frame_ops, BusLines, BusOp, TransferKind, Transport, TransportError};

/// A bus that records the line levels under which each transfer was made.
struct RecordingBus {
    lines: BusLines,
    transfers: Vec<(BusLines, Vec<u8>)>,
    history: Vec<BusLines>,
}

impl RecordingBus {
    fn new(mode_data: bool, chip_selected: bool) -> Self {
        RecordingBus {
            lines: BusLines { mode_data, chip_selected },
            transfers: Vec::new(),
            history: Vec::new(),
        }
    }

    fn run(&mut self, ops: &[BusOp], bytes: &[u8]) {
        for op in ops {
            if *op == BusOp::Transfer {
                self.transfers.push((self.lines, bytes.to_vec()));
            }
            self.lines.apply(*op);
            self.history.push(self.lines);
        }
    }
}

#[test]
fn command_frame_with_chip_select() {
    let ops = frame_ops(TransferKind::Command, true);
    assert_eq!(
        ops,
        vec![
            BusOp::AssertChipSelect,
            BusOp::ModeCommand,
            BusOp::Transfer,
            BusOp::ReleaseChipSelect
        ]
    );
    for start_mode in [false, true] {
        for start_cs in [false, true] {
            let mut bus = RecordingBus::new(start_mode, start_cs);
            bus.run(&ops, &[0xaf, 0x01]);
            assert_eq!(bus.transfers.len(), 1);
            let (lines, bytes) = &bus.transfers[0];
            assert!(!lines.mode_data);
            assert!(lines.chip_selected);
            assert_eq!(bytes, &vec![0xaf, 0x01]);
            assert!(!bus.lines.chip_selected);
        }
    }
}

#[test]
fn data_frame_with_chip_select() {
    let ops = frame_ops(TransferKind::Data, true);
    assert_eq!(
        ops,
        vec![
            BusOp::AssertChipSelect,
            BusOp::ModeData,
            BusOp::Transfer,
            BusOp::ReleaseChipSelect
        ]
    );
    let mut bus = RecordingBus::new(false, false);
    bus.run(&ops, &[1, 2, 3]);
    assert_eq!(bus.transfers.len(), 1);
    assert!(bus.transfers[0].0.mode_data);
    assert!(bus.transfers[0].0.chip_selected);
    assert!(!bus.lines.chip_selected);
    assert!(bus.lines.mode_data);
}

#[test]
fn frames_without_chip_select_leave_the_line_alone() {
    assert_eq!(
        frame_ops(TransferKind::Command, false),
        vec![BusOp::ModeCommand, BusOp::Transfer]
    );
    assert_eq!(
        frame_ops(TransferKind::Data, false),
        vec![BusOp::ModeData, BusOp::Transfer]
    );
    for start_cs in [false, true] {
        let mut bus = RecordingBus::new(true, start_cs);
        bus.run(&frame_ops(TransferKind::Command, false), &[9]);
        assert_eq!(bus.transfers.len(), 1);
        assert!(!bus.transfers[0].0.mode_data);
        assert_eq!(bus.transfers[0].0.chip_selected, start_cs);
        assert_eq!(bus.lines.chip_selected, start_cs);
        assert!(bus.history.iter().all(|lines| lines.chip_selected == start_cs));
    }
}

#[test]
fn chip_select_stays_low_for_the_whole_transfer() {
    let mut bus = RecordingBus::new(true, false);
    bus.run(&frame_ops(TransferKind::Command, true), &[0]);
    let selected: Vec<bool> = bus.history.iter().map(|lines| lines.chip_selected).collect();
    assert_eq!(selected, vec![true, true, true, false]);
}

#[test]
fn a_working_transport_plans_both_kinds_of_write() {
    let with_cs = Transport::new(true);
    assert_eq!(with_cs.write_command(), Ok(frame_ops(TransferKind::Command, true)));
    assert_eq!(with_cs.write_data(), Ok(frame_ops(TransferKind::Data, true)));
    let without_cs = Transport::new(false);
    assert_eq!(without_cs.write_command(), Ok(frame_ops(TransferKind::Command, false)));
    assert_eq!(without_cs.begin(TransferKind::Data), Ok(frame_ops(TransferKind::Data, false)));
    assert_eq!(with_cs.fault, None);
}

#[test]
fn a_refused_transfer_ends_the_transport() {
    let mut transport = Transport::new(true);
    let cleanup = transport.fail(BusOp::Transfer);
    assert_eq!(cleanup, vec![BusOp::ReleaseChipSelect]);
    assert_eq!(transport.fault, Some(TransportError::BusWrite));
    assert_eq!(transport.write_command(), Err(TransportError::BusWrite));
    assert_eq!(transport.write_data(), Err(TransportError::BusWrite));
}

#[test]
fn a_refused_transfer_without_chip_select_owes_nothing() {
    let mut transport = Transport::new(false);
    assert_eq!(transport.fail(BusOp::Transfer), vec![]);
    assert_eq!(transport.begin(TransferKind::Command), Err(TransportError::BusWrite));
}

#[test]
fn each_failed_line_leaves_its_own_fault() {
    let mut chip = Transport::new(true);
    assert_eq!(chip.fail(BusOp::AssertChipSelect), vec![]);
    assert_eq!(chip.write_data(), Err(TransportError::ChipSelect));

    let mut mode = Transport::new(true);
    assert_eq!(mode.fail(BusOp::ModeCommand), vec![]);
    assert_eq!(mode.write_data(), Err(TransportError::Mode));

    let mut mode_data = Transport::new(false);
    assert_eq!(mode_data.fail(BusOp::ModeData), vec![]);
    assert_eq!(mode_data.write_command(), Err(TransportError::Mode));
}

#[test]
fn a_failed_release_is_no_fault() {
    let mut transport = Transport::new(true);
    assert_eq!(transport.fail(BusOp::ReleaseChipSelect), vec![]);
    assert_eq!(transport.fault, None);
    assert!(transport.write_command().is_ok());
}

#[test]
fn the_first_fault_stays() {
    let mut transport = Transport::new(true);
    transport.fail(BusOp::ModeData);
    transport.fail(BusOp::Transfer);
    transport.fail(BusOp::AssertChipSelect);
    assert_eq!(transport.fault, Some(TransportError::Mode));
    assert!(transport.chip_select);
}
