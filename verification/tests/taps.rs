use dap_rs::jtag::{Jtag, JtagState, ScanOp, ScanReply, ScanStep, Taps};

fn chain() -> Taps {
    let mut taps = Taps::default();
    taps.setup(3, &[4, 5, 6]);
    taps
}

fn idle() -> ScanOp {
    ScanOp::ChangeMode { state: JtagState::Idle }
}

fn q(ok: bool) -> ScanReply {
    ScanReply::Queued(ok)
}

fn data(d: &[u8]) -> ScanReply {
    ScanReply::Data(d.to_vec())
}

#[test]
fn select_tap_shifts_ir_with_bypass_around_it() {
    let mut taps = chain();
    let ops = taps.select_tap(1, &[0x0e]);
    assert_eq!(
        ops,
        vec![
            ScanOp::WriteIr { data: vec![0x3f], last_bits: 6, exit: false },
            ScanOp::WriteIr { data: vec![0xee, 0xff], last_bits: 1, exit: true },
            idle(),
        ]
    );
}

#[test]
fn write_ir_first_tap_pads_whole_bytes_after() {
    let mut taps = chain();
    let ops = taps.select_tap(0, &[0x01]);
    assert_eq!(
        ops,
        vec![
            ScanOp::WriteIr { data: vec![0xff], last_bits: 8, exit: false },
            ScanOp::WriteIr { data: vec![0x07], last_bits: 3, exit: false },
            ScanOp::WriteIr { data: vec![0xf1], last_bits: 4, exit: true },
            idle(),
        ]
    );
    // the same plan again from write_ir
    assert_eq!(taps.write_ir(&[0x01]), ops);
}

#[test]
fn write_ir_last_tap_has_no_ones_after() {
    let mut taps = chain();
    let ops = taps.select_tap(2, &[0x3f]);
    assert_eq!(
        ops,
        vec![ScanOp::WriteIr { data: vec![0xff, 0xff], last_bits: 7, exit: true }, idle()]
    );
}

#[test]
fn write_ir_keeps_instruction_bits() {
    let mut taps = Taps::default();
    taps.setup(2, &[12, 3]);
    let ops = taps.select_tap(0, &[0xab, 0x05]);
    assert_eq!(
        ops,
        vec![
            ScanOp::WriteIr { data: vec![0x07], last_bits: 3, exit: false },
            ScanOp::WriteIr { data: vec![0xab, 0xf5], last_bits: 4, exit: true },
            idle(),
        ]
    );
}

fn shifted(ops: &[ScanOp]) -> usize {
    ops.iter()
        .map(|op| match op {
            ScanOp::WriteIr { data, last_bits, .. } => {
                (data.len() * 8 + *last_bits as usize).saturating_sub(8)
            }
            _ => 0,
        })
        .sum()
}

#[test]
fn lemma_write_ir_shifts_whole_chain() {
    let mut taps = Taps::default();
    taps.setup(4, &[4, 9, 7, 13]);
    let irs: [&[u8]; 4] = [&[0x0], &[0x0, 0x1], &[0x7f], &[0x0, 0x0]];
    for (tap, ir) in irs.iter().enumerate() {
        let ops = taps.select_tap(tap, ir);
        assert_eq!(shifted(&ops), 4 + 9 + 7 + 13);
    }
}

#[test]
fn read_ir_reads_bypass_then_instruction() {
    let mut taps = chain();
    taps.select_tap(1, &[0x0e]);
    assert_eq!(
        taps.read_ir(),
        vec![idle(), ScanOp::ReadIr { bits: 6 }, ScanOp::ReadIr { bits: 5 }]
    );
    taps.select_tap(2, &[0x01]);
    assert_eq!(taps.read_ir(), vec![idle(), ScanOp::ReadIr { bits: 6 }]);
}

#[test]
fn write_dr_appends_one_bypass_bit_per_tap_before() {
    let mut taps = chain();
    taps.select_tap(1, &[0x0e]);
    assert_eq!(
        taps.write_dr(&[0xab, 0x01], 1),
        vec![ScanOp::WriteDr { data: vec![0xab, 0xff], last_bits: 2, exit: true }, idle()]
    );
    taps.select_tap(0, &[0x01]);
    assert_eq!(
        taps.write_dr(&[0x12, 0x34], 8),
        vec![ScanOp::WriteDr { data: vec![0x12, 0x34], last_bits: 8, exit: true }, idle()]
    );
}

#[test]
fn queue_dr_read_steps() {
    let mut taps = chain();
    taps.select_tap(1, &[0x0e]);
    assert_eq!(
        taps.queue_dr_read(8, &[]),
        ScanStep::Issue(vec![idle(), ScanOp::QueueReadDr { bits: 1 }])
    );
    assert_eq!(
        taps.queue_dr_read(8, &[q(true)]),
        ScanStep::Issue(vec![ScanOp::QueueReadDr { bits: 9 }])
    );
    assert_eq!(taps.queue_dr_read(8, &[q(true), q(true)]), ScanStep::Done(vec![], true));
    // one read is queued: finishing it collects the bypass bits, then the data
    assert_eq!(
        taps.finish_dr_read(8, &[]),
        ScanStep::Issue(vec![ScanOp::FinishRead { bits: 1 }, ScanOp::FinishRead { bits: 9 }])
    );
    assert_eq!(
        taps.finish_dr_read(8, &[data(&[0x34, 0x01])]),
        ScanStep::Done(vec![], vec![0x34])
    );
}

#[test]
fn queue_dr_read_refused_discard() {
    let mut taps = chain();
    taps.select_tap(1, &[0x0e]);
    assert_eq!(taps.queue_dr_read(8, &[q(false)]), ScanStep::Done(vec![], false));
    // nothing dangles: a later read finishes without an extra read
    assert_eq!(taps.queue_dr_read(8, &[q(true), q(true)]), ScanStep::Done(vec![], true));
    assert_eq!(
        taps.finish_dr_read(8, &[data(&[0x01])]),
        ScanStep::Done(vec![], vec![0x01])
    );
}

#[test]
fn dangling_read_is_collected_with_the_last_read() {
    let mut taps = chain();
    taps.select_tap(1, &[0x0e]);
    assert_eq!(taps.queue_dr_read(8, &[q(true), q(false)]), ScanStep::Done(vec![], false));
    assert_eq!(taps.queue_dr_read(8, &[q(true), q(true)]), ScanStep::Done(vec![], true));
    assert_eq!(
        taps.finish_dr_read(8, &[data(&[0x55, 0x00])]),
        ScanStep::Done(vec![ScanOp::FinishRead { bits: 1 }], vec![0x55])
    );
    // collected once only
    assert_eq!(taps.queue_dr_read(8, &[q(true), q(true)]), ScanStep::Done(vec![], true));
    assert_eq!(
        taps.finish_dr_read(8, &[data(&[0x66, 0x00])]),
        ScanStep::Done(vec![], vec![0x66])
    );
}

#[test]
fn finish_dr_read_masks_high_bits() {
    let mut taps = chain();
    taps.select_tap(1, &[0x0e]);
    taps.queue_dr_read(5, &[q(true), q(true)]);
    assert_eq!(
        taps.finish_dr_read(5, &[data(&[0xff, 0x01])]),
        ScanStep::Done(vec![], vec![0x1f])
    );
    // short replies are extended with zeros
    taps.queue_dr_read(12, &[q(true), q(true)]);
    assert_eq!(
        taps.finish_dr_read(12, &[data(&[0xff])]),
        ScanStep::Done(vec![], vec![0xff, 0x00])
    );
}

#[test]
fn finish_dr_read_first_tap_keeps_raw_bytes() {
    let mut taps = chain();
    taps.select_tap(0, &[0x01]);
    taps.queue_dr_read(5, &[q(true), q(true)]);
    assert_eq!(
        taps.finish_dr_read(5, &[data(&[0xff, 0x01])]),
        ScanStep::Done(vec![], vec![0xff, 0x01])
    );
}

#[test]
fn queue_dr_read_write_steps() {
    let mut taps = chain();
    taps.select_tap(1, &[0x0e]);
    assert_eq!(
        taps.queue_dr_read_write(&[0xab, 0x01], 1, &[]),
        ScanStep::Issue(vec![ScanOp::QueueReadDr { bits: 1 }])
    );
    assert_eq!(
        taps.queue_dr_read_write(&[0xab, 0x01], 1, &[q(true)]),
        ScanStep::Issue(vec![ScanOp::QueueReadWriteDr {
            data: vec![0xab, 0xff],
            last_bits: 2,
            exit: true
        }])
    );
    assert_eq!(
        taps.queue_dr_read_write(&[0xab, 0x01], 1, &[q(true), q(false)]),
        ScanStep::Done(vec![idle()], false)
    );
    assert_eq!(
        taps.queue_dr_read_write(&[0xab, 0x01], 1, &[q(false)]),
        ScanStep::Done(vec![], false)
    );
}

#[test]
fn read_dr_steps() {
    let mut taps = chain();
    taps.select_tap(1, &[0x0e]);
    assert_eq!(
        taps.read_dr(8, &[]),
        ScanStep::Issue(vec![idle(), ScanOp::QueueReadDr { bits: 1 }])
    );
    assert_eq!(
        taps.read_dr(8, &[q(true)]),
        ScanStep::Issue(vec![ScanOp::QueueReadDr { bits: 9 }])
    );
    assert_eq!(
        taps.read_dr(8, &[q(true), q(true)]),
        ScanStep::Issue(vec![ScanOp::FinishRead { bits: 1 }, ScanOp::FinishRead { bits: 9 }])
    );
    assert_eq!(
        taps.read_dr(8, &[q(true), q(true), data(&[0x5a, 0x80])]),
        ScanStep::Done(vec![], vec![0x5a])
    );
    // nothing left queued: the next read starts over
    assert_eq!(
        taps.read_dr(8, &[q(true), q(true), data(&[0x01])]),
        ScanStep::Done(vec![], vec![0x01])
    );
}

#[test]
fn read_write_dr_steps() {
    let mut taps = chain();
    taps.select_tap(1, &[0x0e]);
    assert_eq!(
        taps.read_write_dr(&[0xab, 0x01], 1, &[q(true), q(true)]),
        ScanStep::Issue(vec![
            idle(),
            ScanOp::FinishRead { bits: 1 },
            ScanOp::FinishRead { bits: 10 }
        ])
    );
    assert_eq!(
        taps.read_write_dr(&[0xab, 0x01], 1, &[q(true), q(true), data(&[0x12, 0x03])]),
        ScanStep::Done(vec![], vec![0x12, 0x01])
    );
}

#[test]
fn last_tap_has_no_bypass_read() {
    let mut taps = Taps::default();
    taps.setup(8, &[4; 8]);
    taps.select_tap(7, &[0x0f]);
    assert_eq!(
        taps.queue_dr_read(8, &[]),
        ScanStep::Issue(vec![idle(), ScanOp::QueueReadDr { bits: 15 }])
    );
    assert_eq!(taps.read_dr(8, &[q(true)]), ScanStep::Issue(vec![ScanOp::FinishRead { bits: 15 }]));
    assert_eq!(
        taps.read_dr(8, &[q(true), data(&[0x80, 0x7f])]),
        ScanStep::Done(vec![], vec![0x80])
    );
}

#[test]
fn chain_accessors_follow_setup_and_selection() {
    let mut taps = Taps::default();
    assert_eq!(taps.num_taps(), 0);
    assert_eq!(taps.selected(), 0);
    assert_eq!(taps.queued_reads(), 0);
    taps.setup(3, &[4, 5, 6, 7]);
    assert_eq!(taps.num_taps(), 3);
    assert_eq!(taps.ir_len(1), 5);
    assert_eq!(taps.ir_len(3), 0);
    taps.select_tap(2, &[0x00]);
    assert_eq!(taps.selected(), 2);
    taps.queue_dr_read(8, &[q(true), q(true)]);
    assert_eq!(taps.queued_reads(), 1);
    taps.finish_dr_read(8, &[data(&[0])]);
    assert_eq!(taps.queued_reads(), 0);
    // a smaller chain keeps the lengths of the slots it no longer uses
    taps.setup(1, &[9]);
    assert_eq!(taps.num_taps(), 1);
    assert_eq!(taps.ir_len(0), 9);
    assert_eq!(taps.ir_len(2), 6);
}

struct Probe {
    taps: Taps,
}

impl From<()> for Probe {
    fn from(_: ()) -> Self {
        Probe { taps: Taps::default() }
    }
}

impl dap_rs::adi::ArmDebugInterface for Probe {
    fn transfers(&self) -> vstd::seq::Seq<dap_rs::adi::Transfer> {
        panic!("the transfer log exists for proofs only")
    }

    fn read_inner(
        &mut self,
        _apndp: dap_rs::swd::APnDP,
        _a: dap_rs::swd::DPRegister,
    ) -> Result<u32, dap_rs::swd::Error> {
        Ok(0)
    }

    fn write_inner(
        &mut self,
        _apndp: dap_rs::swd::APnDP,
        _a: dap_rs::swd::DPRegister,
        _data: u32,
    ) -> Result<(), dap_rs::swd::Error> {
        Ok(())
    }
}

impl Jtag<()> for Probe {
    const AVAILABLE: bool = true;
    type Error = ();

    fn sequences(&mut self, _data: &[u8], _rxbuf: &mut [u8]) -> u32 {
        0
    }

    fn set_clock(&mut self, _max_frequency: u32) -> bool {
        true
    }

    fn configure_taps(&mut self, req: &[u8]) -> Result<(), ()> {
        self.taps.setup(req.len(), req);
        Ok(())
    }

    fn tms_sequence(&mut self, _data: &[u8], _nbits: usize) {}

    fn taps(&mut self) -> &mut Taps {
        &mut self.taps
    }
}

#[test]
fn jtag_transport_exposes_its_chain() {
    let mut probe = Probe::from(());
    assert!(<Probe as Jtag<()>>::AVAILABLE);
    probe.configure_taps(&[4, 4]).unwrap();
    assert_eq!(probe.taps().num_taps(), 2);
}

#[test]
fn shorter_chain_ignores_stale_slots() {
    let mut taps = chain();
    taps.setup(2, &[4, 5]);
    taps.select_tap(1, &[0x0e]);
    // the third slot still holds 6 bits, but is no longer on the chain
    assert_eq!(taps.read_ir(), vec![idle(), ScanOp::ReadIr { bits: 5 }]);
    assert_eq!(
        taps.write_ir(&[0x0e]),
        vec![ScanOp::WriteIr { data: vec![0xee, 0xff], last_bits: 1, exit: true }, idle()]
    );
    // the last tap of the chain has no bypass bits after it
    assert_eq!(
        taps.queue_dr_read(8, &[]),
        ScanStep::Issue(vec![idle(), ScanOp::QueueReadDr { bits: 9 }])
    );
    assert_eq!(
        taps.queue_dr_read(8, &[q(false)]),
        ScanStep::Done(vec![], false)
    );
    assert_eq!(
        taps.read_dr(8, &[]),
        ScanStep::Issue(vec![idle(), ScanOp::QueueReadDr { bits: 9 }])
    );
    assert_eq!(taps.read_dr(8, &[q(true)]), ScanStep::Issue(vec![ScanOp::FinishRead { bits: 9 }]));
    assert_eq!(
        taps.read_dr(8, &[q(true), data(&[0x80, 0x01])]),
        ScanStep::Done(vec![], vec![0x80])
    );
}
