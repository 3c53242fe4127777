//! The scan chain: the taps on it, which one is selected, and the plans that
//! shift instructions and data through the selected tap while the others sit
//! in bypass.

use super::scan::{ScanOp, ScanOpSpec, ScanReply, ScanStep, ScanStepSpec};
use super::sm::JtagState;
use vstd::prelude::*;

verus! {

/// The mask of the `k` low bits of a byte (`k < 8`).
pub open spec fn low_mask(k: u8) -> u8 {
    ((1u8 << k) - 1) as u8
}

/// Whether bit `j` of `b` is set.
pub open spec fn bit_set(b: u8, j: u8) -> bool {
    (b >> j) & 1u8 == 1u8
}

/// Byte `i` of a buffer whose first `this_len` bits are data and whose
/// following bits are all ones.
pub open spec fn pad_byte(b: u8, i: int, this_len: int) -> u8 {
    if 8 * i + 8 <= this_len {
        b
    } else if this_len <= 8 * i {
        0xffu8
    } else {
        b | !low_mask((this_len - 8 * i) as u8)
    }
}

/// The number of bytes that hold `n` bits.
pub open spec fn bytes_for(n: int) -> int {
    (n + 7) / 8
}

/// The number of bits shifted from the final byte of an `n`-bit shift (1 to 8).
pub open spec fn last_bits(n: int) -> u8 {
    if n % 8 == 0 {
        8u8
    } else {
        (n % 8) as u8
    }
}

/// `buf` after its first `bytes_for(this_len + shift)` bytes were padded with
/// ones above bit `this_len`.
pub open spec fn padded_in_place(buf: Seq<u8>, this_len: int, shift: int) -> Seq<u8> {
    Seq::new(
        buf.len(),
        |i: int|
            if i < bytes_for(this_len + shift) {
                pad_byte(buf[i], i, this_len)
            } else {
                buf[i]
            },
    )
}

/// `data`, extended with zero bytes up to `bytes_for(this_len + shift)` bytes
/// where it is shorter, then padded with ones above bit `this_len`.
pub open spec fn padded(data: Seq<u8>, this_len: int, shift: int) -> Seq<u8> {
    let n = bytes_for(this_len + shift);
    let ext = if data.len() < n {
        data + Seq::new((n - data.len()) as nat, |i: int| 0u8)
    } else {
        data
    };
    padded_in_place(ext, this_len, shift)
}

/// Padding keeps each of the first `this_len` data bits and sets every bit above them.
pub proof fn lemma_pad_byte_bits(b: u8, i: int, this_len: int, j: u8)
    requires
        0 <= i,
        0 <= this_len,
        j < 8,
    ensures
        bit_set(pad_byte(b, i, this_len), j) == if 8 * i + j < this_len {
            bit_set(b, j)
        } else {
            true
        },
{
    if 8 * i + 8 <= this_len {
    } else if this_len <= 8 * i {
        assert(bit_set(0xffu8, j)) by (bit_vector)
            requires
                j < 8,
        ;
    } else {
        let r = (this_len - 8 * i) as u8;
        assert(0 < r < 8);
        assert(bit_set(b | !low_mask(r), j) == if j < r {
            bit_set(b, j)
        } else {
            true
        }) by (bit_vector)
            requires
                0 < r < 8,
                j < 8,
        ;
    }
}

/// Pads the `this_len`-bit value at the start of `input` with one-bits up to
/// `this_len + shift` bits, rounded up to whole bytes, and returns that number
/// of bytes; fails, leaving `input` unchanged, when `input` is shorter.
fn add_ones_to_end(input: &mut [u8], this_len: usize, shift: usize) -> (r: Result<usize, ()>)
    requires
        this_len + shift + 7 <= usize::MAX,
    ensures
        old(input)@.len() >= bytes_for(this_len + shift) <==> r is Ok,
        r is Ok ==> r->Ok_0 == bytes_for(this_len + shift),
        r is Ok ==> final(input)@ == padded_in_place(old(input)@, this_len as int, shift as int),
        r is Err ==> final(input)@ == old(input)@,
{
    let bytes_needed = (this_len + shift + 7) / 8;
    if input.len() < bytes_needed {
        return Err(());  // Not enough space in  buffer
    }
    let end = this_len / 8;
    if end < bytes_needed {
        let rem = (this_len % 8) as u8;
        assert(1u8 << rem >= 1) by (bit_vector)
            requires
                rem < 8,
        ;
        let top_bits: u8 = (1u8 << rem) - 1;
        let b = input[end];
        input[end] = b | !top_bits;
        proof {
            assert(top_bits == low_mask(rem));
            if rem == 0 {
                assert(b | !(((1u8 << 0u8) - 1) as u8) == 0xffu8) by (bit_vector);
            }
            assert(input@[end as int] == pad_byte(old(input)@[end as int], end as int, this_len as int));
        }
        // Fill remaining bytes with 0xFF
        let mut i = end + 1;
        while i < bytes_needed
            invariant
                end + 1 <= i <= bytes_needed,
                bytes_needed == bytes_for(this_len + shift),
                bytes_needed <= input@.len(),
                end == this_len / 8,
                input@.len() == old(input)@.len(),
                forall|k: int|
                    0 <= k < input@.len() ==> input@[k] == if k < end {
                        old(input)@[k]
                    } else if k == end {
                        pad_byte(old(input)@[k], k, this_len as int)
                    } else if k < i {
                        0xffu8
                    } else {
                        old(input)@[k]
                    },
            decreases bytes_needed - i,
        {
            input[i] = 0xff;
            i = i + 1;
        }
        assert(final(input)@ =~= padded_in_place(old(input)@, this_len as int, shift as int));
    } else {
        assert(final(input)@ =~= padded_in_place(old(input)@, this_len as int, shift as int));
    }
    Ok(bytes_needed)
}

/// The most taps a scan chain can hold.
pub const MAX_TAPS: usize = 8;

#[derive(Clone, Copy)]
struct Tap {
    ir_len: usize,
}

struct TapSelect {
    // Selected TAP index
    index: usize,
    /// This many IR bits before selected TAP
    ir_prev: usize,
    /// This many TAPs before selected
    dr_prev: usize,
    /// IR bits in the selected TAP
    ir_len: usize,
    /// This many IR bits after the selected TAP
    ir_post: usize,
    /// This many TAPs after the selected TAP
    dr_post: usize,
}

/// The taps of a JTAG scan chain and the reads queued through them.
pub struct Taps {
    taps: [Tap; MAX_TAPS],
    num_taps: usize,
    active_tap: TapSelect,
    dangling_read: bool,
    queued_reads: usize,
}

/// The sum of `lens[lo..hi]`.
pub open spec fn ir_sum(lens: Seq<usize>, lo: int, hi: int) -> int
    decreases hi - lo,
{
    if hi <= lo {
        0
    } else {
        ir_sum(lens, lo, hi - 1) + lens[hi - 1]
    }
}

/// The mathematical value of a `Taps`.
pub struct TapsModel {
    /// The instruction-register length of each tap slot.
    pub ir_lens: Seq<usize>,
    /// How many taps `setup` declared.
    pub num_taps: usize,
    /// The selected tap.
    pub active: usize,
    /// A read of the bypass bits after the selected tap was queued but the
    /// read of the data itself could not be; it is collected with the last
    /// queued read.
    pub dangling_read: bool,
    /// Reads queued and not yet finished.
    pub queued_reads: usize,
}

impl TapsModel {
    /// The instruction-register length of the selected tap.
    pub open spec fn active_ir_len(self) -> int {
        self.ir_lens[self.active as int] as int
    }

    /// The instruction-register bits of the taps before the selected one.
    pub open spec fn ir_before(self) -> int {
        ir_sum(self.ir_lens, 0, self.active as int)
    }

    /// The instruction-register bits of the taps after the selected one.
    pub open spec fn ir_after(self) -> int {
        ir_sum(self.ir_lens, self.active + 1, self.num_taps as int)
    }

    /// The instruction-register bits of the whole chain.
    pub open spec fn chain_ir_len(self) -> int {
        ir_sum(self.ir_lens, 0, self.num_taps as int)
    }

    /// The bypass bits that follow the selected tap's data on a data-register read.
    pub open spec fn discard_bits(self) -> int {
        self.num_taps - self.active - 1
    }
}

impl View for Taps {
    type V = TapsModel;

    closed spec fn view(&self) -> TapsModel {
        TapsModel {
            ir_lens: self.taps@.map_values(|t: Tap| t.ir_len),
            num_taps: self.num_taps,
            active: self.active_tap.index,
            dangling_read: self.dangling_read,
            queued_reads: self.queued_reads,
        }
    }
}

impl Taps {
    /// Taps are declared from byte-sized lengths, at most `MAX_TAPS` of them,
    /// and the selected tap is one of the slots or just past them.
    #[verifier::type_invariant]
    spec fn inv(self) -> bool {
        &&& self.num_taps <= MAX_TAPS
        &&& self.active_tap.index <= MAX_TAPS
        &&& forall|i: int| 0 <= i < MAX_TAPS ==> #[trigger] self.taps@[i].ir_len <= 255
    }
}

impl Default for Taps {
    fn default() -> (taps: Self)
        ensures
            taps@.ir_lens == Seq::new(MAX_TAPS as nat, |i: int| 0usize),
            taps@.num_taps == 0,
            taps@.active == 0,
            !taps@.dangling_read,
            taps@.queued_reads == 0,
    {
        let taps = Self {
            taps: [Tap { ir_len: 0 }; MAX_TAPS],
            num_taps: 0,
            active_tap: TapSelect { index: 0, ir_prev: 0, dr_prev: 0, ir_len: 0, ir_post: 0, dr_post: 0 },
            dangling_read: false,
            queued_reads: 0,
        };
        assert(taps@.ir_lens =~= Seq::new(MAX_TAPS as nat, |i: int| 0usize));
        taps
    }
}

impl Taps {
    /// Declares a chain of `chain_count` taps whose instruction registers are
    /// `ir_lens[0..chain_count]` bits long.
    pub fn setup(&mut self, chain_count: usize, ir_lens: &[u8])
        requires
            chain_count <= MAX_TAPS,
            chain_count <= ir_lens@.len(),
        ensures
            final(self)@ == (TapsModel {
                ir_lens: Seq::new(
                    MAX_TAPS as nat,
                    |i: int|
                        if i < chain_count {
                            ir_lens@[i] as usize
                        } else {
                            old(self)@.ir_lens[i]
                        },
                ),
                num_taps: chain_count,
                ..old(self)@
            }),
    {
        proof {
            use_type_invariant(&*self);
        }
        for i in 0..chain_count
            invariant
                chain_count <= MAX_TAPS,
                chain_count <= ir_lens@.len(),
                self@.num_taps == old(self)@.num_taps,
                self@.active == old(self)@.active,
                self@.dangling_read == old(self)@.dangling_read,
                self@.queued_reads == old(self)@.queued_reads,
                self.num_taps <= MAX_TAPS,
                self.active_tap.index <= MAX_TAPS,
                forall|k: int| 0 <= k < MAX_TAPS ==> #[trigger] self.taps@[k].ir_len <= 255,
                self@.ir_lens.len() == MAX_TAPS,
                forall|k: int|
                    0 <= k < MAX_TAPS ==> #[trigger] self@.ir_lens[k] == if k < i {
                        ir_lens@[k] as usize
                    } else {
                        old(self)@.ir_lens[k]
                    },
        {
            let ghost prev = self.taps@;
            let ghost prev_lens = self@.ir_lens;
            self.taps[i].ir_len = ir_lens[i] as usize;
            assert(self.taps@ =~= prev.update(i as int, Tap { ir_len: ir_lens@[i as int] as usize }));
            assert(self@.ir_lens =~= prev_lens.update(i as int, ir_lens@[i as int] as usize));
        }
        self.num_taps = chain_count;
        assert(final(self)@.ir_lens =~= Seq::new(
            MAX_TAPS as nat,
            |i: int|
                if i < chain_count {
                    ir_lens@[i] as usize
                } else {
                    old(self)@.ir_lens[i]
                },
        ));
    }
}

/// The writes that shift `bits` one-bits into the instruction register
/// without leaving Shift-IR: whole bytes first, then the remaining bits.
pub open spec fn ones_ops(bits: int) -> Seq<ScanOpSpec> {
    (if bits / 8 > 0 {
        seq![ScanOpSpec::WriteIr { data: Seq::new((bits / 8) as nat, |i: int| 0xffu8), last_bits: 8u8, exit: false }]
    } else {
        Seq::empty()
    }) + (if bits % 8 > 0 {
        seq![ScanOpSpec::WriteIr { data: seq![low_mask((bits % 8) as u8)], last_bits: (bits % 8) as u8, exit: false }]
    } else {
        Seq::empty()
    })
}

impl TapsModel {
    /// The plan of `Taps::write_ir`: ones through the taps after the selected
    /// one, then `ir` followed by ones for the taps before it, then Run-Test/Idle.
    pub open spec fn write_ir_ops(self, ir: Seq<u8>) -> Seq<ScanOpSpec> {
        ones_ops(self.ir_after()) + seq![
            ScanOpSpec::WriteIr {
                data: padded(ir, self.active_ir_len(), self.ir_before()),
                last_bits: last_bits(self.ir_before() + self.active_ir_len()),
                exit: true,
            },
            ScanOpSpec::ChangeMode { state: JtagState::Idle },
        ]
    }

    /// The plan of `Taps::read_ir`: Run-Test/Idle, the bits of the taps after the
    /// selected one (read and dropped), then the selected tap's instruction register,
    /// whose reply is the result.
    pub open spec fn read_ir_ops(self) -> Seq<ScanOpSpec> {
        seq![ScanOpSpec::ChangeMode { state: JtagState::Idle }] + (if self.ir_after() > 0 {
            seq![ScanOpSpec::ReadIr { bits: self.ir_after() as usize }]
        } else {
            Seq::empty()
        }) + seq![ScanOpSpec::ReadIr { bits: self.active_ir_len() as usize }]
    }

    /// The bits of a data-register shift of `dr` whose final byte holds `bits` bits.
    pub open spec fn dr_len(dr: Seq<u8>, bits: int) -> int {
        (dr.len() - 1) * 8 + bits
    }

    /// The plan of `Taps::write_dr`: `dr` followed by one bypass bit per tap
    /// before the selected one, then Run-Test/Idle.
    pub open spec fn write_dr_ops(self, dr: Seq<u8>, bits: int) -> Seq<ScanOpSpec> {
        let this_len = Self::dr_len(dr, bits);
        seq![
            ScanOpSpec::WriteDr {
                data: padded(dr, this_len, self.active as int),
                last_bits: last_bits(self.active + this_len),
                exit: true,
            },
            ScanOpSpec::ChangeMode { state: JtagState::Idle },
        ]
    }
}

/// A buffer of `n` copies of `byte`.
fn filled(byte: u8, n: usize) -> (buf: Vec<u8>)
    ensures
        buf@ == Seq::new(n as nat, |i: int| byte),
{
    let mut buf: Vec<u8> = Vec::new();
    let mut i: usize = 0;
    while i < n
        invariant
            i <= n,
            buf@ == Seq::new(i as nat, |k: int| byte),
        decreases n - i,
    {
        buf.push(byte);
        i = i + 1;
        assert(buf@ =~= Seq::new(i as nat, |k: int| byte));
    }
    buf
}

/// A copy of `data` extended with zero bytes to hold `this_len + shift` bits,
/// padded with ones above bit `this_len`.
fn padded_copy(data: &[u8], this_len: usize, shift: usize) -> (buf: Vec<u8>)
    requires
        this_len + shift + 7 <= usize::MAX,
    ensures
        buf@ == padded(data@, this_len as int, shift as int),
{
    let n = (this_len + shift + 7) / 8;
    let mut buf: Vec<u8> = Vec::new();
    let mut i: usize = 0;
    while i < data.len()
        invariant
            i <= data@.len(),
            buf@ == data@.subrange(0, i as int),
        decreases data@.len() - i,
    {
        buf.push(data[i]);
        i = i + 1;
        assert(buf@ =~= data@.subrange(0, i as int));
    }
    assert(buf@ =~= data@);
    if buf.len() < n {
        let mut zeros = filled(0, n - buf.len());
        buf.append(&mut zeros);
        assert(buf@ =~= data@ + Seq::new((n - data@.len()) as nat, |i: int| 0u8));
    }
    let padded_bytes = add_ones_to_end(buf.as_mut_slice(), this_len, shift);
    assert(padded_bytes is Ok);
    assert(buf@ =~= padded(data@, this_len as int, shift as int));
    buf
}

impl Taps {
    /// The instruction-register bits of the tap slots `lo..hi`.
    fn ir_bits(&self, lo: usize, hi: usize) -> (sum: usize)
        requires
            lo <= hi <= MAX_TAPS,
        ensures
            sum == ir_sum(self@.ir_lens, lo as int, hi as int),
            sum <= 255 * (hi - lo),
    {
        proof {
            use_type_invariant(self);
        }
        let mut sum: usize = 0;
        let mut i = lo;
        while i < hi
            invariant
                lo <= i <= hi <= MAX_TAPS,
                sum == ir_sum(self@.ir_lens, lo as int, i as int),
                sum <= 255 * (i - lo),
                forall|k: int| 0 <= k < MAX_TAPS ==> #[trigger] self.taps@[k].ir_len <= 255,
            decreases hi - i,
        {
            assert(self@.ir_lens[i as int] == self.taps@[i as int].ir_len);
            sum = sum + self.taps[i].ir_len;
            i = i + 1;
        }
        sum
    }

    /// The writes that shift `bits` one-bits into the instruction registers.
    fn write_ones(&self, bits: usize) -> (ops: Vec<ScanOp>)
        ensures
            ops.deep_view() == ones_ops(bits as int),
    {
        let bytes = bits / 8;
        let rem = bits % 8;
        let mut ops: Vec<ScanOp> = Vec::new();
        if bytes > 0 {
            let buf = filled(0xff, bytes);
            ops.push(ScanOp::WriteIr { data: buf, last_bits: 8, exit: false });
        }
        if rem > 0 {
            let b = rem as u8;
            assert(1u8 << b >= 1) by (bit_vector)
                requires
                    b < 8,
            ;
            let mut buf: Vec<u8> = Vec::new();
            buf.push((1u8 << b) - 1);
            assert(buf@ =~= seq![low_mask(b)]);
            ops.push(ScanOp::WriteIr { data: buf, last_bits: b, exit: false });
        }
        assert(ops.deep_view() =~= ones_ops(bits as int));
        ops
    }
}

impl Taps {
    //==================================================================================================================
    // The methods below generate the bit patterns of JTAG sequences as plans of `ScanOp`s.
    //==================================================================================================================
    /// Select which TAP in the scan chain to operate upon. `ir` will be shifted into its
    /// instruction register, and the other TAPs put into bypass; the result is the plan
    /// that does so.
    pub fn select_tap(&mut self, tap: usize, ir: &[u8]) -> (ops: Vec<ScanOp>)
        requires
            tap < old(self)@.num_taps,
            ir@.len() == bytes_for(old(self)@.ir_lens[tap as int] as int),
        ensures
            final(self)@ == (TapsModel { active: tap, ..old(self)@ }),
            ops.deep_view() == final(self)@.write_ir_ops(ir@),
    {
        proof {
            use_type_invariant(&*self);
        }
        self.active_tap.index = tap;
        self.write_ir(ir)
    }

    /// Shift `ir` into the instruction register of the TAP selected by `select_tap`;
    /// the result is the plan that does so.
    pub fn write_ir(&self, ir: &[u8]) -> (ops: Vec<ScanOp>)
        requires
            self@.active < self@.num_taps,
            ir@.len() == bytes_for(self@.active_ir_len()),
        ensures
            ops.deep_view() == self@.write_ir_ops(ir@),
    {
        proof {
            use_type_invariant(self);
        }
        let index = self.active_tap.index;
        assert(self@.ir_lens[index as int] == self.taps@[index as int].ir_len);
        let this_irlen = self.taps[index].ir_len;

        // Put downstream taps into BYPASS
        let after_pad = self.ir_bits(index + 1, self.num_taps);
        let mut ops = self.write_ones(after_pad);

        let pad_bits = self.ir_bits(0, index);
        let mut total_bits = (pad_bits + this_irlen) % 8;
        if total_bits == 0 {
            total_bits = 8;
        }
        let data = padded_copy(ir, this_irlen, pad_bits);
        ops.push(ScanOp::WriteIr { data, last_bits: total_bits as u8, exit: true });
        ops.push(ScanOp::ChangeMode { state: JtagState::Idle });
        assert(ops.deep_view() =~= self@.write_ir_ops(ir@));
        ops
    }

    /// Read the instruction register of the TAP selected by `select_tap`: the plan
    /// whose last operation's reply is the selected tap's instruction register.
    pub fn read_ir(&self) -> (ops: Vec<ScanOp>)
        requires
            self@.active < self@.num_taps,
        ensures
            ops.deep_view() == self@.read_ir_ops(),
    {
        proof {
            use_type_invariant(self);
        }
        let index = self.active_tap.index;
        assert(self@.ir_lens[index as int] == self.taps@[index as int].ir_len);
        let this_irlen = self.taps[index].ir_len;
        let pad_bits = self.ir_bits(index + 1, self.num_taps);

        // Discard the unwanted bits
        let mut ops: Vec<ScanOp> = Vec::new();
        ops.push(ScanOp::ChangeMode { state: JtagState::Idle });
        if pad_bits > 0 {
            ops.push(ScanOp::ReadIr { bits: pad_bits });
        }
        ops.push(ScanOp::ReadIr { bits: this_irlen });
        assert(ops.deep_view() =~= self@.read_ir_ops());
        ops
    }

    /// Shift `dr` into the data register of the TAP selected by `select_tap`. `bits` indicates
    /// how many bits of the final byte should be written (a value of 8 will write the entire byte);
    /// the result is the plan that does so.
    pub fn write_dr(&self, dr: &[u8], bits: usize) -> (ops: Vec<ScanOp>)
        requires
            self@.active < MAX_TAPS,
            dr@.len() >= 1,
            TapsModel::dr_len(dr@, bits as int) + MAX_TAPS + 7 <= usize::MAX,
        ensures
            ops.deep_view() == self@.write_dr_ops(dr@, bits as int),
    {
        proof {
            use_type_invariant(self);
        }
        let this_len = (dr.len() - 1) * 8 + bits;
        let pad_bits = self.active_tap.index;

        let mut total_bits = (pad_bits + this_len) % 8;
        if total_bits == 0 {
            total_bits = 8;
        }
        let data = padded_copy(dr, this_len, pad_bits);
        let mut ops: Vec<ScanOp> = Vec::new();
        ops.push(ScanOp::WriteDr { data, last_bits: total_bits as u8, exit: true });
        ops.push(ScanOp::ChangeMode { state: JtagState::Idle });
        assert(ops.deep_view() =~= self@.write_dr_ops(dr@, bits as int));
        ops
    }
}

/// The bytes a data-register read returns once the bits of the `pad` bypass taps
/// are removed: cut or zero-extended to the bytes of `bits` bits, the bits above
/// `bits` in the last byte cleared; unchanged when `pad` is zero.
pub open spec fn trimmed(raw: Seq<u8>, pad: int, bits: int) -> Seq<u8> {
    if pad > 0 {
        let bytes = bytes_for(bits);
        let r = if bytes <= raw.len() {
            raw.take(bytes)
        } else {
            raw + Seq::new((bytes - raw.len()) as nat, |i: int| 0u8)
        };
        if bits % 8 != 0 {
            r.update(bytes - 1, r[bytes - 1] & low_mask((bits % 8) as u8))
        } else {
            r
        }
    } else {
        raw
    }
}

impl TapsModel {
    /// The same chain with the read bookkeeping replaced.
    pub open spec fn with_reads(self, queued_reads: usize, dangling_read: bool) -> TapsModel {
        TapsModel { queued_reads, dangling_read, ..self }
    }

    /// The step of `Taps::queue_dr_read` for the replies received so far, and the
    /// chain afterwards.
    pub open spec fn queue_dr_read_step(self, bits: int, replies: Seq<ScanReply>) -> (
        ScanStepSpec<bool>,
        TapsModel,
    ) {
        let discard = self.discard_bits();
        let total = self.active + bits;
        let idle = ScanOpSpec::ChangeMode { state: JtagState::Idle };
        if discard > 0 {
            if replies.len() == 0 {
                (
                    ScanStepSpec::Issue(seq![idle, ScanOpSpec::QueueReadDr { bits: discard as usize }]),
                    self,
                )
            } else if replies[0].refused() {
                (ScanStepSpec::Done(Seq::empty(), false), self)
            } else if replies.len() == 1 {
                (ScanStepSpec::Issue(seq![ScanOpSpec::QueueReadDr { bits: total as usize }]), self)
            } else if replies[1].refused() {
                (ScanStepSpec::Done(Seq::empty(), false), self.with_reads(self.queued_reads, true))
            } else {
                (
                    ScanStepSpec::Done(Seq::empty(), true),
                    self.with_reads((self.queued_reads + 1) as usize, self.dangling_read),
                )
            }
        } else {
            if replies.len() == 0 {
                (
                    ScanStepSpec::Issue(seq![idle, ScanOpSpec::QueueReadDr { bits: total as usize }]),
                    self,
                )
            } else if replies[0].refused() {
                (ScanStepSpec::Done(Seq::empty(), false), self.with_reads(self.queued_reads, false))
            } else {
                (
                    ScanStepSpec::Done(Seq::empty(), true),
                    self.with_reads((self.queued_reads + 1) as usize, self.dangling_read),
                )
            }
        }
    }

    /// The queued shift of `Taps::queue_dr_read_write`.
    pub open spec fn read_write_op(self, dr: Seq<u8>, bits: int) -> ScanOpSpec {
        let this_len = Self::dr_len(dr, bits);
        ScanOpSpec::QueueReadWriteDr {
            data: padded(dr, this_len, self.active as int),
            last_bits: last_bits(self.active + this_len),
            exit: true,
        }
    }

    /// The step of `Taps::queue_dr_read_write` for the replies received so far, and
    /// the chain afterwards.
    pub open spec fn queue_dr_read_write_step(self, dr: Seq<u8>, bits: int, replies: Seq<ScanReply>) -> (
        ScanStepSpec<bool>,
        TapsModel,
    ) {
        let discard = self.discard_bits();
        let idle = ScanOpSpec::ChangeMode { state: JtagState::Idle };
        let data_op = self.read_write_op(dr, bits);
        if discard > 0 {
            if replies.len() == 0 {
                (ScanStepSpec::Issue(seq![ScanOpSpec::QueueReadDr { bits: discard as usize }]), self)
            } else if replies[0].refused() {
                (ScanStepSpec::Done(Seq::empty(), false), self)
            } else if replies.len() == 1 {
                (ScanStepSpec::Issue(seq![data_op]), self)
            } else if replies[1].refused() {
                (ScanStepSpec::Done(seq![idle], false), self.with_reads(self.queued_reads, true))
            } else {
                (
                    ScanStepSpec::Done(seq![idle], true),
                    self.with_reads((self.queued_reads + 1) as usize, self.dangling_read),
                )
            }
        } else {
            if replies.len() == 0 {
                (ScanStepSpec::Issue(seq![data_op]), self)
            } else if replies[0].refused() {
                (ScanStepSpec::Done(seq![idle], false), self.with_reads(self.queued_reads, false))
            } else {
                (
                    ScanStepSpec::Done(seq![idle], true),
                    self.with_reads((self.queued_reads + 1) as usize, self.dangling_read),
                )
            }
        }
    }

    /// The reads that collect a queued data-register read of `bits` bits: the bypass
    /// bits after the selected tap, then the data with the bypass bits before it.
    pub open spec fn finish_ops(self, bits: int) -> Seq<ScanOpSpec> {
        (if self.discard_bits() > 0 {
            seq![ScanOpSpec::FinishRead { bits: self.discard_bits() as usize }]
        } else {
            Seq::empty()
        }) + seq![ScanOpSpec::FinishRead { bits: (self.active + bits) as usize }]
    }

    /// The step of `Taps::finish_dr_read` for the replies received so far, and the
    /// chain afterwards.
    pub open spec fn finish_dr_read_step(self, bits: int, replies: Seq<ScanReply>) -> (
        ScanStepSpec<Seq<u8>>,
        TapsModel,
    ) {
        if replies.len() == 0 {
            (ScanStepSpec::Issue(self.finish_ops(bits)), self)
        } else {
            let out = trimmed(replies[0].bytes(), self.active as int, bits);
            let queued = (self.queued_reads - 1) as usize;
            if queued == 0 && self.dangling_read {
                (
                    ScanStepSpec::Done(
                        if self.discard_bits() > 0 {
                            seq![ScanOpSpec::FinishRead { bits: self.discard_bits() as usize }]
                        } else {
                            Seq::empty()
                        },
                        out,
                    ),
                    self.with_reads(0, false),
                )
            } else {
                (ScanStepSpec::Done(Seq::empty(), out), self.with_reads(queued, self.dangling_read))
            }
        }
    }

    /// The replies that answer the queueing part of a data-register read.
    pub open spec fn queue_replies(self) -> int {
        if self.discard_bits() > 0 {
            2
        } else {
            1
        }
    }

    /// The step of `Taps::read_dr` for the replies received so far, and the chain
    /// afterwards.
    pub open spec fn read_dr_step(self, bits: int, replies: Seq<ScanReply>) -> (
        ScanStepSpec<Seq<u8>>,
        TapsModel,
    ) {
        let q = self.queue_replies();
        if replies.len() < q {
            let (step, m) = self.queue_dr_read_step(bits, replies);
            (
                match step {
                    ScanStepSpec::Issue(ops) => ScanStepSpec::Issue(ops),
                    ScanStepSpec::Done(ops, _) => ScanStepSpec::Issue(ops),
                },
                m,
            )
        } else {
            let queued = self.queue_dr_read_step(bits, replies.take(q)).1;
            if replies.len() == q {
                (ScanStepSpec::Issue(queued.finish_ops(bits)), self)
            } else {
                queued.finish_dr_read_step(bits, replies.skip(q))
            }
        }
    }

    /// The step of `Taps::read_write_dr` for the replies received so far, and the
    /// chain afterwards.
    pub open spec fn read_write_dr_step(self, dr: Seq<u8>, bits: int, replies: Seq<ScanReply>) -> (
        ScanStepSpec<Seq<u8>>,
        TapsModel,
    ) {
        let q = self.queue_replies();
        let total = Self::dr_len(dr, bits);
        if replies.len() < q {
            let (step, m) = self.queue_dr_read_write_step(dr, bits, replies);
            (
                match step {
                    ScanStepSpec::Issue(ops) => ScanStepSpec::Issue(ops),
                    ScanStepSpec::Done(ops, _) => ScanStepSpec::Issue(ops),
                },
                m,
            )
        } else {
            let queued = self.queue_dr_read_write_step(dr, bits, replies.take(q)).1;
            if replies.len() == q {
                (
                    ScanStepSpec::Issue(
                        seq![ScanOpSpec::ChangeMode { state: JtagState::Idle }] + queued.finish_ops(
                            total,
                        ),
                    ),
                    self,
                )
            } else {
                queued.finish_dr_read_step(total, replies.skip(q))
            }
        }
    }
}

/// Whether the engine refused to queue a read.
fn is_refused(reply: &ScanReply) -> (refused: bool)
    ensures
        refused == reply.refused(),
{
    match reply {
        ScanReply::Queued(ok) => !*ok,
        ScanReply::Data(_) => false,
    }
}

/// A copy of the bytes a read returned.
fn reply_bytes(reply: &ScanReply) -> (bytes: Vec<u8>)
    ensures
        bytes@ == reply.bytes(),
{
    match reply {
        ScanReply::Data(d) => {
            let mut bytes: Vec<u8> = Vec::new();
            let mut i: usize = 0;
            while i < d.len()
                invariant
                    i <= d@.len(),
                    bytes@ == d@.subrange(0, i as int),
                decreases d@.len() - i,
            {
                bytes.push(d[i]);
                i = i + 1;
                assert(bytes@ =~= d@.subrange(0, i as int));
            }
            assert(bytes@ =~= d@);
            bytes
        },
        ScanReply::Queued(_) => Vec::new(),
    }
}

/// The plan of one operation.
fn single(op: ScanOp) -> (ops: Vec<ScanOp>)
    ensures
        ops.deep_view() == seq![op.deep_view()],
{
    let mut ops: Vec<ScanOp> = Vec::new();
    ops.push(op);
    assert(ops.deep_view() =~= seq![op.deep_view()]);
    ops
}

/// The plan of two operations.
fn pair(first: ScanOp, second: ScanOp) -> (ops: Vec<ScanOp>)
    ensures
        ops.deep_view() == seq![first.deep_view(), second.deep_view()],
{
    let mut ops: Vec<ScanOp> = Vec::new();
    ops.push(first);
    ops.push(second);
    assert(ops.deep_view() =~= seq![first.deep_view(), second.deep_view()]);
    ops
}

/// The empty plan.
fn none() -> (ops: Vec<ScanOp>)
    ensures
        ops.deep_view() == Seq::<ScanOpSpec>::empty(),
{
    let ops: Vec<ScanOp> = Vec::new();
    assert(ops.deep_view() =~= Seq::<ScanOpSpec>::empty());
    ops
}

impl Taps {
    /// The decisions of `queue_dr_read` on explicit read bookkeeping.
    fn queue_read_plan(&self, bits: usize, replies: &[ScanReply], queued: usize, dangling: bool) -> (res: (
        ScanStep<bool>,
        usize,
        bool,
    ))
        requires
            self@.active < self@.num_taps,
            self@.active + bits <= usize::MAX,
            queued < usize::MAX,
        ensures
            res.0.deep_view() == self@.with_reads(queued, dangling).queue_dr_read_step(
                bits as int,
                replies@,
            ).0,
            self@.with_reads(res.1, res.2) == self@.with_reads(queued, dangling).queue_dr_read_step(
                bits as int,
                replies@,
            ).1,
    {
        proof {
            use_type_invariant(self);
        }
        let index = self.active_tap.index;
        let pad_bits = index;
        let discard_bits = self.num_taps - index - 1;
        let total_bits = pad_bits + bits;
        let idle = ScanOp::ChangeMode { state: JtagState::Idle };

        // Discard the bypass bits
        if discard_bits > 0 {
            if replies.len() == 0 {
                return (ScanStep::Issue(pair(idle, ScanOp::QueueReadDr { bits: discard_bits })), queued, dangling);
            }
            if is_refused(&replies[0]) {
                return (ScanStep::Done(none(), false), queued, dangling);
            }
            if replies.len() == 1 {
                return (ScanStep::Issue(single(ScanOp::QueueReadDr { bits: total_bits })), queued, dangling);
            }
            if is_refused(&replies[1]) {
                (ScanStep::Done(none(), false), queued, discard_bits > 0)
            } else {
                (ScanStep::Done(none(), true), queued + 1, dangling)
            }
        } else {
            if replies.len() == 0 {
                return (ScanStep::Issue(pair(idle, ScanOp::QueueReadDr { bits: total_bits })), queued, dangling);
            }
            if is_refused(&replies[0]) {
                (ScanStep::Done(none(), false), queued, discard_bits > 0)
            } else {
                (ScanStep::Done(none(), true), queued + 1, dangling)
            }
        }
    }

    /// Queue a read of the data register of the TAP selected by `select_tap`, `bits` bits
    /// long, one step at a time: the result says whether the read was queued.
    pub fn queue_dr_read(&mut self, bits: usize, replies: &[ScanReply]) -> (step: ScanStep<bool>)
        requires
            old(self)@.active < old(self)@.num_taps,
            old(self)@.active + bits <= usize::MAX,
            old(self)@.queued_reads < usize::MAX,
        ensures
            (step.deep_view(), final(self)@) == old(self)@.queue_dr_read_step(bits as int, replies@),
    {
        proof {
            use_type_invariant(&*self);
        }
        let (step, queued, dangling) = self.queue_read_plan(
            bits,
            replies,
            self.queued_reads,
            self.dangling_read,
        );
        self.queued_reads = queued;
        self.dangling_read = dangling;
        step
    }
}

/// The bytes of a data-register read with the bits of `pad` bypass taps removed.
fn trim(raw: Vec<u8>, pad: usize, bits: usize) -> (out: Vec<u8>)
    requires
        bits + 7 <= usize::MAX,
    ensures
        out@ == trimmed(raw@, pad as int, bits as int),
{
    let mut ret = raw;
    // Remove the pad bits
    if pad > 0 {
        let bytes = (bits + 7) / 8;
        // Trim off any extra bytes
        ret.resize(bytes, 0);
        let ghost sized = ret@;
        assert(sized =~= if bytes <= raw@.len() {
            raw@.take(bytes as int)
        } else {
            raw@ + Seq::new((bytes - raw@.len()) as nat, |i: int| 0u8)
        });

        // Mask off high bits
        if bits % 8 != 0 {
            let r = (bits % 8) as u8;
            assert(1u8 << r >= 1) by (bit_vector)
                requires
                    r < 8,
            ;
            let v = ret[bytes - 1] & ((1u8 << r) - 1);
            ret[bytes - 1] = v;
        }
    }
    ret
}

impl Taps {
    /// The decisions of `queue_dr_read_write` on explicit read bookkeeping.
    fn queue_read_write_plan(
        &self,
        dr: &[u8],
        bits: usize,
        replies: &[ScanReply],
        queued: usize,
        dangling: bool,
    ) -> (res: (ScanStep<bool>, usize, bool))
        requires
            self@.active < self@.num_taps,
            dr@.len() >= 1,
            TapsModel::dr_len(dr@, bits as int) + MAX_TAPS + 7 <= usize::MAX,
            queued < usize::MAX,
        ensures
            res.0.deep_view() == self@.with_reads(queued, dangling).queue_dr_read_write_step(
                dr@,
                bits as int,
                replies@,
            ).0,
            self@.with_reads(res.1, res.2) == self@.with_reads(
                queued,
                dangling,
            ).queue_dr_read_write_step(dr@, bits as int, replies@).1,
    {
        proof {
            use_type_invariant(self);
        }
        let index = self.active_tap.index;
        let this_len = (dr.len() - 1) * 8 + bits;
        let pad_bits = index;
        let discard_bits = self.num_taps - index - 1;

        let mut total_bits = (pad_bits + this_len) % 8;
        if total_bits == 0 {
            total_bits = 8;
        }
        let idle = ScanOp::ChangeMode { state: JtagState::Idle };
        if discard_bits > 0 {
            if replies.len() == 0 {
                return (ScanStep::Issue(single(ScanOp::QueueReadDr { bits: discard_bits })), queued, dangling);
            }
            if is_refused(&replies[0]) {
                return (ScanStep::Done(none(), false), queued, dangling);
            }
        }
        let first = if discard_bits > 0 {
            1
        } else {
            0
        };
        if replies.len() == first {
            let data = padded_copy(dr, this_len, pad_bits);
            let op = ScanOp::QueueReadWriteDr { data, last_bits: total_bits as u8, exit: true };
            return (ScanStep::Issue(single(op)), queued, dangling);
        }
        if !is_refused(&replies[first]) {
            (ScanStep::Done(single(idle), true), queued + 1, dangling)
        } else {
            (ScanStep::Done(single(idle), false), queued, discard_bits > 0)
        }
    }

    /// Queue a shift of `dr` through the data register of the TAP selected by `select_tap`
    /// whose output is read later, one step at a time. `bits` indicates how many bits of
    /// the final byte should be written (a value of 8 will write the entire byte). The
    /// result says whether the shift was queued.
    pub fn queue_dr_read_write(&mut self, dr: &[u8], bits: usize, replies: &[ScanReply]) -> (step:
        ScanStep<bool>)
        requires
            old(self)@.active < old(self)@.num_taps,
            dr@.len() >= 1,
            TapsModel::dr_len(dr@, bits as int) + MAX_TAPS + 7 <= usize::MAX,
            old(self)@.queued_reads < usize::MAX,
        ensures
            (step.deep_view(), final(self)@) == old(self)@.queue_dr_read_write_step(
                dr@,
                bits as int,
                replies@,
            ),
    {
        proof {
            use_type_invariant(&*self);
        }
        let (step, queued, dangling) = self.queue_read_write_plan(
            dr,
            bits,
            replies,
            self.queued_reads,
            self.dangling_read,
        );
        self.queued_reads = queued;
        self.dangling_read = dangling;
        step
    }

    /// The decisions of `finish_dr_read` on explicit read bookkeeping.
    fn finish_read_plan(&self, bits: usize, replies: &[ScanReply], queued: usize, dangling: bool) -> (res: (
        ScanStep<Vec<u8>>,
        usize,
        bool,
    ))
        requires
            self@.active < self@.num_taps,
            self@.active + bits + 7 <= usize::MAX,
            queued > 0,
        ensures
            res.0.deep_view() == self@.with_reads(queued, dangling).finish_dr_read_step(
                bits as int,
                replies@,
            ).0,
            self@.with_reads(res.1, res.2) == self@.with_reads(queued, dangling).finish_dr_read_step(
                bits as int,
                replies@,
            ).1,
    {
        proof {
            use_type_invariant(self);
        }
        let index = self.active_tap.index;
        let pad_bits = index;
        let discard_bits = self.num_taps - index - 1;
        let total_bits = pad_bits + bits;

        if replies.len() == 0 {
            // Discard the bypass bits
            let ops = if discard_bits > 0 {
                pair(ScanOp::FinishRead { bits: discard_bits }, ScanOp::FinishRead { bits: total_bits })
            } else {
                single(ScanOp::FinishRead { bits: total_bits })
            };
            assert(ops.deep_view() =~= self@.finish_ops(bits as int));
            return (ScanStep::Issue(ops), queued, dangling);
        }
        let ret = trim(reply_bytes(&replies[0]), pad_bits, bits);
        assert(ret.deep_view() =~= trimmed(replies@[0].bytes(), pad_bits as int, bits as int));

        // Handle the case where we were able to queue the read of the discard bits, but not of the
        // interesting data.
        let queued = queued - 1;
        if queued == 0 && dangling {
            let ops = if discard_bits > 0 {
                single(ScanOp::FinishRead { bits: discard_bits })
            } else {
                none()
            };
            (ScanStep::Done(ops, ret), queued, false)
        } else {
            (ScanStep::Done(none(), ret), queued, dangling)
        }
    }

    /// Collect the oldest queued data-register read, `bits` bits long, one step at a
    /// time: the result is the data with the bypass bits removed.
    pub fn finish_dr_read(&mut self, bits: usize, replies: &[ScanReply]) -> (step: ScanStep<Vec<u8>>)
        requires
            old(self)@.active < old(self)@.num_taps,
            old(self)@.active + bits + 7 <= usize::MAX,
            old(self)@.queued_reads > 0,
        ensures
            (step.deep_view(), final(self)@) == old(self)@.finish_dr_read_step(bits as int, replies@),
    {
        proof {
            use_type_invariant(&*self);
        }
        let (step, queued, dangling) = self.finish_read_plan(
            bits,
            replies,
            self.queued_reads,
            self.dangling_read,
        );
        self.queued_reads = queued;
        self.dangling_read = dangling;
        step
    }
}

impl Taps {
    /// Read the data register of the TAP selected by `select_tap`, one step at a time.
    /// `bits` indicates the length of the data register for the current instruction.
    /// The result is the data with the bypass bits removed.
    pub fn read_dr(&mut self, bits: usize, replies: &[ScanReply]) -> (step: ScanStep<Vec<u8>>)
        requires
            old(self)@.queued_reads == 0,
            old(self)@.active < old(self)@.num_taps,
            old(self)@.active + bits + 7 <= usize::MAX,
            forall|i: int| 0 <= i < replies@.len() ==> !(#[trigger] replies@[i]).refused(),
        ensures
            (step.deep_view(), final(self)@) == old(self)@.read_dr_step(bits as int, replies@),
    {
        proof {
            use_type_invariant(&*self);
        }
        let q: usize = if self.num_taps - self.active_tap.index - 1 > 0 {
            2
        } else {
            1
        };
        if replies.len() < q {
            let (step, _, _) = self.queue_read_plan(bits, replies, self.queued_reads, self.dangling_read);
            return match step {
                ScanStep::Issue(ops) => ScanStep::Issue(ops),
                ScanStep::Done(ops, _) => ScanStep::Issue(ops),
            };
        }
        let head = vstd::slice::slice_subrange(replies, 0, q);
        assert(head@ == replies@.take(q as int));
        let (_, queued, dangling) = self.queue_read_plan(
            bits,
            head,
            self.queued_reads,
            self.dangling_read,
        );
        let tail = vstd::slice::slice_subrange(replies, q, replies.len());
        assert(tail@ == replies@.skip(q as int));
        let (step, queued, dangling) = self.finish_read_plan(bits, tail, queued, dangling);
        if replies.len() == q {
            return step;
        }
        self.queued_reads = queued;
        self.dangling_read = dangling;
        step
    }

    /// Shift `dr` into the data register of the TAP selected by `select_tap`, one step at
    /// a time. `bits` indicates how many bits of the final byte should be written (a value
    /// of 8 will write the entire byte). The result is the bits that were shifted out while
    /// `dr` was shifted in.
    pub fn read_write_dr(&mut self, dr: &[u8], bits: usize, replies: &[ScanReply]) -> (step: ScanStep<
        Vec<u8>,
    >)
        requires
            old(self)@.queued_reads == 0,
            old(self)@.active < old(self)@.num_taps,
            dr@.len() >= 1,
            TapsModel::dr_len(dr@, bits as int) + MAX_TAPS + 7 <= usize::MAX,
            forall|i: int| 0 <= i < replies@.len() ==> !(#[trigger] replies@[i]).refused(),
        ensures
            (step.deep_view(), final(self)@) == old(self)@.read_write_dr_step(
                dr@,
                bits as int,
                replies@,
            ),
    {
        proof {
            use_type_invariant(&*self);
        }
        let q: usize = if self.num_taps - self.active_tap.index - 1 > 0 {
            2
        } else {
            1
        };
        if replies.len() < q {
            let (step, _, _) = self.queue_read_write_plan(
                dr,
                bits,
                replies,
                self.queued_reads,
                self.dangling_read,
            );
            return match step {
                ScanStep::Issue(ops) => ScanStep::Issue(ops),
                ScanStep::Done(ops, _) => ScanStep::Issue(ops),
            };
        }
        let head = vstd::slice::slice_subrange(replies, 0, q);
        assert(head@ == replies@.take(q as int));
        let (_, queued, dangling) = self.queue_read_write_plan(
            dr,
            bits,
            head,
            self.queued_reads,
            self.dangling_read,
        );
        let total_bits = (dr.len() - 1) * 8 + bits;
        let tail = vstd::slice::slice_subrange(replies, q, replies.len());
        assert(tail@ == replies@.skip(q as int));
        let (step, queued, dangling) = self.finish_read_plan(total_bits, tail, queued, dangling);
        match step {
            ScanStep::Issue(finish_ops) => {
                let mut ops = single(ScanOp::ChangeMode { state: JtagState::Idle });
                let ghost idle_ops = ops.deep_view();
                let mut finish_ops = finish_ops;
                let ghost finish_view = finish_ops.deep_view();
                ops.append(&mut finish_ops);
                assert(ops.deep_view() =~= idle_ops + finish_view);
                ScanStep::Issue(ops)
            },
            ScanStep::Done(ops, data) => {
                self.queued_reads = queued;
                self.dangling_read = dangling;
                ScanStep::Done(ops, data)
            },
        }
    }
}

/// The bits an operation shifts into the chain: every bit of each byte of its
/// data but the last, then `last_bits` bits of the last.
pub open spec fn shift_len(op: ScanOpSpec) -> int {
    match op {
        ScanOpSpec::WriteIr { data, last_bits, .. } => (data.len() - 1) * 8 + last_bits,
        ScanOpSpec::WriteDr { data, last_bits, .. } => (data.len() - 1) * 8 + last_bits,
        ScanOpSpec::QueueReadWriteDr { data, last_bits, .. } => (data.len() - 1) * 8 + last_bits,
        _ => 0,
    }
}

/// The bits a plan shifts into the chain.
pub open spec fn shifted_bits(ops: Seq<ScanOpSpec>) -> int
    decreases ops.len(),
{
    if ops.len() == 0 {
        0
    } else {
        shifted_bits(ops.drop_last()) + shift_len(ops.last())
    }
}

proof fn lemma_shifted_bits_append(a: Seq<ScanOpSpec>, b: Seq<ScanOpSpec>)
    ensures
        shifted_bits(a + b) == shifted_bits(a) + shifted_bits(b),
    decreases b.len(),
{
    if b.len() == 0 {
        assert(a + b =~= a);
    } else {
        lemma_shifted_bits_append(a, b.drop_last());
        assert((a + b).drop_last() =~= a + b.drop_last());
    }
}

proof fn lemma_ir_sum_split(lens: Seq<usize>, lo: int, mid: int, hi: int)
    requires
        lo <= mid <= hi,
    ensures
        ir_sum(lens, lo, mid) + ir_sum(lens, mid, hi) == ir_sum(lens, lo, hi),
    decreases hi - mid,
{
    if mid < hi {
        lemma_ir_sum_split(lens, lo, mid, hi - 1);
    }
}

/// Writing a tap's instruction register shifts exactly as many bits as the
/// instruction registers of the whole chain hold: the selected tap's instruction
/// and every other tap's bypass pattern.
pub proof fn lemma_write_ir_shifts_whole_chain(chain: TapsModel, ir: Seq<u8>)
    requires
        chain.ir_lens.len() == MAX_TAPS,
        chain.num_taps <= MAX_TAPS,
        chain.active < chain.num_taps,
        ir.len() == bytes_for(chain.active_ir_len()),
    ensures
        shifted_bits(chain.write_ir_ops(ir)) == chain.chain_ir_len(),
{
    let after = chain.ir_after();
    let before = chain.ir_before();
    let len = chain.active_ir_len();
    let ones = ones_ops(after);
    let tail = seq![
        ScanOpSpec::WriteIr {
            data: padded(ir, len, before),
            last_bits: last_bits(before + len),
            exit: true,
        },
        ScanOpSpec::ChangeMode { state: JtagState::Idle },
    ];
    lemma_shifted_bits_append(ones, tail);
    lemma_ir_sum_split(chain.ir_lens, 0, chain.active as int, chain.num_taps as int);
    lemma_ir_sum_split(chain.ir_lens, chain.active as int, chain.active + 1, chain.num_taps as int);
    assert(after >= 0) by {
        lemma_ir_sum_nonnegative(chain.ir_lens, chain.active + 1, chain.num_taps as int);
    }
    assert(before >= 0) by {
        lemma_ir_sum_nonnegative(chain.ir_lens, 0, chain.active as int);
    }
    // the ones: whole bytes, then the remaining bits
    let whole = if after / 8 > 0 {
        seq![ScanOpSpec::WriteIr { data: Seq::new((after / 8) as nat, |i: int| 0xffu8), last_bits: 8u8, exit: false }]
    } else {
        Seq::<ScanOpSpec>::empty()
    };
    let rest = if after % 8 > 0 {
        seq![ScanOpSpec::WriteIr { data: seq![low_mask((after % 8) as u8)], last_bits: (after % 8) as u8, exit: false }]
    } else {
        Seq::<ScanOpSpec>::empty()
    };
    lemma_shifted_bits_append(whole, rest);
    reveal_with_fuel(shifted_bits, 3);
    assert(shifted_bits(whole) == (after / 8) * 8);
    assert(shifted_bits(rest) == after % 8);
    assert(shifted_bits(tail) == before + len) by {
        assert(tail.drop_last().drop_last() =~= Seq::<ScanOpSpec>::empty());
    }
    assert(ones == whole + rest);
    assert(shifted_bits(ones) == after);
    assert(chain.write_ir_ops(ir) == ones + tail);
    assert(ir_sum(chain.ir_lens, chain.active as int, chain.active as int) == 0);
    assert(ir_sum(chain.ir_lens, chain.active as int, chain.active + 1) == len);
    assert(chain.chain_ir_len() == before + len + after);
}

proof fn lemma_ir_sum_nonnegative(lens: Seq<usize>, lo: int, hi: int)
    ensures
        ir_sum(lens, lo, hi) >= 0,
    decreases hi - lo,
{
    if lo < hi {
        lemma_ir_sum_nonnegative(lens, lo, hi - 1);
    }
}

/// Writing a tap's data register shifts the data bits followed by one bypass bit
/// for each tap before the selected one, when the final byte holds 1 to 8 bits.
pub proof fn lemma_write_dr_shifts_data_and_bypass(chain: TapsModel, dr: Seq<u8>, bits: int)
    requires
        dr.len() >= 1,
        1 <= bits <= 8,
    ensures
        shifted_bits(chain.write_dr_ops(dr, bits)) == TapsModel::dr_len(dr, bits) + chain.active,
{
    let ops = chain.write_dr_ops(dr, bits);
    reveal_with_fuel(shifted_bits, 3);
    assert(ops.drop_last().drop_last() =~= Seq::<ScanOpSpec>::empty());
}

/// `queued_reads` counts the reads queued and not yet finished: a request that
/// queued a read adds one, one that was refused adds none, and a step that is
/// not the last changes nothing.
pub proof fn lemma_queue_bookkeeping(chain: TapsModel, bits: int, dr: Seq<u8>, replies: Seq<ScanReply>)
    requires
        chain.queued_reads < usize::MAX,
    ensures
        ({
            let (step, after) = chain.queue_dr_read_step(bits, replies);
            &&& after.queued_reads == chain.queued_reads + if step is Done && step->Done_1 {
                1int
            } else {
                0int
            }
            &&& step is Issue ==> after == chain
        }),
        ({
            let (step, after) = chain.queue_dr_read_write_step(dr, bits, replies);
            &&& after.queued_reads == chain.queued_reads + if step is Done && step->Done_1 {
                1int
            } else {
                0int
            }
            &&& step is Issue ==> after == chain
        }),
{
}

/// Each finished read takes one off `queued_reads`, a step that is not the last
/// changes nothing, and once the last queued read is finished no bypass read is
/// left dangling.
pub proof fn lemma_finish_bookkeeping(chain: TapsModel, bits: int, replies: Seq<ScanReply>)
    requires
        chain.queued_reads > 0,
    ensures
        ({
            let (step, after) = chain.finish_dr_read_step(bits, replies);
            &&& after.queued_reads == chain.queued_reads - if step is Done {
                1int
            } else {
                0int
            }
            &&& step is Issue ==> after == chain
            &&& (step is Done && after.queued_reads == 0) ==> !after.dangling_read
        }),
{
}

/// A data-register read carried through to its end leaves no read queued.
pub proof fn lemma_read_dr_leaves_nothing_queued(chain: TapsModel, bits: int, replies: Seq<ScanReply>)
    requires
        chain.queued_reads == 0,
        chain.read_dr_step(bits, replies).0 is Done,
        forall|i: int| 0 <= i < replies.len() ==> !(#[trigger] replies[i]).refused(),
    ensures
        chain.read_dr_step(bits, replies).1.queued_reads == 0,
{
}

/// A data-register shift-and-read carried through to its end leaves no read queued.
pub proof fn lemma_read_write_dr_leaves_nothing_queued(
    chain: TapsModel,
    dr: Seq<u8>,
    bits: int,
    replies: Seq<ScanReply>,
)
    requires
        chain.queued_reads == 0,
        chain.read_write_dr_step(dr, bits, replies).0 is Done,
        forall|i: int| 0 <= i < replies.len() ==> !(#[trigger] replies[i]).refused(),
    ensures
        chain.read_write_dr_step(dr, bits, replies).1.queued_reads == 0,
{
}

impl Taps {
    /// How many taps `setup` declared.
    pub fn num_taps(&self) -> (n: usize)
        ensures
            n == self@.num_taps,
    {
        self.num_taps
    }

    /// The selected tap.
    pub fn selected(&self) -> (index: usize)
        ensures
            index == self@.active,
    {
        self.active_tap.index
    }

    /// The instruction-register length of tap slot `tap`.
    pub fn ir_len(&self, tap: usize) -> (len: usize)
        requires
            tap < MAX_TAPS,
        ensures
            len == self@.ir_lens[tap as int],
    {
        self.taps[tap].ir_len
    }

    /// Reads queued and not yet finished.
    pub fn queued_reads(&self) -> (n: usize)
        ensures
            n == self@.queued_reads,
    {
        self.queued_reads
    }
}

/// The data an operation shifts, if it shifts any.
pub open spec fn shift_data(op: ScanOpSpec) -> Seq<u8> {
    match op {
        ScanOpSpec::WriteIr { data, .. } => data,
        ScanOpSpec::WriteDr { data, .. } => data,
        ScanOpSpec::QueueReadWriteDr { data, .. } => data,
        _ => Seq::empty(),
    }
}

/// Whether an operation is a shift that leaves the shift state after its last bit.
pub open spec fn shift_exits(op: ScanOpSpec) -> bool {
    match op {
        ScanOpSpec::WriteIr { exit, .. } => exit,
        ScanOpSpec::WriteDr { exit, .. } => exit,
        ScanOpSpec::QueueReadWriteDr { exit, .. } => exit,
        _ => false,
    }
}

/// Whether an operation is an instruction-register write.
pub open spec fn is_ir_write(op: ScanOpSpec) -> bool {
    op is WriteIr
}

/// The instruction-register bits a plan reads.
pub open spec fn ir_bits_read(ops: Seq<ScanOpSpec>) -> int
    decreases ops.len(),
{
    if ops.len() == 0 {
        0
    } else {
        ir_bits_read(ops.drop_last()) + match ops.last() {
            ScanOpSpec::ReadIr { bits } => bits as int,
            _ => 0,
        }
    }
}

/// A chain of taps as `Taps` holds one: a slot per tap, byte-sized lengths.
pub open spec fn valid_chain(chain: TapsModel) -> bool {
    &&& chain.ir_lens.len() == MAX_TAPS
    &&& chain.num_taps <= MAX_TAPS
    &&& forall|i: int| 0 <= i < MAX_TAPS ==> #[trigger] chain.ir_lens[i] <= 255
}

proof fn lemma_ir_sum_bound(lens: Seq<usize>, lo: int, hi: int)
    requires
        0 <= lo,
        hi <= lens.len(),
        forall|i: int| 0 <= i < lens.len() ==> #[trigger] lens[i] <= 255,
    ensures
        0 <= ir_sum(lens, lo, hi) <= 255 * if hi > lo {
            hi - lo
        } else {
            0
        },
    decreases hi - lo,
{
    if lo < hi {
        lemma_ir_sum_bound(lens, lo, hi - 1);
    }
}

/// A queued data-register shift carries the data followed by exactly one bypass bit
/// for each tap before the selected one, the same bytes a plain data-register write
/// shifts, and leaves Shift-DR after its last bit.
pub proof fn lemma_read_write_op_shifts_data_and_bypass(chain: TapsModel, dr: Seq<u8>, bits: int)
    requires
        dr.len() >= 1,
        1 <= bits <= 8,
    ensures
        shift_len(chain.read_write_op(dr, bits)) == TapsModel::dr_len(dr, bits) + chain.active,
        shift_data(chain.read_write_op(dr, bits)) == shift_data(chain.write_dr_ops(dr, bits)[0]),
        shift_exits(chain.read_write_op(dr, bits)),
{
    lemma_write_dr_shifts_data_and_bypass(chain, dr, bits);
    reveal_with_fuel(shifted_bits, 3);
    let ops = chain.write_dr_ops(dr, bits);
    assert(ops.drop_last().drop_last() =~= Seq::<ScanOpSpec>::empty());
}

/// Reading the selected tap's instruction register first moves to Run-Test/Idle,
/// then reads exactly the instruction-register bits of the selected tap and of every
/// tap after it, the selected tap's own bits last.
pub proof fn lemma_read_ir_reads_rest_of_chain(chain: TapsModel)
    requires
        valid_chain(chain),
        chain.active < chain.num_taps,
    ensures
        chain.read_ir_ops()[0] == (ScanOpSpec::ChangeMode { state: JtagState::Idle }),
        chain.read_ir_ops().last() == (ScanOpSpec::ReadIr { bits: chain.ir_lens[chain.active as int] }),
        ir_bits_read(chain.read_ir_ops()) == chain.chain_ir_len() - chain.ir_before(),
        ir_bits_read(chain.read_ir_ops().drop_last()) == chain.chain_ir_len() - chain.ir_before()
            - chain.active_ir_len(),
{
    let ops = chain.read_ir_ops();
    let after = chain.ir_after();
    lemma_ir_sum_bound(chain.ir_lens, chain.active + 1, chain.num_taps as int);
    lemma_ir_sum_split(chain.ir_lens, 0, chain.active as int, chain.num_taps as int);
    lemma_ir_sum_split(chain.ir_lens, chain.active as int, chain.active + 1, chain.num_taps as int);
    assert(ir_sum(chain.ir_lens, chain.active as int, chain.active as int) == 0);
    assert(ir_sum(chain.ir_lens, chain.active as int, chain.active + 1) == chain.active_ir_len());
    reveal_with_fuel(ir_bits_read, 4);
    if after > 0 {
        assert(ops.drop_last().drop_last().drop_last() =~= Seq::<ScanOpSpec>::empty());
        assert(ops.drop_last() =~= seq![
            ScanOpSpec::ChangeMode { state: JtagState::Idle },
            ScanOpSpec::ReadIr { bits: after as usize },
        ]);
    } else {
        assert(ops.drop_last().drop_last() =~= Seq::<ScanOpSpec>::empty());
        assert(ops.drop_last() =~= seq![ScanOpSpec::ChangeMode { state: JtagState::Idle }]);
    }
}

/// An instruction write is a series of instruction-register shifts ending in
/// Run-Test/Idle, and only its last shift leaves Shift-IR.
pub proof fn lemma_write_ir_exits_once(chain: TapsModel, ir: Seq<u8>)
    ensures
        chain.write_ir_ops(ir).len() >= 2,
        chain.write_ir_ops(ir).last() == (ScanOpSpec::ChangeMode { state: JtagState::Idle }),
        ({
            let ops = chain.write_ir_ops(ir);
            &&& is_ir_write(ops[ops.len() - 2])
            &&& shift_exits(ops[ops.len() - 2])
            &&& forall|i: int|
                0 <= i < ops.len() - 2 ==> is_ir_write(#[trigger] ops[i]) && !shift_exits(ops[i])
        }),
{
    let ops = chain.write_ir_ops(ir);
    let ones = ones_ops(chain.ir_after());
    assert(ones.len() <= 2);
    assert forall|i: int| 0 <= i < ops.len() - 2 implies is_ir_write(#[trigger] ops[i]) && !shift_exits(
        ops[i],
    ) by {
        assert(ops[i] == ones[i]);
    }
}

/// The number of bits shifted from the final byte of a shift operation.
pub open spec fn shift_last_bits(op: ScanOpSpec) -> u8 {
    match op {
        ScanOpSpec::WriteIr { last_bits, .. } => last_bits,
        ScanOpSpec::WriteDr { last_bits, .. } => last_bits,
        ScanOpSpec::QueueReadWriteDr { last_bits, .. } => last_bits,
        _ => 0,
    }
}

/// Every bit a shift carries is one: its whole bytes are all ones and its final
/// byte has its shifted bits set.
pub open spec fn shifts_only_ones(op: ScanOpSpec) -> bool {
    let data = shift_data(op);
    let n = shift_last_bits(op);
    &&& 1 <= n <= 8
    &&& data.len() >= 1
    &&& forall|k: int|
        0 <= k < data.len() ==> #[trigger] data[k] == if k + 1 < data.len() || n == 8 {
            0xffu8
        } else {
            low_mask(n)
        }
}

/// Before the selected tap's instruction, an instruction write shifts only one-bits:
/// the BYPASS instruction of every tap after the selected one.
pub proof fn lemma_write_ir_bypass_shifts_ones(chain: TapsModel, ir: Seq<u8>)
    ensures
        ({
            let ops = chain.write_ir_ops(ir);
            forall|i: int| 0 <= i < ops.len() - 2 ==> shifts_only_ones(#[trigger] ops[i])
        }),
{
    let ops = chain.write_ir_ops(ir);
    let ones = ones_ops(chain.ir_after());
    assert forall|i: int| 0 <= i < ops.len() - 2 implies shifts_only_ones(#[trigger] ops[i]) by {
        assert(ops[i] == ones[i]);
    }
}

/// The data-register bits a plan reads or collects.
pub open spec fn dr_bits_read(ops: Seq<ScanOpSpec>) -> int
    decreases ops.len(),
{
    if ops.len() == 0 {
        0
    } else {
        dr_bits_read(ops.drop_last()) + match ops.last() {
            ScanOpSpec::QueueReadDr { bits } => bits as int,
            ScanOpSpec::FinishRead { bits } => bits as int,
            _ => 0,
        }
    }
}

/// Collecting a queued data-register read of `bits` bits takes every bit of the chain's
/// data registers in bypass: one bit for each tap but the selected one, and its `bits`.
pub proof fn lemma_finish_reads_whole_chain(chain: TapsModel, bits: int)
    requires
        chain.active < chain.num_taps <= MAX_TAPS,
        0 <= bits,
        chain.active + bits <= usize::MAX,
    ensures
        dr_bits_read(chain.finish_ops(bits)) == chain.num_taps - 1 + bits,
        chain.finish_ops(bits).last() == (ScanOpSpec::FinishRead { bits: (chain.active + bits) as usize }),
{
    let ops = chain.finish_ops(bits);
    reveal_with_fuel(dr_bits_read, 3);
    if chain.discard_bits() > 0 {
        assert(ops.drop_last().drop_last() =~= Seq::<ScanOpSpec>::empty());
    } else {
        assert(ops.drop_last() =~= Seq::<ScanOpSpec>::empty());
    }
}

/// Queueing a data-register read of `bits` bits, when the engine accepts every
/// request, first moves to Run-Test/Idle and then queues every bit of the chain's data
/// registers in bypass: one for each tap but the selected one, and its `bits`.
pub proof fn lemma_queue_dr_read_reads_whole_chain(chain: TapsModel, bits: int)
    requires
        chain.active < chain.num_taps <= MAX_TAPS,
        0 <= bits,
        chain.active + bits <= usize::MAX,
    ensures
        ({
            let first = chain.queue_dr_read_step(bits, Seq::empty()).0;
            let second = chain.queue_dr_read_step(bits, seq![ScanReply::Queued(true)]).0;
            &&& first is Issue
            &&& first->Issue_0[0] == (ScanOpSpec::ChangeMode { state: JtagState::Idle })
            &&& chain.discard_bits() > 0 ==> second is Issue
            &&& dr_bits_read(first->Issue_0) + if chain.discard_bits() > 0 {
                dr_bits_read(second->Issue_0)
            } else {
                0
            } == chain.num_taps - 1 + bits
        }),
{
    reveal_with_fuel(dr_bits_read, 3);
    let first = chain.queue_dr_read_step(bits, Seq::empty()).0;
    assert(first->Issue_0.drop_last().drop_last() =~= Seq::<ScanOpSpec>::empty());
    if chain.discard_bits() > 0 {
        let second = chain.queue_dr_read_step(bits, seq![ScanReply::Queued(true)]).0;
        assert(second->Issue_0.drop_last() =~= Seq::<ScanOpSpec>::empty());
    }
}

/// With bypass taps before the selected one, a collected read keeps exactly the
/// first `bits` bits the engine returned (missing bytes read as zero) and clears
/// every bit above them.
pub proof fn lemma_trimmed_keeps_data_bits(raw: Seq<u8>, pad: int, bits: int, i: int, j: u8)
    requires
        pad > 0,
        0 <= bits,
        0 <= i < bytes_for(bits),
        j < 8,
    ensures
        trimmed(raw, pad, bits).len() == bytes_for(bits),
        bit_set(trimmed(raw, pad, bits)[i], j) == (8 * i + j < bits && i < raw.len() && bit_set(
            raw[i],
            j,
        )),
{
    let bytes = bytes_for(bits);
    let r = if bytes <= raw.len() {
        raw.take(bytes)
    } else {
        raw + Seq::new((bytes - raw.len()) as nat, |k: int| 0u8)
    };
    let b = r[i];
    assert(i < raw.len() ==> b == raw[i]);
    if i >= raw.len() {
        assert(b == 0u8);
        assert(!bit_set(0u8, j)) by (bit_vector);
        if bits % 8 != 0 && i == bytes - 1 {
            let m = (bits % 8) as u8;
            assert(!bit_set(0u8 & low_mask(m), j)) by (bit_vector)
                requires
                    m < 8,
            ;
        }
    } else if bits % 8 != 0 && i == bytes - 1 {
        let m = (bits % 8) as u8;
        assert(8 * i + m == bits);
        assert(bit_set(b & low_mask(m), j) == (j < m && bit_set(b, j))) by (bit_vector)
            requires
                0 < m < 8,
                j < 8,
        ;
    } else {
        assert(8 * i + 8 <= bits);
    }
}

/// Queueing a data-register shift, when the engine accepts every request, passes
/// every bit of the chain's data registers in bypass: the bypass bits after the
/// selected tap are read off first, then the data and one bypass bit for each tap
/// before it are shifted through, leaving Shift-DR after the last bit.
pub proof fn lemma_queue_dr_read_write_spans_whole_chain(chain: TapsModel, dr: Seq<u8>, bits: int)
    requires
        chain.active < chain.num_taps <= MAX_TAPS,
        dr.len() >= 1,
        1 <= bits <= 8,
    ensures
        ({
            let first = chain.queue_dr_read_write_step(dr, bits, Seq::empty()).0;
            let second = chain.queue_dr_read_write_step(dr, bits, seq![ScanReply::Queued(true)]).0;
            let shift = if chain.discard_bits() > 0 {
                second->Issue_0.last()
            } else {
                first->Issue_0.last()
            };
            &&& first is Issue
            &&& chain.discard_bits() > 0 ==> second is Issue
            &&& shift is QueueReadWriteDr
            &&& shift_exits(shift)
            &&& (if chain.discard_bits() > 0 {
                dr_bits_read(first->Issue_0)
            } else {
                0
            }) + shift_len(shift) == chain.num_taps - 1 + TapsModel::dr_len(dr, bits)
        }),
{
    lemma_read_write_op_shifts_data_and_bypass(chain, dr, bits);
    reveal_with_fuel(dr_bits_read, 2);
    let first = chain.queue_dr_read_write_step(dr, bits, Seq::empty()).0;
    assert(first->Issue_0.drop_last() =~= Seq::<ScanOpSpec>::empty());
}

} // verus!
