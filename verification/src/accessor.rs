//! Per-variable accessors.
//!
//! A [`PerCpuVar`] is the compile-time descriptor of one declared per-CPU
//! variable: its byte offset within the template image and its size. It
//! composes the base register (for current-CPU access) or the area base
//! table (for remote access) with that offset to reach the variable's live
//! storage on one CPU.
//!
//! Current-CPU operations locate the area through the base register and
//! demand that the register has been pointed at a valid area
//! ([`crate::imp::PerCpu::reg_set`]); in a running kernel that demand is
//! discharged by a scoped preemption guard, which keeps the executing
//! thread on one CPU for the duration of the access. Remote operations
//! take the CPU index explicitly and provide no synchronization at all:
//! exclusive access is the caller's obligation.

use vstd::prelude::*;

verus! {

use crate::codec::le_decode;
use crate::codec::le_encode;
use crate::codec::lemma_le_round_trip;
use crate::codec::spec_le_bytes;
use crate::codec::spec_le_uint;
use crate::imp::align_up_64;
use crate::imp::lemma_align_up_64_props;
use crate::imp::PerCpu;
use vstd::arithmetic::mul::lemma_mul_inequality;
use vstd::arithmetic::mul::lemma_mul_is_distributive_sub_other_way;
use vstd::arithmetic::mul::lemma_mul_nonnegative;
use vstd::arithmetic::power2::pow2;

/// Descriptor of one declared per-CPU variable: its byte offset relative
/// to the per-CPU data area base, and its size in bytes.
pub struct PerCpuVar {
    pub offset: usize,
    pub size: usize,
}

impl PerCpuVar {
    /// The variable lies inside the template image and is not empty.
    pub open spec fn fits(self, p: PerCpu) -> bool {
        &&& 0 < self.size
        &&& self.offset + self.size <= p.spec_area_size()
    }

    /// The live bytes of this variable on CPU `cpu_id`.
    pub open spec fn bytes_on(self, p: PerCpu, cpu_id: int) -> Seq<u8> {
        p.area_view(cpu_id).subrange(self.offset as int, self.offset + self.size)
    }

    /// Creates the descriptor of a variable of `size` bytes placed `offset`
    /// bytes into the template image.
    pub fn new(offset: usize, size: usize) -> (v: PerCpuVar)
        ensures
            v.offset == offset,
            v.size == size,
    {
        PerCpuVar { offset, size }
    }

    /// Returns the offset relative to the per-CPU data area base.
    pub fn offset(&self) -> (r: usize)
        ensures
            r == self.offset,
    {
        self.offset
    }
}

/// The byte range of a valid area lies inside the live storage.
proof fn lemma_area_in_storage(p: PerCpu, c: int)
    requires
        p.wf(),
        p.inited,
        0 <= c < p.spec_area_num(),
    ensures
        0 <= c * p.spec_stride(),
        c * p.spec_stride() + p.spec_area_size() <= (c + 1) * p.spec_stride(),
        (c + 1) * p.spec_stride() <= p.storage@.len(),
        p.storage@.len() <= usize::MAX,
{
    let stride = p.spec_stride();
    p.lemma_areas_fit();
    lemma_align_up_64_props(p.template@.len());
    lemma_mul_nonnegative(c, stride);
    assert((c + 1) * stride == c * stride + stride) by {
        lemma_mul_is_distributive_sub_other_way(stride, c + 1, 1);
    }
    lemma_mul_inequality(c + 1, p.spec_area_num(), stride);
}

/// The byte ranges of two distinct areas do not overlap: the lower area
/// ends at or before the stride boundary where the higher one starts.
proof fn lemma_areas_disjoint(p: PerCpu, c1: int, c2: int)
    requires
        p.wf(),
        0 <= c1,
        0 <= c2,
        c1 < c2,
    ensures
        c1 * p.spec_stride() + p.spec_stride() <= c2 * p.spec_stride(),
{
    let stride = p.spec_stride();
    lemma_align_up_64_props(p.template@.len());
    assert((c1 + 1) * stride == c1 * stride + stride) by {
        lemma_mul_is_distributive_sub_other_way(stride, c1 + 1, 1);
    }
    lemma_mul_inequality(c1 + 1, c2, stride);
}

/// Copies the `size` bytes at `offset` within area `c` out of the live
/// storage.
fn read_slot(p: &PerCpu, c: usize, offset: usize, size: usize) -> (r: Vec<u8>)
    requires
        p.wf(),
        p.inited,
        c < p.spec_area_num(),
        0 < size,
        offset + size <= p.spec_area_size(),
    ensures
        r@ == p.area_view(c as int).subrange(offset as int, offset + size),
        r@.len() == size,
{
    proof {
        lemma_area_in_storage(*p, c as int);
        lemma_align_up_64_props(p.template@.len());
    }
    let stride = align_up_64(p.template.len());
    let start = c * stride + offset;
    let mut r: Vec<u8> = Vec::new();
    let mut k: usize = 0;
    while k < size
        invariant
            k <= size,
            p.wf(),
            p.inited,
            c < p.spec_area_num(),
            0 < size,
            offset + size <= p.spec_area_size(),
            stride == p.spec_stride(),
            start == c * p.spec_stride() + offset,
            start + size <= p.storage@.len(),
            p.storage@.len() <= usize::MAX,
            r@.len() == k,
            forall|t: int| 0 <= t < k ==> #[trigger] r@[t] == p.storage@[start + t],
        decreases size - k,
    {
        r.push(p.storage[start + k]);
        k = k + 1;
    }
    proof {
        assert(r@ =~= p.area_view(c as int).subrange(offset as int, offset + size));
    }
    r
}

/// Overwrites the `size` bytes at `offset` within area `c` of the live
/// storage with `val`, leaving every other byte of every area unchanged.
fn write_slot(p: &mut PerCpu, c: usize, offset: usize, size: usize, val: &Vec<u8>)
    requires
        old(p).wf(),
        old(p).inited,
        c < old(p).spec_area_num(),
        0 < size,
        offset + size <= old(p).spec_area_size(),
        val@.len() == size,
    ensures
        final(p).wf(),
        final(p).inited,
        final(p).template == old(p).template,
        final(p).base == old(p).base,
        final(p).reserved_size == old(p).reserved_size,
        final(p).reg == old(p).reg,
        final(p).storage@.len() == old(p).storage@.len(),
        final(p).area_view(c as int).subrange(offset as int, offset + size) == val@,
        forall|j: int|
            0 <= j < final(p).spec_area_size() && !(offset <= j < offset + size)
                ==> #[trigger] final(p).area_view(c as int)[j] == old(p).area_view(c as int)[j],
        forall|c2: int|
            0 <= c2 < final(p).spec_area_num() && c2 != c ==> #[trigger] final(p).area_view(c2)
                == old(p).area_view(c2),
{
    proof {
        lemma_area_in_storage(*p, c as int);
        lemma_align_up_64_props(p.template@.len());
    }
    let stride = align_up_64(p.template.len());
    let start = c * stride + offset;
    let ghost p0 = *p;
    let mut k: usize = 0;
    while k < size
        invariant
            k <= size,
            val@.len() == size,
            0 < size,
            offset + size <= p0.spec_area_size(),
            c < p0.spec_area_num(),
            p0.wf(),
            p0.inited,
            stride == p0.spec_stride(),
            start == c * p0.spec_stride() + offset,
            start + size <= p0.storage@.len(),
            p0.storage@.len() <= usize::MAX,
            p.template == p0.template,
            p.base == p0.base,
            p.reserved_size == p0.reserved_size,
            p.reg == p0.reg,
            p.inited == p0.inited,
            p.storage@.len() == p0.storage@.len(),
            forall|t: int|
                0 <= t < p0.storage@.len() && !(start <= t < start + k)
                    ==> #[trigger] p.storage@[t] == p0.storage@[t],
            forall|t: int|
                start <= t < start + k ==> #[trigger] p.storage@[t] == val@[t - start],
        decreases size - k,
    {
        let b = val[k];
        p.storage[start + k] = b;
        k = k + 1;
    }
    proof {
        let size_a = p0.spec_area_size();
        lemma_area_in_storage(p0, c as int);
        assert(p.area_view(c as int).subrange(offset as int, offset + size) =~= val@);
        assert forall|j: int|
            0 <= j < size_a && !(offset <= j < offset + size) implies #[trigger] p.area_view(
            c as int,
        )[j] == p0.area_view(c as int)[j] by {}
        assert forall|c2: int| 0 <= c2 < p0.spec_area_num() && c2 != c implies #[trigger] p.area_view(
            c2,
        ) == p0.area_view(c2) by {
            lemma_area_in_storage(p0, c2);
            if c2 < c {
                lemma_areas_disjoint(p0, c2, c as int);
            } else {
                lemma_areas_disjoint(p0, c as int, c2);
            }
            assert(p.area_view(c2) =~= p0.area_view(c2));
        }
    }
}

impl PerCpuVar {
    /// Returns the address of this variable on the current CPU: the base
    /// register's value plus the variable's offset.
    ///
    /// Meaningful only while the base register points at a valid area and,
    /// on real hardware, while the executing thread cannot migrate to
    /// another CPU mid-use.
    pub fn current_ptr(&self, p: &PerCpu) -> (addr: usize)
        requires
            p.wf(),
            p.reg_set(),
            self.fits(*p),
        ensures
            addr == p.reg + self.offset,
            addr == p.spec_area_base(p.spec_cur_cpu()) + self.offset,
    {
        proof {
            let c = choose|c: int| p.reg_on(c);
            p.lemma_reg_on_cur(c);
            p.lemma_areas_fit();
            lemma_align_up_64_props(p.template@.len());
        }
        p.reg + self.offset
    }

    /// Returns the address of this variable on the given CPU: the area
    /// base of CPU `cpu_id` plus the variable's offset.
    ///
    /// The caller must guarantee on its own that no conflicting access to
    /// the addressed storage is in flight: remote addressing carries no
    /// synchronization.
    pub fn remote_ptr(&self, p: &PerCpu, cpu_id: usize) -> (addr: usize)
        requires
            p.wf(),
            cpu_id < p.spec_area_num(),
            self.fits(*p),
        ensures
            addr == p.spec_area_base(cpu_id as int) + self.offset,
    {
        proof {
            p.lemma_areas_fit();
            lemma_align_up_64_props(p.template@.len());
        }
        p.percpu_area_base(cpu_id) + self.offset
    }

    /// Reads the live bytes of this variable on the current CPU.
    pub fn read_current_bytes(&self, p: &PerCpu) -> (r: Vec<u8>)
        requires
            p.wf(),
            p.inited,
            p.reg_set(),
            self.fits(*p),
        ensures
            r@ == self.bytes_on(*p, p.spec_cur_cpu()),
            r@.len() == self.size,
    {
        let c = self.locate_current(p);
        read_slot(p, c, self.offset, self.size)
    }

    /// Overwrites the live bytes of this variable on the current CPU.
    /// No byte of any other variable, and no byte of any other CPU's
    /// area, changes.
    pub fn write_current_bytes(&self, p: &mut PerCpu, val: &Vec<u8>)
        requires
            old(p).wf(),
            old(p).inited,
            old(p).reg_set(),
            self.fits(*old(p)),
            val@.len() == self.size,
        ensures
            final(p).wf(),
            final(p).inited,
            final(p).template == old(p).template,
            final(p).base == old(p).base,
            final(p).reserved_size == old(p).reserved_size,
            final(p).reg == old(p).reg,
            final(p).reg_set(),
            final(p).spec_cur_cpu() == old(p).spec_cur_cpu(),
            self.bytes_on(*final(p), old(p).spec_cur_cpu()) == val@,
            forall|j: int|
                0 <= j < final(p).spec_area_size() && !(self.offset <= j < self.offset
                    + self.size) ==> #[trigger] final(p).area_view(old(p).spec_cur_cpu())[j]
                    == old(p).area_view(old(p).spec_cur_cpu())[j],
            forall|c: int|
                0 <= c < final(p).spec_area_num() && c != old(p).spec_cur_cpu()
                    ==> #[trigger] final(p).area_view(c) == old(p).area_view(c),
    {
        let c = self.locate_current(p);
        write_slot(p, c, self.offset, self.size, val);
        proof {
            let cw = choose|cw: int| old(p).reg_on(cw);
            assert(p.reg_on(cw));
        }
    }

    /// Reads the live bytes of this variable on the given CPU.
    pub fn read_remote_bytes(&self, p: &PerCpu, cpu_id: usize) -> (r: Vec<u8>)
        requires
            p.wf(),
            p.inited,
            cpu_id < p.spec_area_num(),
            self.fits(*p),
        ensures
            r@ == self.bytes_on(*p, cpu_id as int),
            r@.len() == self.size,
    {
        read_slot(p, cpu_id, self.offset, self.size)
    }

    /// Overwrites the live bytes of this variable on the given CPU. No
    /// byte of any other variable, and no byte of any other CPU's area,
    /// changes.
    pub fn write_remote_bytes(&self, p: &mut PerCpu, cpu_id: usize, val: &Vec<u8>)
        requires
            old(p).wf(),
            old(p).inited,
            cpu_id < old(p).spec_area_num(),
            self.fits(*old(p)),
            val@.len() == self.size,
        ensures
            final(p).wf(),
            final(p).inited,
            final(p).template == old(p).template,
            final(p).base == old(p).base,
            final(p).reserved_size == old(p).reserved_size,
            final(p).reg == old(p).reg,
            self.bytes_on(*final(p), cpu_id as int) == val@,
            forall|j: int|
                0 <= j < final(p).spec_area_size() && !(self.offset <= j < self.offset
                    + self.size) ==> #[trigger] final(p).area_view(cpu_id as int)[j]
                    == old(p).area_view(cpu_id as int)[j],
            forall|c: int|
                0 <= c < final(p).spec_area_num() && c != cpu_id
                    ==> #[trigger] final(p).area_view(c) == old(p).area_view(c),
    {
        write_slot(p, cpu_id, self.offset, self.size, val);
    }

    /// Computes the index of the CPU whose area the base register points
    /// at.
    fn locate_current(&self, p: &PerCpu) -> (c: usize)
        requires
            p.wf(),
            p.reg_set(),
        ensures
            c == p.spec_cur_cpu(),
            c < p.spec_area_num(),
    {
        proof {
            let cw = choose|cw: int| p.reg_on(cw);
            p.lemma_reg_on_cur(cw);
            lemma_mul_nonnegative(cw, p.spec_stride());
            lemma_align_up_64_props(p.template@.len());
        }
        let stride = align_up_64(p.template.len());
        (p.reg - p.base) / stride
    }
}

impl PerCpuVar {
    /// Returns the value of this primitive per-CPU variable on the
    /// current CPU, decoded from its little-endian byte image.
    pub fn read_current(&self, p: &PerCpu) -> (val: u64)
        requires
            p.wf(),
            p.inited,
            p.reg_set(),
            self.fits(*p),
            self.size <= 8,
        ensures
            val as nat == spec_le_uint(self.bytes_on(*p, p.spec_cur_cpu())),
    {
        let bytes = self.read_current_bytes(p);
        le_decode(&bytes)
    }

    /// Sets the value of this primitive per-CPU variable on the current
    /// CPU to the little-endian image of `val`'s low bytes. A value that
    /// fits the variable reads back unchanged; no other variable and no
    /// other CPU's area changes.
    pub fn write_current(&self, p: &mut PerCpu, val: u64)
        requires
            old(p).wf(),
            old(p).inited,
            old(p).reg_set(),
            self.fits(*old(p)),
            self.size <= 8,
        ensures
            final(p).wf(),
            final(p).inited,
            final(p).template == old(p).template,
            final(p).base == old(p).base,
            final(p).reserved_size == old(p).reserved_size,
            final(p).reg == old(p).reg,
            final(p).reg_set(),
            final(p).spec_cur_cpu() == old(p).spec_cur_cpu(),
            self.bytes_on(*final(p), old(p).spec_cur_cpu()) == spec_le_bytes(
                val as nat,
                self.size as nat,
            ),
            val < pow2(8 * self.size as nat) ==> spec_le_uint(
                self.bytes_on(*final(p), old(p).spec_cur_cpu()),
            ) == val,
            forall|j: int|
                0 <= j < final(p).spec_area_size() && !(self.offset <= j < self.offset
                    + self.size) ==> #[trigger] final(p).area_view(old(p).spec_cur_cpu())[j]
                    == old(p).area_view(old(p).spec_cur_cpu())[j],
            forall|c: int|
                0 <= c < final(p).spec_area_num() && c != old(p).spec_cur_cpu()
                    ==> #[trigger] final(p).area_view(c) == old(p).area_view(c),
    {
        let bytes = le_encode(val, self.size);
        self.write_current_bytes(p, &bytes);
        proof {
            if val < pow2(8 * self.size as nat) {
                lemma_le_round_trip(val as nat, self.size as nat);
            }
        }
    }

    /// Returns the value of this boolean per-CPU variable on the current
    /// CPU: its one live byte, read as `!= 0`.
    pub fn read_current_bool(&self, p: &PerCpu) -> (val: bool)
        requires
            p.wf(),
            p.inited,
            p.reg_set(),
            self.fits(*p),
            self.size == 1,
        ensures
            val == (self.bytes_on(*p, p.spec_cur_cpu())[0] != 0),
    {
        let bytes = self.read_current_bytes(p);
        bytes[0] != 0
    }

    /// Sets the value of this boolean per-CPU variable on the current CPU,
    /// storing one byte, 1 for `true` and 0 for `false`.
    pub fn write_current_bool(&self, p: &mut PerCpu, val: bool)
        requires
            old(p).wf(),
            old(p).inited,
            old(p).reg_set(),
            self.fits(*old(p)),
            self.size == 1,
        ensures
            final(p).wf(),
            final(p).inited,
            final(p).template == old(p).template,
            final(p).base == old(p).base,
            final(p).reserved_size == old(p).reserved_size,
            final(p).reg == old(p).reg,
            final(p).reg_set(),
            final(p).spec_cur_cpu() == old(p).spec_cur_cpu(),
            self.bytes_on(*final(p), old(p).spec_cur_cpu()) == seq![
                if val {
                    1u8
                } else {
                    0u8
                },
            ],
            (self.bytes_on(*final(p), old(p).spec_cur_cpu())[0] != 0) == val,
            forall|j: int|
                0 <= j < final(p).spec_area_size() && !(self.offset <= j < self.offset
                    + self.size) ==> #[trigger] final(p).area_view(old(p).spec_cur_cpu())[j]
                    == old(p).area_view(old(p).spec_cur_cpu())[j],
            forall|c: int|
                0 <= c < final(p).spec_area_num() && c != old(p).spec_cur_cpu()
                    ==> #[trigger] final(p).area_view(c) == old(p).area_view(c),
    {
        let mut bytes: Vec<u8> = Vec::new();
        bytes.push(if val { 1u8 } else { 0u8 });
        proof {
            assert(bytes@ =~= seq![if val { 1u8 } else { 0u8 }]);
        }
        self.write_current_bytes(p, &bytes);
    }

    /// Returns the value of this primitive per-CPU variable on the given
    /// CPU, decoded from its little-endian byte image.
    pub fn read_remote(&self, p: &PerCpu, cpu_id: usize) -> (val: u64)
        requires
            p.wf(),
            p.inited,
            cpu_id < p.spec_area_num(),
            self.fits(*p),
            self.size <= 8,
        ensures
            val as nat == spec_le_uint(self.bytes_on(*p, cpu_id as int)),
    {
        let bytes = self.read_remote_bytes(p, cpu_id);
        le_decode(&bytes)
    }

    /// Sets the value of this primitive per-CPU variable on the given CPU
    /// to the little-endian image of `val`'s low bytes. A value that fits
    /// the variable is then what a read performed on that CPU returns; no
    /// other variable and no other CPU's area changes.
    pub fn write_remote(&self, p: &mut PerCpu, cpu_id: usize, val: u64)
        requires
            old(p).wf(),
            old(p).inited,
            cpu_id < old(p).spec_area_num(),
            self.fits(*old(p)),
            self.size <= 8,
        ensures
            final(p).wf(),
            final(p).inited,
            final(p).template == old(p).template,
            final(p).base == old(p).base,
            final(p).reserved_size == old(p).reserved_size,
            final(p).reg == old(p).reg,
            self.bytes_on(*final(p), cpu_id as int) == spec_le_bytes(
                val as nat,
                self.size as nat,
            ),
            val < pow2(8 * self.size as nat) ==> spec_le_uint(
                self.bytes_on(*final(p), cpu_id as int),
            ) == val,
            forall|j: int|
                0 <= j < final(p).spec_area_size() && !(self.offset <= j < self.offset
                    + self.size) ==> #[trigger] final(p).area_view(cpu_id as int)[j]
                    == old(p).area_view(cpu_id as int)[j],
            forall|c: int|
                0 <= c < final(p).spec_area_num() && c != cpu_id
                    ==> #[trigger] final(p).area_view(c) == old(p).area_view(c),
    {
        let bytes = le_encode(val, self.size);
        self.write_remote_bytes(p, cpu_id, &bytes);
        proof {
            if val < pow2(8 * self.size as nat) {
                lemma_le_round_trip(val as nat, self.size as nat);
            }
        }
    }

    /// Returns the value of this boolean per-CPU variable on the given
    /// CPU.
    pub fn read_remote_bool(&self, p: &PerCpu, cpu_id: usize) -> (val: bool)
        requires
            p.wf(),
            p.inited,
            cpu_id < p.spec_area_num(),
            self.fits(*p),
            self.size == 1,
        ensures
            val == (self.bytes_on(*p, cpu_id as int)[0] != 0),
    {
        let bytes = self.read_remote_bytes(p, cpu_id);
        bytes[0] != 0
    }

    /// Sets the value of this boolean per-CPU variable on the given CPU.
    pub fn write_remote_bool(&self, p: &mut PerCpu, cpu_id: usize, val: bool)
        requires
            old(p).wf(),
            old(p).inited,
            cpu_id < old(p).spec_area_num(),
            self.fits(*old(p)),
            self.size == 1,
        ensures
            final(p).wf(),
            final(p).inited,
            final(p).template == old(p).template,
            final(p).base == old(p).base,
            final(p).reserved_size == old(p).reserved_size,
            final(p).reg == old(p).reg,
            self.bytes_on(*final(p), cpu_id as int) == seq![
                if val {
                    1u8
                } else {
                    0u8
                },
            ],
            (self.bytes_on(*final(p), cpu_id as int)[0] != 0) == val,
            forall|j: int|
                0 <= j < final(p).spec_area_size() && !(self.offset <= j < self.offset
                    + self.size) ==> #[trigger] final(p).area_view(cpu_id as int)[j]
                    == old(p).area_view(cpu_id as int)[j],
            forall|c: int|
                0 <= c < final(p).spec_area_num() && c != cpu_id
                    ==> #[trigger] final(p).area_view(c) == old(p).area_view(c),
    {
        let mut bytes: Vec<u8> = Vec::new();
        bytes.push(if val { 1u8 } else { 0u8 });
        self.write_remote_bytes(p, cpu_id, &bytes);
    }
}

impl PerCpuVar {
    /// Manipulates this variable's live bytes on the current CPU in the
    /// given closure: the closure receives the current bytes and returns
    /// the bytes to store, which must keep the variable's size. This is
    /// the access path for structured variable types, which have no
    /// specialized read/write operations.
    pub fn with_current<F: FnOnce(Vec<u8>) -> Vec<u8>>(&self, p: &mut PerCpu, f: F)
        requires
            old(p).wf(),
            old(p).inited,
            old(p).reg_set(),
            self.fits(*old(p)),
            forall|bytes: Vec<u8>|
                bytes@ == self.bytes_on(*old(p), old(p).spec_cur_cpu()) ==> call_requires(
                    f,
                    (bytes,),
                ),
            forall|bytes: Vec<u8>, out: Vec<u8>|
                call_ensures(f, (bytes,), out) ==> out@.len() == self.size,
        ensures
            final(p).wf(),
            final(p).inited,
            final(p).template == old(p).template,
            final(p).base == old(p).base,
            final(p).reserved_size == old(p).reserved_size,
            final(p).reg == old(p).reg,
            final(p).reg_set(),
            final(p).spec_cur_cpu() == old(p).spec_cur_cpu(),
            exists|bytes: Vec<u8>, out: Vec<u8>|
                {
                    &&& bytes@ == self.bytes_on(*old(p), old(p).spec_cur_cpu())
                    &&& #[trigger] call_ensures(f, (bytes,), out)
                    &&& self.bytes_on(*final(p), old(p).spec_cur_cpu()) == out@
                },
            forall|j: int|
                0 <= j < final(p).spec_area_size() && !(self.offset <= j < self.offset
                    + self.size) ==> #[trigger] final(p).area_view(old(p).spec_cur_cpu())[j]
                    == old(p).area_view(old(p).spec_cur_cpu())[j],
            forall|c: int|
                0 <= c < final(p).spec_area_num() && c != old(p).spec_cur_cpu()
                    ==> #[trigger] final(p).area_view(c) == old(p).area_view(c),
    {
        let bytes = self.read_current_bytes(p);
        let out = f(bytes);
        self.write_current_bytes(p, &out);
    }
}

/// Remote visibility: while the base register points at CPU `c`'s area
/// and this variable's live bytes on `c` hold the image of a value `x`
/// that fits it - as they do after `write_remote(c, x)` with no later
/// write - a current-CPU read decodes exactly `x`.
pub proof fn lemma_remote_visibility(p: PerCpu, v: PerCpuVar, c: int, x: u64)
    requires
        p.wf(),
        v.fits(p),
        v.size <= 8,
        p.reg_on(c),
        v.bytes_on(p, c) == spec_le_bytes(x as nat, v.size as nat),
        x < pow2(8 * v.size as nat),
    ensures
        spec_le_uint(v.bytes_on(p, p.spec_cur_cpu())) == x,
{
    p.lemma_reg_on_cur(c);
    lemma_le_round_trip(x as nat, v.size as nat);
}

} // verus!
