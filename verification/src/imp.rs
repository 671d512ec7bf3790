//! Area layout and one-time initialization of the per-CPU data areas.
//!
//! The whole subsystem state is modeled explicitly by [`PerCpu`]: the
//! template image assembled at build time, the reserved region that holds
//! one area per CPU, the live storage of all areas, the run-once
//! initialization flag, and the per-CPU base register of the executing
//! hardware thread.

use vstd::prelude::*;

verus! {

use vstd::arithmetic::div_mod::lemma_fundamental_div_mod;
use vstd::arithmetic::div_mod::lemma_fundamental_div_mod_converse_div;
use vstd::arithmetic::div_mod::lemma_mod_division_less_than_divisor;
use vstd::arithmetic::mul::lemma_mul_inequality;
use vstd::arithmetic::mul::lemma_mul_is_distributive_sub_other_way;

/// Area stride rounding: the least multiple of 64 that is at least `v`.
/// Adjacent areas are separated by a cache-line-sized stride to avoid
/// false sharing.
pub open spec fn spec_align_up_64(v: nat) -> nat {
    ((v + 63) / 64) * 64
}

/// Basic bounds of the stride rounding.
pub proof fn lemma_align_up_64_props(v: nat)
    ensures
        v <= spec_align_up_64(v) < v + 64,
        spec_align_up_64(v) % 64 == 0,
{
    let q = (v + 63) as int / 64;
    lemma_fundamental_div_mod((v + 63) as int, 64);
    lemma_mod_division_less_than_divisor((v + 63) as int, 64);
    assert(spec_align_up_64(v) == q * 64);
    assert(q * 64 % 64 == 0) by {
        lemma_fundamental_div_mod_converse_div(q * 64, 64, q, 0);
    }
}

/// Rounds `val` up to the next multiple of 64.
pub fn align_up_64(val: usize) -> (r: usize)
    requires
        val <= usize::MAX - 63,
    ensures
        r == spec_align_up_64(val as nat),
        val <= r < val + 64,
        r % 64 == 0,
{
    let t: usize = val + 0x3f;
    proof {
        assert(t & !0x3fusize == (t / 0x40) * 0x40) by (bit_vector);
        lemma_align_up_64_props(val as nat);
    }
    t & !0x3fusize
}

/// The per-CPU storage subsystem.
///
/// `template` is the build-time template image holding the initial value of
/// every declared variable; `base` and `reserved_size` delimit the region
/// reserved for the areas, one boundary-marker pair each; `storage` holds the
/// live areas once `init` has replicated the template (area `c` occupies the
/// stride-aligned slot `c` of `storage`); `inited` is the process-wide
/// run-once flag; and `reg` models the architecture's per-CPU base register
/// for the executing hardware thread.
pub struct PerCpu {
    pub template: Vec<u8>,
    pub base: usize,
    pub reserved_size: usize,
    pub storage: Vec<u8>,
    pub inited: bool,
    pub reg: usize,
}

impl PerCpu {
    /// Size in bytes of one per-CPU data area (the template image size).
    pub open spec fn spec_area_size(self) -> int {
        self.template@.len() as int
    }

    /// Distance in bytes between the bases of two adjacent areas.
    pub open spec fn spec_stride(self) -> int {
        spec_align_up_64(self.template@.len()) as int
    }

    /// Number of per-CPU data areas the reserved region holds.
    pub open spec fn spec_area_num(self) -> int {
        self.reserved_size as int / self.spec_stride()
    }

    /// Base address of the area belonging to CPU `cpu_id`.
    pub open spec fn spec_area_base(self, cpu_id: int) -> int {
        self.base + cpu_id * self.spec_stride()
    }

    /// The live bytes of CPU `cpu_id`'s area.
    pub open spec fn area_view(self, cpu_id: int) -> Seq<u8> {
        self.storage@.subrange(
            cpu_id * self.spec_stride(),
            cpu_id * self.spec_stride() + self.spec_area_size(),
        )
    }

    /// The base register holds the base address of CPU `cpu_id`'s area.
    pub open spec fn reg_on(self, cpu_id: int) -> bool {
        &&& 0 <= cpu_id < self.spec_area_num()
        &&& self.reg == self.spec_area_base(cpu_id)
    }

    /// The base register has been pointed at some valid area.
    pub open spec fn reg_set(self) -> bool {
        exists|c: int| self.reg_on(c)
    }

    /// Index of the CPU whose area the base register points at.
    pub open spec fn spec_cur_cpu(self) -> int {
        (self.reg - self.base) / self.spec_stride()
    }

    /// Well-formedness: the boundary markers are consistent (at least one
    /// declared variable, room for at least one area, addresses that fit the
    /// machine word), and the live storage covers exactly the areas once
    /// initialization has run.
    pub open spec fn wf(self) -> bool {
        &&& 0 < self.template@.len()
        &&& self.template@.len() + 63 <= usize::MAX
        &&& self.spec_stride() <= self.reserved_size
        &&& self.base + self.reserved_size <= usize::MAX
        &&& self.storage@.len() == if self.inited {
            self.spec_area_num() * self.spec_stride()
        } else {
            0
        }
    }

    /// Every area lies inside the reserved region, and the areas exist:
    /// the layout check that a misconfigured build would trip at first
    /// `init` is here discharged once and for all.
    pub proof fn lemma_areas_fit(self)
        requires
            self.wf(),
        ensures
            1 <= self.spec_area_num(),
            self.spec_area_num() * self.spec_stride() <= self.reserved_size,
            forall|c: int|
                0 <= c < self.spec_area_num() ==> #[trigger] self.spec_area_base(c)
                    + self.spec_stride() <= self.base + self.reserved_size,
    {
        let stride = self.spec_stride();
        let num = self.spec_area_num();
        lemma_align_up_64_props(self.template@.len());
        lemma_fundamental_div_mod(self.reserved_size as int, stride);
        lemma_mod_division_less_than_divisor(self.reserved_size as int, stride);
        assert(num * stride <= self.reserved_size);
        assert(1 * stride <= self.reserved_size);
        lemma_fundamental_div_mod_converse_div(1 * stride, stride, 1, 0);
        assert(num >= 1) by {
            assert(self.reserved_size as int / stride >= stride as int / stride) by {
                vstd::arithmetic::div_mod::lemma_div_is_ordered(
                    stride,
                    self.reserved_size as int,
                    stride,
                );
            }
        }
        assert forall|c: int| 0 <= c < num implies #[trigger] self.spec_area_base(c) + stride
            <= self.base + self.reserved_size by {
            lemma_mul_inequality(c + 1, num, stride);
            lemma_mul_is_distributive_sub_other_way(stride, c + 1, 1);
        }
    }

    /// The bases of any two valid areas differ by exactly the index
    /// difference times the area stride.
    pub proof fn lemma_area_base_stride(self, c1: int, c2: int)
        requires
            self.wf(),
            0 <= c1 < self.spec_area_num(),
            0 <= c2 < self.spec_area_num(),
        ensures
            self.spec_area_base(c2) - self.spec_area_base(c1) == (c2 - c1) * self.spec_stride(),
    {
        lemma_mul_is_distributive_sub_other_way(self.spec_stride(), c2, c1);
    }

    /// The base register determines the current CPU uniquely.
    pub proof fn lemma_reg_on_cur(self, c: int)
        requires
            self.wf(),
            self.reg_on(c),
        ensures
            self.spec_cur_cpu() == c,
    {
        lemma_align_up_64_props(self.template@.len());
        assert(self.reg - self.base == c * self.spec_stride());
        lemma_fundamental_div_mod_converse_div(c * self.spec_stride(), self.spec_stride(), c, 0);
    }

    /// Builds the subsystem state from the build- and link-time facts: the
    /// template image and the two boundary markers (`base` and
    /// `reserved_size`) of the region reserved for the areas. The region
    /// must hold at least one stride-aligned area; the areas themselves are
    /// not created until [`PerCpu::init`] runs.
    pub fn new(template: Vec<u8>, base: usize, reserved_size: usize) -> (p: PerCpu)
        requires
            0 < template@.len(),
            template@.len() + 63 <= usize::MAX,
            spec_align_up_64(template@.len()) <= reserved_size,
            base + reserved_size <= usize::MAX,
        ensures
            p.wf(),
            !p.inited,
            p.template == template,
            p.base == base,
            p.reserved_size == reserved_size,
            p.reg == 0,
    {
        PerCpu { template, base, reserved_size, storage: Vec::new(), inited: false, reg: 0 }
    }

    /// Returns the per-CPU data area size for one CPU.
    pub fn percpu_area_size(&self) -> (size: usize)
        ensures
            size == self.spec_area_size(),
    {
        self.template.len()
    }

    /// Returns the number of per-CPU data areas reserved.
    pub fn percpu_area_num(&self) -> (num: usize)
        requires
            self.wf(),
        ensures
            num == self.spec_area_num(),
            num >= 1,
    {
        proof {
            self.lemma_areas_fit();
        }
        self.reserved_size / align_up_64(self.template.len())
    }

    /// Returns the base address of the per-CPU data area on the given CPU.
    ///
    /// If `cpu_id` is 0, it returns the base address of all per-CPU data
    /// areas.
    pub fn percpu_area_base(&self, cpu_id: usize) -> (addr: usize)
        requires
            self.wf(),
            cpu_id < self.spec_area_num(),
        ensures
            addr == self.spec_area_base(cpu_id as int),
            addr + self.spec_area_size() <= self.base + self.reserved_size,
    {
        proof {
            self.lemma_areas_fit();
            lemma_align_up_64_props(self.template@.len());
            lemma_mul_inequality(cpu_id as int, self.spec_area_num() - 1, self.spec_stride());
            lemma_mul_is_distributive_sub_other_way(self.spec_stride(), self.spec_area_num(), 1);
        }
        self.base + cpu_id * align_up_64(self.template.len())
    }

    /// Reads the architecture-specific per-CPU data register.
    ///
    /// This register is used to hold the per-CPU data base on each CPU.
    pub fn read_percpu_reg(&self) -> (tp: usize)
        ensures
            tp == self.reg,
    {
        self.reg
    }

    /// Writes the architecture-specific per-CPU data register.
    ///
    /// The caller is responsible for pointing it at a valid area base:
    /// current-CPU accessors demand `reg_set`, which only a valid base
    /// establishes.
    pub fn write_percpu_reg(&mut self, tp: usize)
        ensures
            final(self).reg == tp,
            *final(self) == (PerCpu { reg: tp, ..*old(self) }),
    {
        self.reg = tp;
    }

    /// Initializes the per-CPU data register: points it at the base address
    /// of the per-CPU data area of CPU `cpu_id`, so that current-CPU
    /// accessors executed afterwards operate on that area.
    pub fn init_percpu_reg(&mut self, cpu_id: usize)
        requires
            old(self).wf(),
            cpu_id < old(self).spec_area_num(),
        ensures
            *final(self) == (PerCpu { reg: old(self).spec_area_base(cpu_id as int) as usize, ..*old(self) }),
            final(self).reg_on(cpu_id as int),
            final(self).spec_cur_cpu() == cpu_id as int,
            final(self).wf(),
    {
        let tp = self.percpu_area_base(cpu_id);
        self.write_percpu_reg(tp);
        proof {
            self.lemma_reg_on_cur(cpu_id as int);
        }
    }

    /// Initialize all per-CPU data areas.
    ///
    /// The number of areas is the total reserved section size divided by the
    /// stride `align_up_64(area size)`. Each area is filled with a
    /// byte-for-byte copy of the template image; the bytes between the end
    /// of an area and the next stride boundary are zeroed.
    ///
    /// Returns the number of areas initialized. If this function has been
    /// called before, it does nothing and returns 0.
    pub fn init(&mut self) -> (num: usize)
        requires
            old(self).wf(),
        ensures
            final(self).wf(),
            final(self).inited,
            final(self).template == old(self).template,
            final(self).base == old(self).base,
            final(self).reserved_size == old(self).reserved_size,
            final(self).reg == old(self).reg,
            old(self).inited ==> num == 0 && *final(self) == *old(self),
            !old(self).inited ==> num == old(self).spec_area_num() && num >= 1,
            !old(self).inited ==> forall|c: int|
                0 <= c < old(self).spec_area_num() ==> final(self).area_view(c)
                    == old(self).template@,
    {
        if self.inited {
            return 0;
        }
        let size = self.template.len();
        let stride = align_up_64(size);
        let num = self.reserved_size / stride;
        proof {
            self.lemma_areas_fit();
        }
        let total = num * stride;
        let mut storage: Vec<u8> = Vec::new();
        let mut j: usize = 0;
        while j < total
            invariant
                j <= total,
                total == num * stride,
                num == self.spec_area_num(),
                stride == self.spec_stride(),
                size == self.spec_area_size(),
                size <= stride,
                storage@.len() == j,
                forall|t: int|
                    0 <= t < j ==> #[trigger] storage@[t] == (if t % (stride as int) < size {
                        self.template@[t % (stride as int)]
                    } else {
                        0u8
                    }),
            decreases total - j,
        {
            let r = j % stride;
            if r < size {
                storage.push(self.template[r]);
            } else {
                storage.push(0u8);
            }
            j = j + 1;
        }
        proof {
            self.lemma_replicated(storage@, num as int, stride as int);
        }
        self.storage = storage;
        self.inited = true;
        num
    }

    /// A flat byte region whose every stride slot repeats the template
    /// pointwise carries the template as every area's contents.
    proof fn lemma_replicated(self, s: Seq<u8>, num: int, stride: int)
        requires
            self.wf(),
            num == self.spec_area_num(),
            stride == self.spec_stride(),
            s.len() == num * stride,
            forall|t: int|
                0 <= t < s.len() ==> #[trigger] s[t] == (if t % stride < self.spec_area_size() {
                    self.template@[t % stride]
                } else {
                    0u8
                }),
        ensures
            forall|c: int|
                0 <= c < num ==> #[trigger] s.subrange(
                    c * stride,
                    c * stride + self.spec_area_size(),
                ) == self.template@,
    {
        let size = self.spec_area_size();
        lemma_align_up_64_props(self.template@.len());
        assert forall|c: int| 0 <= c < num implies #[trigger] s.subrange(
            c * stride,
            c * stride + size,
        ) == self.template@ by {
            lemma_mul_inequality(c + 1, num, stride);
            lemma_mul_is_distributive_sub_other_way(stride, c + 1, 1);
            assert((c + 1) * stride - 1 * stride == c * stride);
            assert(c * stride + size <= s.len());
            assert(c * stride >= 0) by {
                vstd::arithmetic::mul::lemma_mul_nonnegative(c, stride);
            }
            let sub = s.subrange(c * stride, c * stride + size);
            assert forall|k: int| 0 <= k < size implies sub[k] == self.template@[k] by {
                vstd::arithmetic::div_mod::lemma_mod_multiples_vanish(c, k, stride);
                vstd::arithmetic::div_mod::lemma_small_mod(k as nat, stride as nat);
                assert((c * stride + k) % stride == k);
            }
            assert(sub =~= self.template@);
        }
    }
}

} // verus!
