use vstd::prelude::*;

verus! {

/// Selector of the kernel code segment.
pub const KERNEL_CODE_SELECTOR: u16 = 0x08;

/// Selector of the kernel data segment.
pub const KERNEL_DATA_SELECTOR: u16 = 0x10;

/// Selector of the user code segment, requested privilege level 3.
pub const USER_CODE_SELECTOR: u16 = 0x1B;

/// Selector of the user data segment, requested privilege level 3.
pub const USER_DATA_SELECTOR: u16 = 0x23;

/// Selector of the task state segment descriptor.
pub const TSS_SELECTOR: u16 = 0x28;

/// Access byte of a present, available 64-bit task state segment.
pub const TSS_AVAILABLE_ACCESS: u8 = 0x89;

/// Size in bytes of the 64-bit task state segment.
pub const TSS_SIZE: u16 = 104;

/// An 8-byte segment descriptor.
#[derive(Clone, Copy, Debug, PartialEq, Eq, Structural)]
pub struct GdtEntry {
    pub limit_low: u16,
    pub base_low: u16,
    pub base_middle: u8,
    pub access: u8,
    pub granularity: u8,
    pub base_high: u8,
}

impl GdtEntry {
    /// The null descriptor: every byte zero.
    pub fn null() -> (r: GdtEntry)
        ensures
            r.limit_low == 0 && r.base_low == 0 && r.base_middle == 0,
            r.access == 0 && r.granularity == 0 && r.base_high == 0,
    {
        GdtEntry { limit_low: 0, base_low: 0, base_middle: 0, access: 0, granularity: 0, base_high: 0 }
    }

    /// A descriptor for the segment at `base` with the 20-bit `limit`: the
    /// base is split over three fields, the limit's low 16 bits go to
    /// `limit_low` and its bits 16..19 to the low nibble of `granularity`,
    /// whose high nibble holds the high nibble of the `granularity` flags.
    pub fn new(base: u32, limit: u32, access: u8, granularity: u8) -> (r: GdtEntry)
        ensures
            r.limit_low == limit % 0x10000,
            r.base_low == base % 0x10000,
            r.base_middle == (base / 0x10000) % 0x100,
            r.base_high == base / 0x1000000,
            r.access == access,
            r.granularity == (limit / 0x10000) % 0x10 + (granularity / 0x10) * 0x10,
    {
        assert((limit & 0xFFFF) as u16 == limit % 0x10000) by (bit_vector);
        assert((base & 0xFFFF) as u16 == base % 0x10000) by (bit_vector);
        assert(((base >> 16u32) & 0xFF) as u8 == (base / 0x10000) % 0x100) by (bit_vector);
        assert(((base >> 24u32) & 0xFF) as u8 == base / 0x1000000) by (bit_vector);
        assert((((limit >> 16u32) & 0x0F) as u8 | (granularity & 0xF0)) == (limit / 0x10000) % 0x10
            + (granularity / 0x10) * 0x10) by (bit_vector);
        GdtEntry {
            limit_low: (limit & 0xFFFF) as u16,
            base_low: (base & 0xFFFF) as u16,
            base_middle: ((base >> 16) & 0xFF) as u8,
            access,
            granularity: ((limit >> 16) & 0x0F) as u8 | (granularity & 0xF0),
            base_high: ((base >> 24) & 0xFF) as u8,
        }
    }
}

/// A 16-byte system segment descriptor, as used for the task state segment
/// in long mode.
#[derive(Clone, Copy, Debug, PartialEq, Eq, Structural)]
pub struct SystemSegmentDescriptor {
    pub limit_low: u16,
    pub base_low: u16,
    pub base_middle: u8,
    pub access: u8,
    pub granularity: u8,
    pub base_high: u8,
    pub base_upper: u32,
    pub reserved: u32,
}

impl SystemSegmentDescriptor {
    /// The null descriptor: every byte zero.
    pub fn null() -> (r: SystemSegmentDescriptor)
        ensures
            r.limit_low == 0 && r.base_low == 0 && r.base_middle == 0 && r.access == 0,
            r.granularity == 0 && r.base_high == 0 && r.base_upper == 0 && r.reserved == 0,
    {
        SystemSegmentDescriptor {
            limit_low: 0,
            base_low: 0,
            base_middle: 0,
            access: 0,
            granularity: 0,
            base_high: 0,
            base_upper: 0,
            reserved: 0,
        }
    }

    /// A present, available 64-bit task state segment descriptor for the
    /// segment at `base` with the 20-bit `limit`.
    pub fn new_tss(base: u64, limit: u32) -> (r: SystemSegmentDescriptor)
        ensures
            r.limit_low == limit % 0x10000,
            r.base_low == base % 0x10000,
            r.base_middle == (base / 0x10000) % 0x100,
            r.access == TSS_AVAILABLE_ACCESS,
            r.granularity == (limit / 0x10000) % 0x10,
            r.base_high == (base / 0x1000000) % 0x100,
            r.base_upper == base / 0x100000000,
            r.reserved == 0,
    {
        assert((limit & 0xFFFF) as u16 == limit % 0x10000) by (bit_vector);
        assert((base & 0xFFFF) as u16 == base % 0x10000) by (bit_vector);
        assert(((base >> 16u64) & 0xFF) as u8 == (base / 0x10000) % 0x100) by (bit_vector);
        assert(((limit >> 16u32) & 0x0F) as u8 == (limit / 0x10000) % 0x10) by (bit_vector);
        assert(((base >> 24u64) & 0xFF) as u8 == (base / 0x1000000) % 0x100) by (bit_vector);
        assert((base >> 32u64) as u32 == base / 0x100000000) by (bit_vector);
        SystemSegmentDescriptor {
            limit_low: (limit & 0xFFFF) as u16,
            base_low: (base & 0xFFFF) as u16,
            base_middle: ((base >> 16) & 0xFF) as u8,
            access: TSS_AVAILABLE_ACCESS,
            granularity: ((limit >> 16) & 0x0F) as u8,
            base_high: ((base >> 24) & 0xFF) as u8,
            base_upper: (base >> 32) as u32,
            reserved: 0,
        }
    }
}

/// The 64-bit task state segment: the stacks switched to on privilege
/// change and through the interrupt stack table.
#[derive(Clone, Copy, Debug, PartialEq, Eq, Structural)]
pub struct TaskStateSegment {
    pub reserved_1: u32,
    pub rsp0: u64,
    pub rsp1: u64,
    pub rsp2: u64,
    pub reserved_2: u64,
    pub ist1: u64,
    pub ist2: u64,
    pub ist3: u64,
    pub ist4: u64,
    pub ist5: u64,
    pub ist6: u64,
    pub ist7: u64,
    pub reserved_3: u64,
    pub reserved_4: u16,
    /// Offset of the I/O permission bitmap.
    pub iomap_base: u16,
}

impl TaskStateSegment {
    /// A segment with every stack pointer zero and the I/O bitmap offset
    /// just past the segment, meaning no bitmap.
    pub fn new() -> (r: TaskStateSegment)
        ensures
            r.rsp0 == 0 && r.rsp1 == 0 && r.rsp2 == 0,
            r.ist1 == 0 && r.ist2 == 0 && r.ist3 == 0 && r.ist4 == 0,
            r.ist5 == 0 && r.ist6 == 0 && r.ist7 == 0,
            r.reserved_1 == 0 && r.reserved_2 == 0 && r.reserved_3 == 0 && r.reserved_4 == 0,
            r.iomap_base == TSS_SIZE,
    {
        TaskStateSegment {
            reserved_1: 0,
            rsp0: 0,
            rsp1: 0,
            rsp2: 0,
            reserved_2: 0,
            ist1: 0,
            ist2: 0,
            ist3: 0,
            ist4: 0,
            ist5: 0,
            ist6: 0,
            ist7: 0,
            reserved_3: 0,
            reserved_4: 0,
            iomap_base: TSS_SIZE,
        }
    }
}

/// Operand of the descriptor-table load: size minus one, and address.
#[derive(Clone, Copy, Debug, PartialEq, Eq, Structural)]
pub struct GdtPointer {
    pub limit: u16,
    pub base: u64,
}

} // verus!
