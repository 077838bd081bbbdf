use vstd::prelude::*;

verus! {

/// Size of a physical frame: 4 KiB.
pub const FRAME_SIZE: u64 = 4096;

/// A physical frame, by number.
#[derive(Clone, Copy, Debug, PartialEq, Eq, Structural)]
pub struct PhysFrame(pub u64);

impl PhysFrame {
    /// The frame that contains physical address `addr`.
    pub fn containing_address(addr: u64) -> (r: PhysFrame)
        ensures
            r.0 == addr / FRAME_SIZE,
            r.0 * FRAME_SIZE <= addr < (r.0 + 1) * FRAME_SIZE,
    {
        PhysFrame(addr / FRAME_SIZE)
    }

    /// The first physical address of the frame.
    pub fn start_address(&self) -> (r: u64)
        requires
            self.0 <= u64::MAX / FRAME_SIZE,
        ensures
            r == self.0 * FRAME_SIZE,
    {
        self.0 * FRAME_SIZE
    }
}

/// `addr` rounded up to a multiple of `align`, a power of two: the
/// smallest address at or above `addr` whose bits below `align` are clear.
pub fn align_up(addr: u64, align: u64) -> (r: u64)
    requires
        align > 0,
        align & ((align - 1) as u64) == 0,
        addr <= u64::MAX - (align - 1),
    ensures
        r & ((align - 1) as u64) == 0,
        addr <= r,
        r <= addr + (align - 1),
{
    let mask = align - 1;
    let bumped = addr + mask;
    let r = bumped & !mask;
    assert(r & mask == 0) by (bit_vector)
        requires
            r == bumped & !mask,
    ;
    assert(r <= bumped) by (bit_vector)
        requires
            r == bumped & !mask,
    ;
    assert(bumped - r <= mask) by (bit_vector)
        requires
            r == bumped & !mask,
    ;
    r
}

} // verus!
