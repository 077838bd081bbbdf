use vstd::prelude::*;

verus! {

/// Port that selects a configuration register.
pub const CONFIG_ADDRESS_PORT: u16 = 0xCF8;

/// Port through which the selected register is read.
pub const CONFIG_DATA_PORT: u16 = 0xCFC;

/// Register holding the vendor and device identifiers.
pub const ID_REGISTER: u32 = 0x00;

/// Register holding the command and status words.
pub const COMMAND_STATUS_REGISTER: u32 = 0x04;

/// Register holding the class code, subclass, interface and revision.
pub const CLASS_REGISTER: u32 = 0x0A;

/// Register holding the header type.
pub const HEADER_TYPE_REGISTER: u32 = 0x0C;

/// Register of the first base address register.
pub const FIRST_BAR_REGISTER: u32 = 0x10;

/// Number of slots on a bus.
pub const SLOTS_PER_BUS: u8 = 32;

/// Number of functions of a device.
pub const FUNCTIONS_PER_SLOT: u8 = 8;

/// One function of a device on the PCI bus.
#[derive(Clone, Copy, Debug, PartialEq, Eq, Structural)]
pub struct PciDevice {
    pub bus: u8,
    pub slot: u8,
    pub func: u8,
}

/// The configuration address of register `reg_offset` of function `func`
/// of slot `slot` on bus `bus`: bit 31 set, the bus in bits 24..31, the
/// slot (5 bits) from bit 16, the function (3 bits) from bit 12, and the
/// register offset (12 bits) in bits 0..11.
pub open spec fn config_address(bus: u8, slot: u8, func: u8, reg_offset: u32) -> int {
    0x80000000int + ((bus as int) % 0x80) * 0x1000000 + ((slot as int) % 0x20) * 0x10000 + ((
    func as int) % 0x8) * 0x1000 + (reg_offset as int) % 0x1000
}

/// Builds the value written to the address port to select a register.
pub fn make_config_address(bus: u8, slot: u8, func: u8, reg_offset: u32) -> (r: u32)
    ensures
        r == config_address(bus, slot, func, reg_offset),
{
    let mut address: u32 = 0;
    address = address | (1u32 << 31u32);
    address = address | (((bus as u32) & 0xFF) << 24u32);
    address = address | (((slot as u32) & 0x1F) << 16u32);
    address = address | (((func as u32) & 0x7) << 12u32);
    address = address | (reg_offset & 0xFFF);
    let b = bus as u32;
    let s = slot as u32;
    let f = func as u32;
    assert(b < 0x100 && s < 0x100 && f < 0x100);
    assert((((((0u32 | (1u32 << 31u32)) | ((b & 0xFF) << 24u32)) | ((s & 0x1F) << 16u32)) | ((f
        & 0x7) << 12u32)) | (reg_offset & 0xFFF)) == 0x80000000u32 + (b % 0x80) * 0x1000000 + (s
        % 0x20) * 0x10000 + (f % 0x8) * 0x1000 + reg_offset % 0x1000) by (bit_vector)
        requires
            b < 0x100,
            s < 0x100,
            f < 0x100,
    ;
    address
}

impl PciDevice {
    /// The configuration address of register `reg_offset` of this function.
    pub fn register_address(&self, reg_offset: u32) -> (r: u32)
        ensures
            r == config_address(self.bus, self.slot, self.func, reg_offset),
    {
        make_config_address(self.bus, self.slot, self.func, reg_offset)
    }
}

/// A function answers when its identifier register is neither all ones in
/// the low half nor zero.
pub open spec fn present(id_register: u32) -> bool {
    id_register != 0xFFFF && id_register != 0
}

/// Bit 7 of the header type marks a multi-function device.
pub open spec fn multi_function(header_register: u32) -> bool {
    (header_register / 0x80) % 2 == 1
}

/// Whether the identifier register read from a function shows a device.
pub fn is_device_present(id_register: Option<u32>) -> (r: bool)
    ensures
        r == (id_register matches Some(v) && present(v)),
{
    match id_register {
        Some(vid) => vid != 0xFFFF && vid != 0,
        None => false,
    }
}

/// Whether the header type register read from a function marks a
/// multi-function device (an unread register counts as zero).
pub fn is_multi_function_device(header_register: Option<u32>) -> (r: bool)
    ensures
        r == (header_register matches Some(v) && multi_function(v)),
{
    let header_type = match header_register {
        Some(v) => v,
        None => 0,
    };
    assert((header_type & 0x80) != 0 <==> (header_type / 0x80) % 2 == 1) by (bit_vector);
    (header_type & 0x80) != 0
}

/// Bits 16..31 of the identifier register, as this kernel reads the vendor.
pub fn get_vendor_id(id_register: Option<u32>) -> (r: Option<u16>)
    ensures
        r == (match id_register {
            Some(v) => Some((v / 0x10000) as u16),
            None => None,
        }),
{
    match id_register {
        Some(v) => {
            assert(v >> 16u32 == v / 0x10000 && v >> 16u32 < 0x10000) by (bit_vector);
            Some((v >> 16u32) as u16)
        },
        None => None,
    }
}

/// Bits 0..15 of the identifier register.
pub fn get_device_id(id_register: Option<u32>) -> (r: Option<u16>)
    ensures
        r == (match id_register {
            Some(v) => Some((v % 0x10000) as u16),
            None => None,
        }),
{
    match id_register {
        Some(v) => {
            assert(v as u16 == v % 0x10000) by (bit_vector);
            Some(v as u16)
        },
        None => None,
    }
}

/// Bits 16..23 of the class register.
pub fn get_class_code(class_register: Option<u32>) -> (r: Option<u8>)
    ensures
        r == (match class_register {
            Some(v) => Some(((v / 0x10000) % 0x100) as u8),
            None => None,
        }),
{
    match class_register {
        Some(v) => {
            assert((v >> 16u32) as u8 == (v / 0x10000) % 0x100) by (bit_vector);
            Some((v >> 16u32) as u8)
        },
        None => None,
    }
}

/// Bits 8..15 of the class register.
pub fn get_subclass_code(class_register: Option<u32>) -> (r: Option<u8>)
    ensures
        r == (match class_register {
            Some(v) => Some(((v / 0x100) % 0x100) as u8),
            None => None,
        }),
{
    match class_register {
        Some(v) => {
            assert((v >> 8u32) as u8 == (v / 0x100) % 0x100) by (bit_vector);
            Some((v >> 8u32) as u8)
        },
        None => None,
    }
}

/// Bits 16..23 of the class register, as this kernel reads the interface.
pub fn get_programming_interface(class_register: Option<u32>) -> (r: Option<u8>)
    ensures
        r == (match class_register {
            Some(v) => Some(((v / 0x10000) % 0x100) as u8),
            None => None,
        }),
{
    match class_register {
        Some(v) => {
            assert((v >> 16u32) as u8 == (v / 0x10000) % 0x100) by (bit_vector);
            Some((v >> 16u32) as u8)
        },
        None => None,
    }
}

/// Bits 24..31 of the class register.
pub fn get_revision_id(class_register: Option<u32>) -> (r: Option<u8>)
    ensures
        r == (match class_register {
            Some(v) => Some((v / 0x1000000) as u8),
            None => None,
        }),
{
    match class_register {
        Some(v) => {
            assert(v >> 24u32 == v / 0x1000000 && v >> 24u32 < 0x100) by (bit_vector);
            Some((v >> 24u32) as u8)
        },
        None => None,
    }
}

/// The register of base address register `bar_index`; there are six.
pub fn bar_register(bar_index: usize) -> (r: Option<u32>)
    ensures
        bar_index > 5 ==> r.is_none(),
        bar_index <= 5 ==> r == Some((FIRST_BAR_REGISTER + 4 * bar_index) as u32),
{
    if bar_index > 5 {
        return None;
    }
    Some(FIRST_BAR_REGISTER + 4 * (bar_index as u32))
}

/// The base address held in a base address register: its low four flag
/// bits cleared.
pub fn get_bar(bar_register_value: Option<u32>) -> (r: Option<u64>)
    ensures
        r == (match bar_register_value {
            Some(v) => Some((v - v % 16) as u64),
            None => None,
        }),
{
    match bar_register_value {
        Some(val) => {
            assert(val & !0xFu32 == val - val % 16) by (bit_vector);
            Some((val & !0xFu32) as u64)
        },
        None => None,
    }
}

/// Bits 0..15 of the command/status register.
pub fn get_command_register(command_status: Option<u32>) -> (r: Option<u16>)
    ensures
        r == (match command_status {
            Some(v) => Some((v % 0x10000) as u16),
            None => None,
        }),
{
    match command_status {
        Some(v) => {
            assert(v as u16 == v % 0x10000) by (bit_vector);
            Some(v as u16)
        },
        None => None,
    }
}

/// Bits 16..31 of the command/status register.
pub fn get_status_register(command_status: Option<u32>) -> (r: Option<u16>)
    ensures
        r == (match command_status {
            Some(v) => Some((v / 0x10000) as u16),
            None => None,
        }),
{
    match command_status {
        Some(v) => {
            assert(v >> 16u32 == v / 0x10000 && v >> 16u32 < 0x10000) by (bit_vector);
            Some((v >> 16u32) as u16)
        },
        None => None,
    }
}

/// Function `f` of `slot` is found by a scan: it answers, and every
/// function before it answers and is multi-function. Registers are indexed
/// by `slot * 8 + function`.
pub open spec fn listed(ids: Seq<u32>, headers: Seq<u32>, slot: int, f: int) -> bool {
    &&& present(ids[slot * 8 + f])
    &&& forall|g: int|
        0 <= g < f ==> present(#[trigger] ids[slot * 8 + g]) && multi_function(headers[slot * 8 + g])
}

/// The functions among the first `f` of `slot` that a scan finds, in order.
pub open spec fn slot_devices(bus: u8, ids: Seq<u32>, headers: Seq<u32>, slot: int, f: int) -> Seq<
    PciDevice,
>
    decreases f,
{
    if f <= 0 {
        Seq::empty()
    } else if listed(ids, headers, slot, f - 1) {
        slot_devices(bus, ids, headers, slot, f - 1).push(
            PciDevice { bus, slot: slot as u8, func: (f - 1) as u8 },
        )
    } else {
        slot_devices(bus, ids, headers, slot, f - 1)
    }
}

/// The functions a scan finds on the first `n` slots of bus `bus`, in slot
/// and function order.
pub open spec fn bus_devices(bus: u8, ids: Seq<u32>, headers: Seq<u32>, n: int) -> Seq<PciDevice>
    decreases n,
{
    if n <= 0 {
        Seq::empty()
    } else {
        bus_devices(bus, ids, headers, n - 1) + slot_devices(bus, ids, headers, n - 1, 8)
    }
}

/// Lists the functions present on bus `bus`, given the identifier and
/// header type registers of its 32 slots times 8 functions, indexed by
/// `slot * 8 + function`. On each slot the scan stops at the first function
/// that does not answer or that is not multi-function.
pub fn enumerate_bus(bus: u8, id_registers: &Vec<u32>, header_registers: &Vec<u32>) -> (r: Vec<
    PciDevice,
>)
    requires
        id_registers@.len() == 256,
        header_registers@.len() == 256,
    ensures
        r@ == bus_devices(bus, id_registers@, header_registers@, 32),
{
    let ghost ids = id_registers@;
    let ghost headers = header_registers@;
    let mut devices: Vec<PciDevice> = Vec::new();
    let mut slot: u8 = 0;
    while slot < SLOTS_PER_BUS
        invariant
            slot <= 32,
            devices@ == bus_devices(bus, ids, headers, slot as int),
            ids == id_registers@,
            headers == header_registers@,
            ids.len() == 256,
            headers.len() == 256,
        decreases 32 - slot,
    {
        let ghost before = devices@;
        let mut func: u8 = 0;
        let mut going = true;
        while func < FUNCTIONS_PER_SLOT
            invariant
                slot < 32,
                func <= 8,
                devices@ == before + slot_devices(bus, ids, headers, slot as int, func as int),
                going == forall|g: int|
                    0 <= g < func ==> present(#[trigger] ids[slot * 8 + g]) && multi_function(
                        headers[slot * 8 + g],
                    ),
                ids == id_registers@,
                headers == header_registers@,
                ids.len() == 256,
                headers.len() == 256,
            decreases 8 - func,
        {
            let k = (slot as usize) * 8 + (func as usize);
            let here = is_device_present(Some(id_registers[k]));
            if going && here {
                devices.push(PciDevice { bus, slot, func });
            }
            let multi = is_multi_function_device(Some(header_registers[k]));
            proof {
                assert(going == forall|g: int|
                    0 <= g < func ==> present(#[trigger] ids[slot * 8 + g]) && multi_function(
                        headers[slot * 8 + g],
                    ));
                if going && here {
                    assert(listed(ids, headers, slot as int, func as int));
                } else {
                    assert(!listed(ids, headers, slot as int, func as int));
                }
            }
            assert(devices@ == before + slot_devices(bus, ids, headers, slot as int, func + 1));
            going = going && here && multi;
            func = func + 1;
            assert(going == forall|g: int|
                0 <= g < func ==> present(#[trigger] ids[slot * 8 + g]) && multi_function(
                    headers[slot * 8 + g],
                )) by {
                if !going {
                    if !here || !multi {
                        let g0 = func - 1;
                        assert(!(present(ids[slot * 8 + g0]) && multi_function(headers[slot * 8 + g0])));
                    }
                }
            }
        }
        slot = slot + 1;
    }
    devices
}

} // verus!
