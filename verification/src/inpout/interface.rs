//! The functions of the port driver and the requests they take.
//!
//! A request is a packed block of little-endian numbers: the port and, for
//! a write, the value; or, for physical memory, the section, the size, the
//! physical address and the mapped address, each 64 bits wide for the
//! 64-bit driver and 32 bits wide for the 32-bit one.

use vstd::prelude::*;
use crate::winapi::ioctl::{control_code, DeviceAccess, Ioctl, Method};

verus! {

#[derive(Clone, Copy, Debug, PartialEq, Eq, Structural)]
pub enum Func {
    ReadPortByte,
    WritePortByte,
    ReadPortWord,
    WritePortWord,
    ReadPortDword,
    WritePortDword,
    MapPhysicalMemory,
    UnmapPhysicalMemory,
}

/// The device type of the port driver.
pub const INPOUT_DEVICE_TYPE: u32 = 40_000;

/// The number of a function of the driver.
pub open spec fn func_number(func: Func) -> u32 {
    match func {
        Func::ReadPortByte => 1,
        Func::WritePortByte => 2,
        Func::ReadPortWord => 3,
        Func::WritePortWord => 4,
        Func::ReadPortDword => 5,
        Func::WritePortDword => 6,
        Func::MapPhysicalMemory => 7,
        Func::UnmapPhysicalMemory => 8,
    }
}

impl Func {
    pub fn number(self) -> (r: u32)
        ensures
            r == func_number(self),
    {
        match self {
            Func::ReadPortByte => 1,
            Func::WritePortByte => 2,
            Func::ReadPortWord => 3,
            Func::WritePortWord => 4,
            Func::ReadPortDword => 5,
            Func::WritePortDword => 6,
            Func::MapPhysicalMemory => 7,
            Func::UnmapPhysicalMemory => 8,
        }
    }
}

impl From<Func> for u32 {
    fn from(val: Func) -> (r: Self) {
        val.number()
    }
}

impl vstd::std_specs::convert::FromSpecImpl<Func> for u32 {
    open spec fn obeys_from_spec() -> bool {
        true
    }

    open spec fn from_spec(val: Func) -> Self {
        func_number(val)
    }
}

/// The control code of a function of the driver: buffered, open to any
/// access, of the driver's device type.
pub fn make_ioctl(func: Func) -> (r: Ioctl)
    ensures
        r.value() == control_code(
            Method::Buffered,
            DeviceAccess::Any,
            40_000,
            func_number(func) as int,
        ),
{
    Ioctl::new(Method::Buffered, DeviceAccess::Any, INPOUT_DEVICE_TYPE, func.number())
}

/// The function that reads a port at a width of so many bytes.
pub open spec fn read_func(width: nat) -> Func {
    if width == 1 {
        Func::ReadPortByte
    } else if width == 2 {
        Func::ReadPortWord
    } else {
        Func::ReadPortDword
    }
}

/// The function that writes a port at a width of so many bytes.
pub open spec fn write_func(width: nat) -> Func {
    if width == 1 {
        Func::WritePortByte
    } else if width == 2 {
        Func::WritePortWord
    } else {
        Func::WritePortDword
    }
}

/// A width of port access.
pub trait PortTrait {
    /// The number of bytes moved at once.
    spec fn width() -> nat;

    /// The function that reads a port at this width.
    fn read_fn_number() -> (r: Func)
        ensures
            r == read_func(Self::width()),
    ;

    /// The function that writes a port at this width.
    fn write_fn_number() -> (r: Func)
        ensures
            r == write_func(Self::width()),
    ;
}

pub struct PortByte;

pub struct PortWord;

pub struct PortDword;

impl PortTrait for PortByte {
    open spec fn width() -> nat {
        1
    }

    fn read_fn_number() -> (r: Func) {
        Func::ReadPortByte
    }

    fn write_fn_number() -> (r: Func) {
        Func::WritePortByte
    }
}

impl PortTrait for PortWord {
    open spec fn width() -> nat {
        2
    }

    fn read_fn_number() -> (r: Func) {
        Func::ReadPortWord
    }

    fn write_fn_number() -> (r: Func) {
        Func::WritePortWord
    }
}

impl PortTrait for PortDword {
    open spec fn width() -> nat {
        4
    }

    fn read_fn_number() -> (r: Func) {
        Func::ReadPortDword
    }

    fn write_fn_number() -> (r: Func) {
        Func::WritePortDword
    }
}

/// The bytes that write a number of the given width, low byte first.
pub open spec fn le_bytes(value: int, width: nat) -> Seq<u8>
    decreases width,
{
    if width == 0 {
        Seq::empty()
    } else {
        seq![(value % 256) as u8] + le_bytes(value / 256, (width - 1) as nat)
    }
}

/// The request that reads a port: the port's number.
pub open spec fn read_request(port_number: u16) -> Seq<u8> {
    le_bytes(port_number as int, 2)
}

/// The request that writes a port: the port's number and the value.
pub open spec fn write_request(port_number: u16, value: u32, width: nat) -> Seq<u8> {
    le_bytes(port_number as int, 2) + le_bytes(value as int, width)
}

/// Appends a number of the given width, low byte first.
pub fn push_le(out: &mut Vec<u8>, value: u64, width: usize)
    ensures
        final(out)@ == old(out)@ + le_bytes(value as int, width as nat),
{
    let mut rest = value;
    let mut i: usize = 0;
    proof {
        assert(old(out)@ + le_bytes(value as int, width as nat) =~= out@ + le_bytes(
            rest as int,
            (width - i) as nat,
        ));
    }
    while i < width
        invariant
            0 <= i <= width,
            old(out)@ + le_bytes(value as int, width as nat) == out@ + le_bytes(
                rest as int,
                (width - i) as nat,
            ),
        decreases width - i,
    {
        let ghost before = out@;
        out.push((rest % 256) as u8);
        proof {
            assert(before + (seq![(rest % 256) as u8] + le_bytes(
                rest as int / 256,
                (width - i - 1) as nat,
            )) =~= out@ + le_bytes(rest as int / 256, (width - i - 1) as nat));
        }
        rest = rest / 256;
        i += 1;
    }
    proof {
        assert(out@ + le_bytes(rest as int, 0) =~= out@);
    }
}

/// The request that reads a port.
pub fn port_read_request(port_number: u16) -> (r: Vec<u8>)
    ensures
        r@ == read_request(port_number),
{
    let mut out: Vec<u8> = Vec::new();
    push_le(&mut out, port_number as u64, 2);
    proof {
        assert(Seq::<u8>::empty() + read_request(port_number) =~= read_request(port_number));
    }
    out
}

/// The request that writes a value of `width` bytes to a port.
pub fn port_write_request(port_number: u16, value: u32, width: usize) -> (r: Vec<u8>)
    ensures
        r@ == write_request(port_number, value, width as nat),
{
    let mut out: Vec<u8> = Vec::new();
    push_le(&mut out, port_number as u64, 2);
    push_le(&mut out, value as u64, width);
    proof {
        assert(Seq::<u8>::empty() + le_bytes(port_number as int, 2) + le_bytes(
            value as int,
            width as nat,
        ) =~= write_request(port_number, value, width as nat));
    }
    out
}

/// A mapping of physical memory, whatever the width of the driver.
#[derive(Clone, Copy, Debug, Default, PartialEq, Eq, Structural)]
pub struct PhysMapping {
    /// The handle of the section.
    pub section: u64,
    pub size: u64,
    pub phys_address: u64,
    /// The address the memory is mapped at.
    pub mapped: u64,
}

/// A mapping as the 64-bit driver knows it.
#[derive(Clone, Copy, Debug, Default, PartialEq, Eq, Structural)]
pub struct Mapping64 {
    pub section: u64,
    pub size: u64,
    pub phys_address: u64,
    pub mapped: u64,
}

/// A mapping as the 32-bit driver knows it.
#[derive(Clone, Copy, Debug, Default, PartialEq, Eq, Structural)]
pub struct Mapping32 {
    pub section: u32,
    pub size: u32,
    pub phys_address: u32,
    pub mapped: u32,
}

impl PhysMapping {
    /// Does the mapping stand for mapped memory: has it a section, a size
    /// and an address?
    pub fn is_valid(&self) -> (r: bool)
        ensures
            r == (self.section != 0 && self.size > 0 && self.mapped != 0),
    {
        self.section != 0 && self.size > 0 && self.mapped != 0
    }
}

impl From<Mapping64> for PhysMapping {
    fn from(val: Mapping64) -> (r: Self) {
        PhysMapping {
            section: val.section,
            size: val.size,
            phys_address: val.phys_address,
            mapped: val.mapped,
        }
    }
}

impl vstd::std_specs::convert::FromSpecImpl<Mapping64> for PhysMapping {
    open spec fn obeys_from_spec() -> bool {
        true
    }

    open spec fn from_spec(val: Mapping64) -> Self {
        PhysMapping {
            section: val.section,
            size: val.size,
            phys_address: val.phys_address,
            mapped: val.mapped,
        }
    }
}

impl From<Mapping32> for PhysMapping {
    fn from(val: Mapping32) -> (r: Self) {
        PhysMapping {
            section: val.section as u64,
            size: val.size as u64,
            phys_address: val.phys_address as u64,
            mapped: val.mapped as u64,
        }
    }
}

impl vstd::std_specs::convert::FromSpecImpl<Mapping32> for PhysMapping {
    open spec fn obeys_from_spec() -> bool {
        true
    }

    open spec fn from_spec(val: Mapping32) -> Self {
        PhysMapping {
            section: val.section as u64,
            size: val.size as u64,
            phys_address: val.phys_address as u64,
            mapped: val.mapped as u64,
        }
    }
}

impl Mapping64 {
    /// The request to map `size` bytes from a physical address on.
    pub fn request(phys_address: u64, size: u64) -> (r: Mapping64)
        ensures
            r == (Mapping64 { section: 0, size, phys_address, mapped: 0 }),
    {
        Mapping64 { section: 0, size, phys_address, mapped: 0 }
    }

    /// The mapping as the 64-bit driver knows it.
    pub fn of(mapping: PhysMapping) -> (r: Mapping64)
        ensures
            r == (Mapping64 {
                section: mapping.section,
                size: mapping.size,
                phys_address: mapping.phys_address,
                mapped: mapping.mapped,
            }),
    {
        Mapping64 {
            section: mapping.section,
            size: mapping.size,
            phys_address: mapping.phys_address,
            mapped: mapping.mapped,
        }
    }

    /// The 32 bytes sent to the driver.
    pub fn to_bytes(&self) -> (r: Vec<u8>)
        ensures
            r@ == le_bytes(self.section as int, 8) + le_bytes(self.size as int, 8) + le_bytes(
                self.phys_address as int,
                8,
            ) + le_bytes(self.mapped as int, 8),
    {
        let mut out: Vec<u8> = Vec::new();
        push_le(&mut out, self.section, 8);
        push_le(&mut out, self.size, 8);
        push_le(&mut out, self.phys_address, 8);
        push_le(&mut out, self.mapped, 8);
        proof {
            assert(out@ =~= le_bytes(self.section as int, 8) + le_bytes(self.size as int, 8)
                + le_bytes(self.phys_address as int, 8) + le_bytes(self.mapped as int, 8));
        }
        out
    }
}

impl Mapping32 {
    /// The request to map `size` bytes from a physical address on, if both
    /// fit 32 bits.
    pub fn request(phys_address: u64, size: u64) -> (r: Option<Mapping32>)
        ensures
            r == if phys_address <= 0xFFFF_FFFF && size <= 0xFFFF_FFFF {
                Some(
                    Mapping32 {
                        section: 0,
                        size: size as u32,
                        phys_address: phys_address as u32,
                        mapped: 0,
                    },
                )
            } else {
                None
            },
    {
        if phys_address > 0xFFFF_FFFF || size > 0xFFFF_FFFF {
            return None;
        }
        Some(Mapping32 { section: 0, size: size as u32, phys_address: phys_address as u32, mapped: 0 })
    }

    /// The mapping as the 32-bit driver knows it, if all of it fits 32
    /// bits.
    pub fn of(mapping: PhysMapping) -> (r: Option<Mapping32>)
        ensures
            r == if mapping.section <= 0xFFFF_FFFF && mapping.size <= 0xFFFF_FFFF
                && mapping.phys_address <= 0xFFFF_FFFF && mapping.mapped <= 0xFFFF_FFFF {
                Some(
                    Mapping32 {
                        section: mapping.section as u32,
                        size: mapping.size as u32,
                        phys_address: mapping.phys_address as u32,
                        mapped: mapping.mapped as u32,
                    },
                )
            } else {
                None
            },
    {
        if mapping.section > 0xFFFF_FFFF || mapping.size > 0xFFFF_FFFF || mapping.phys_address
            > 0xFFFF_FFFF || mapping.mapped > 0xFFFF_FFFF {
            return None;
        }
        Some(
            Mapping32 {
                section: mapping.section as u32,
                size: mapping.size as u32,
                phys_address: mapping.phys_address as u32,
                mapped: mapping.mapped as u32,
            },
        )
    }

    /// The 16 bytes sent to the driver.
    pub fn to_bytes(&self) -> (r: Vec<u8>)
        ensures
            r@ == le_bytes(self.section as int, 4) + le_bytes(self.size as int, 4) + le_bytes(
                self.phys_address as int,
                4,
            ) + le_bytes(self.mapped as int, 4),
    {
        let mut out: Vec<u8> = Vec::new();
        push_le(&mut out, self.section as u64, 4);
        push_le(&mut out, self.size as u64, 4);
        push_le(&mut out, self.phys_address as u64, 4);
        push_le(&mut out, self.mapped as u64, 4);
        proof {
            assert(out@ =~= le_bytes(self.section as int, 4) + le_bytes(self.size as int, 4)
                + le_bytes(self.phys_address as int, 4) + le_bytes(self.mapped as int, 4));
        }
        out
    }
}

} // verus!
