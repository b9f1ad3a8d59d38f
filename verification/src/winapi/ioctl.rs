//! Device control codes.
//!
//! A control code is a 32-bit number made of fields, from the lowest bit
//! up: two bits for the way buffers are passed, eleven bits for the
//! function, one bit that marks the function as the vendor's own, two bits
//! for the access required, fifteen bits for the device type and one bit
//! that marks the device type as the vendor's own.

use vstd::prelude::*;

verus! {

/// How buffers are passed to the driver.
#[derive(Clone, Copy, Debug, PartialEq, Eq, Structural)]
pub enum Method {
    Buffered,
    InDirect,
    OutDirect,
    Neither,
}

/// The access to the device that the caller must have.
#[derive(Clone, Copy, Debug, PartialEq, Eq, Structural)]
pub enum DeviceAccess {
    Any,
    Read,
    Write,
}

/// A device control code.
#[derive(Clone, Copy, Debug, Default, PartialEq, Eq, Structural)]
pub struct Ioctl(u32);

/// The device type of devices of no particular kind.
pub const FILE_DEVICE_UNKNOWN: u32 = 0x22;

/// The number of a method.
pub open spec fn method_number(method: Method) -> int {
    match method {
        Method::Buffered => 0,
        Method::InDirect => 1,
        Method::OutDirect => 2,
        Method::Neither => 3,
    }
}

/// The number of an access.
pub open spec fn access_number(access: DeviceAccess) -> int {
    match access {
        DeviceAccess::Any => 0,
        DeviceAccess::Read => 1,
        DeviceAccess::Write => 2,
    }
}

/// The control code made of the given fields, both vendor bits set. A
/// function or a device type too large for its field loses its upper bits.
pub open spec fn control_code(
    method: Method,
    access: DeviceAccess,
    device_type: int,
    function_code: int,
) -> int {
    method_number(method) + 4 * (function_code % 2048) + 8192 + 16_384 * access_number(access)
        + 65_536 * (device_type % 32_768) + 2_147_483_648
}

impl Method {
    pub fn number(self) -> (r: u32)
        ensures
            r == method_number(self),
    {
        match self {
            Method::Buffered => 0,
            Method::InDirect => 1,
            Method::OutDirect => 2,
            Method::Neither => 3,
        }
    }
}

impl DeviceAccess {
    pub fn number(self) -> (r: u32)
        ensures
            r == access_number(self),
    {
        match self {
            DeviceAccess::Any => 0,
            DeviceAccess::Read => 1,
            DeviceAccess::Write => 2,
        }
    }
}

impl Ioctl {
    /// The number of the code.
    pub closed spec fn value(&self) -> int {
        self.0 as int
    }

    pub fn new(method: Method, access: DeviceAccess, device_type: u32, function_code: u32) -> (r:
        Ioctl)
        ensures
            r.value() == control_code(method, access, device_type as int, function_code as int),
    {
        Ioctl(
            method.number() + 4 * (function_code % 2048) + 8192 + 16_384 * access.number() + 65_536
                * (device_type % 32_768) + 2_147_483_648,
        )
    }

    pub fn make_buffered(function_code: u32) -> (r: Ioctl)
        ensures
            r.value() == control_code(
                Method::Buffered,
                DeviceAccess::Any,
                0x22,
                function_code as int,
            ),
    {
        Self::new(Method::Buffered, DeviceAccess::Any, FILE_DEVICE_UNKNOWN, function_code)
    }

    pub fn make_in_direct(function_code: u32) -> (r: Ioctl)
        ensures
            r.value() == control_code(
                Method::InDirect,
                DeviceAccess::Any,
                0x22,
                function_code as int,
            ),
    {
        Self::new(Method::InDirect, DeviceAccess::Any, FILE_DEVICE_UNKNOWN, function_code)
    }

    pub fn make_out_direct(function_code: u32) -> (r: Ioctl)
        ensures
            r.value() == control_code(
                Method::OutDirect,
                DeviceAccess::Any,
                0x22,
                function_code as int,
            ),
    {
        Self::new(Method::OutDirect, DeviceAccess::Any, FILE_DEVICE_UNKNOWN, function_code)
    }

    pub fn make_neither(function_code: u32) -> (r: Ioctl)
        ensures
            r.value() == control_code(
                Method::Neither,
                DeviceAccess::Any,
                0x22,
                function_code as int,
            ),
    {
        Self::new(Method::Neither, DeviceAccess::Any, FILE_DEVICE_UNKNOWN, function_code)
    }

    pub fn raw(&self) -> (r: u32)
        ensures
            r == self.value(),
    {
        self.0
    }

    /// The way buffers are passed, as a number.
    pub fn transfer_type(&self) -> (r: u32)
        ensures
            r == self.value() % 4,
    {
        self.0 % 4
    }

    /// The function, without its vendor bit.
    pub fn function_code(&self) -> (r: u32)
        ensures
            r == self.value() / 4 % 2048,
    {
        self.0 / 4 % 2048
    }

    /// The device type, without its vendor bit.
    pub fn device_type(&self) -> (r: u32)
        ensures
            r == self.value() / 65_536 % 32_768,
    {
        self.0 / 65_536 % 32_768
    }
}

/// The fields of a control code read back as they were put in.
pub proof fn lemma_control_code_fields(
    method: Method,
    access: DeviceAccess,
    device_type: int,
    function_code: int,
)
    requires
        0 <= device_type,
        0 <= function_code,
    ensures
        ({
            let code = control_code(method, access, device_type, function_code);
            &&& 0 <= code <= u32::MAX
            &&& code % 4 == method_number(method)
            &&& code / 4 % 2048 == function_code % 2048
            &&& code / 8192 % 2 == 1
            &&& code / 16_384 % 4 == access_number(access)
            &&& code / 65_536 % 32_768 == device_type % 32_768
            &&& code / 2_147_483_648 == 1
        }),
{
    let m = method_number(method);
    let a = access_number(access);
    let f = function_code % 2048;
    let d = device_type % 32_768;
    let code = control_code(method, access, device_type, function_code);
    let above_method = f + 2048 + 4096 * a + 16_384 * d + 536_870_912;
    let above_function = 1 + 2 * a + 8 * d + 262_144;
    let above_custom = a + 4 * d + 131_072;
    let above_access = d + 32_768;
    vstd::arithmetic::div_mod::lemma_fundamental_div_mod_converse(code, 4, above_method, m);
    vstd::arithmetic::div_mod::lemma_fundamental_div_mod_converse(
        above_method,
        2048,
        above_function,
        f,
    );
    vstd::arithmetic::div_mod::lemma_fundamental_div_mod_converse(code, 8192, above_function, m + 4 * f);
    vstd::arithmetic::div_mod::lemma_fundamental_div_mod_converse(above_function, 2, above_custom, 1);
    vstd::arithmetic::div_mod::lemma_fundamental_div_mod_converse(
        code,
        16_384,
        above_custom,
        m + 4 * f + 8192,
    );
    vstd::arithmetic::div_mod::lemma_fundamental_div_mod_converse(above_custom, 4, above_access, a);
    vstd::arithmetic::div_mod::lemma_fundamental_div_mod_converse(
        code,
        65_536,
        above_access,
        m + 4 * f + 8192 + 16_384 * a,
    );
    vstd::arithmetic::div_mod::lemma_fundamental_div_mod_converse(above_access, 32_768, 1, d);
    vstd::arithmetic::div_mod::lemma_fundamental_div_mod_converse(
        code,
        2_147_483_648,
        1,
        m + 4 * f + 8192 + 16_384 * a + 65_536 * d,
    );
}

} // verus!