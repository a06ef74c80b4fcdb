//! The answers of a Modbus server to requests on its registers and coils.

use vstd::prelude::*;
use vstd::std_specs::convert::FromSpecImpl;

verus! {

/// What a server answers to one request.
#[derive(Clone, Copy, Debug, PartialEq, Eq, Structural)]
pub enum ModbusReturnCode {
    Okay,
    IllegalFunction,
    ReadOnlyRegister,
    PermissionDenied,
    IllegalDataAddress,
    IllegalDataValue,
    ServerDeviceFailure,
    SlaveDeviceBusy,
}

impl ModbusReturnCode {
    /// The number that stands for this answer on the C side: zero for
    /// success, the negated Modbus exception code otherwise. The three
    /// refusals of the request as such share the code of an illegal function.
    pub open spec fn code(self) -> int {
        match self {
            ModbusReturnCode::Okay => 0,
            ModbusReturnCode::IllegalFunction
            | ModbusReturnCode::ReadOnlyRegister
            | ModbusReturnCode::PermissionDenied => -1,
            ModbusReturnCode::IllegalDataAddress => -2,
            ModbusReturnCode::IllegalDataValue => -3,
            ModbusReturnCode::ServerDeviceFailure => -4,
            ModbusReturnCode::SlaveDeviceBusy => -6,
        }
    }
}

impl From<ModbusReturnCode> for i32 {
    fn from(answer: ModbusReturnCode) -> (number: i32) {
        match answer {
            ModbusReturnCode::Okay => 0,
            ModbusReturnCode::IllegalFunction
            | ModbusReturnCode::ReadOnlyRegister
            | ModbusReturnCode::PermissionDenied => -1,
            ModbusReturnCode::IllegalDataAddress => -2,
            ModbusReturnCode::IllegalDataValue => -3,
            ModbusReturnCode::ServerDeviceFailure => -4,
            ModbusReturnCode::SlaveDeviceBusy => -6,
        }
    }
}

impl FromSpecImpl<ModbusReturnCode> for i32 {
    open spec fn obeys_from_spec() -> bool {
        true
    }

    open spec fn from_spec(answer: ModbusReturnCode) -> i32 {
        answer.code() as i32
    }
}

/// A server on one interface that answers for the addresses `0..N`.
///
/// A write to a valid address is put before the handler registered for it,
/// which decides the answer; without a handler the write is accepted.
pub struct ModbusServer<H, C, const N: usize> {
    iface: u8,
    holding_reg_handler: Option<H>,
    coil_handler: Option<C>,
}

impl<H, C, const N: usize> ModbusServer<H, C, N> where
    H: Fn(u16, u16) -> ModbusReturnCode,
    C: Fn(u16, bool) -> ModbusReturnCode,
{
    /// The interface the server was made for.
    pub closed spec fn spec_iface(&self) -> u8 {
        self.iface
    }

    /// The handler for writes to holding registers, if one is registered.
    pub closed spec fn holding_reg_handler(&self) -> Option<H> {
        self.holding_reg_handler
    }

    /// The handler for writes to coils, if one is registered.
    pub closed spec fn coil_handler(&self) -> Option<C> {
        self.coil_handler
    }

    /// Every registered handler takes every address and value.
    pub open spec fn wf(&self) -> bool {
        &&& self.holding_reg_handler() matches Some(handler) ==> forall|addr: u16, value: u16|
            call_requires(handler, (addr, value))
        &&& self.coil_handler() matches Some(handler) ==> forall|addr: u16, value: bool|
            call_requires(handler, (addr, value))
    }

    /// `addr` is one of the server's `N` addresses.
    pub open spec fn spec_address_valid(addr: u16) -> bool {
        addr < N
    }

    /// A server on interface `iface` with no handler registered.
    pub fn new(iface: u8) -> (server: Self)
        ensures
            server.wf(),
            server.spec_iface() == iface,
            server.holding_reg_handler().is_none(),
            server.coil_handler().is_none(),
    {
        ModbusServer { iface, holding_reg_handler: None, coil_handler: None }
    }

    /// The interface the server was made for.
    pub fn iface(&self) -> (iface: u8)
        ensures
            iface == self.spec_iface(),
    {
        self.iface
    }

    /// Registers the handler that decides on writes to holding registers, in
    /// place of any registered before.
    pub fn register_write_holding_reg_handler(&mut self, handler: H)
        requires
            old(self).wf(),
            forall|addr: u16, value: u16| call_requires(handler, (addr, value)),
        ensures
            final(self).wf(),
            final(self).holding_reg_handler() == Some(handler),
            final(self).coil_handler() == old(self).coil_handler(),
            final(self).spec_iface() == old(self).spec_iface(),
    {
        self.holding_reg_handler = Some(handler);
    }

    /// Registers the handler that decides on writes to coils, in place of any
    /// registered before.
    pub fn register_write_coils_handler(&mut self, handler: C)
        requires
            old(self).wf(),
            forall|addr: u16, value: bool| call_requires(handler, (addr, value)),
        ensures
            final(self).wf(),
            final(self).coil_handler() == Some(handler),
            final(self).holding_reg_handler() == old(self).holding_reg_handler(),
            final(self).spec_iface() == old(self).spec_iface(),
    {
        self.coil_handler = Some(handler);
    }

    /// Whether `addr` is one of the server's `N` addresses.
    pub fn address_valid(&self, addr: u16) -> (valid: bool)
        ensures
            valid == Self::spec_address_valid(addr),
    {
        (addr as usize) < N
    }

    /// The answer to a write of `reg` to the holding register at `addr`: the
    /// code of an illegal data address outside `0..N`, else the code of what
    /// the registered handler answers, else zero.
    pub fn modbus_write_holding_reg_cb(&self, addr: u16, reg: u16) -> (number: i32)
        requires
            self.wf(),
        ensures
            !Self::spec_address_valid(addr) ==> number
                == ModbusReturnCode::IllegalDataAddress.code(),
            Self::spec_address_valid(addr) ==> match self.holding_reg_handler() {
                Some(handler) => exists|answer: ModbusReturnCode|
                    call_ensures(handler, (addr, reg), answer) && number == answer.code(),
                None => number == ModbusReturnCode::Okay.code(),
            },
    {
        if !self.address_valid(addr) {
            return i32::from(ModbusReturnCode::IllegalDataAddress);
        }
        match &self.holding_reg_handler {
            Some(handler) => i32::from(handler(addr, reg)),
            None => i32::from(ModbusReturnCode::Okay),
        }
    }

    /// The answer to a write of `state` to the coil at `addr`: the code of an
    /// illegal data address outside `0..N`, else the code of what the
    /// registered handler answers, else zero.
    pub fn modbus_write_coils_cb(&self, addr: u16, state: bool) -> (number: i32)
        requires
            self.wf(),
        ensures
            !Self::spec_address_valid(addr) ==> number
                == ModbusReturnCode::IllegalDataAddress.code(),
            Self::spec_address_valid(addr) ==> match self.coil_handler() {
                Some(handler) => exists|answer: ModbusReturnCode|
                    call_ensures(handler, (addr, state), answer) && number == answer.code(),
                None => number == ModbusReturnCode::Okay.code(),
            },
    {
        if !self.address_valid(addr) {
            return i32::from(ModbusReturnCode::IllegalDataAddress);
        }
        match &self.coil_handler {
            Some(handler) => i32::from(handler(addr, state)),
            None => i32::from(ModbusReturnCode::Okay),
        }
    }
}

} // verus!
