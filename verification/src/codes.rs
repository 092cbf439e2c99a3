//! Modbus function codes, exception codes, and the exception value carried
//! back to the requester together with a diagnostic message.

use vstd::prelude::*;

verus! {

/// The function codes this slave supports.
#[derive(Clone, Copy, Debug, PartialEq, Eq, Structural)]
pub enum MbFunc {
    ReadCoils,
    ReadDiscreteInputs,
    ReadHoldingRegisters,
    ReadInputRegisters,
    WriteSingleCoil,
    WriteSingleRegister,
    WriteMultipleCoils,
    WriteMultipleRegisters,
}

/// The function code byte of each supported function.
pub open spec fn func_code(f: MbFunc) -> u8 {
    match f {
        MbFunc::ReadCoils => 0x01,
        MbFunc::ReadDiscreteInputs => 0x02,
        MbFunc::ReadHoldingRegisters => 0x03,
        MbFunc::ReadInputRegisters => 0x04,
        MbFunc::WriteSingleCoil => 0x05,
        MbFunc::WriteSingleRegister => 0x06,
        MbFunc::WriteMultipleCoils => 0x0F,
        MbFunc::WriteMultipleRegisters => 0x10,
    }
}

/// The supported function for a function code byte, if any.
pub open spec fn spec_func_from_code(c: u8) -> Option<MbFunc> {
    if c == 0x01 {
        Some(MbFunc::ReadCoils)
    } else if c == 0x02 {
        Some(MbFunc::ReadDiscreteInputs)
    } else if c == 0x03 {
        Some(MbFunc::ReadHoldingRegisters)
    } else if c == 0x04 {
        Some(MbFunc::ReadInputRegisters)
    } else if c == 0x05 {
        Some(MbFunc::WriteSingleCoil)
    } else if c == 0x06 {
        Some(MbFunc::WriteSingleRegister)
    } else if c == 0x0F {
        Some(MbFunc::WriteMultipleCoils)
    } else if c == 0x10 {
        Some(MbFunc::WriteMultipleRegisters)
    } else {
        None
    }
}

impl MbFunc {
    /// Maps a function code byte to the supported function it names.
    pub fn from_code(c: u8) -> (r: Option<MbFunc>)
        ensures
            r == spec_func_from_code(c),
    {
        match c {
            0x01 => Some(MbFunc::ReadCoils),
            0x02 => Some(MbFunc::ReadDiscreteInputs),
            0x03 => Some(MbFunc::ReadHoldingRegisters),
            0x04 => Some(MbFunc::ReadInputRegisters),
            0x05 => Some(MbFunc::WriteSingleCoil),
            0x06 => Some(MbFunc::WriteSingleRegister),
            0x0F => Some(MbFunc::WriteMultipleCoils),
            0x10 => Some(MbFunc::WriteMultipleRegisters),
            _ => None,
        }
    }

    /// The wire byte of this function.
    pub fn code(&self) -> (r: u8)
        ensures
            r == func_code(*self),
    {
        match self {
            MbFunc::ReadCoils => 0x01,
            MbFunc::ReadDiscreteInputs => 0x02,
            MbFunc::ReadHoldingRegisters => 0x03,
            MbFunc::ReadInputRegisters => 0x04,
            MbFunc::WriteSingleCoil => 0x05,
            MbFunc::WriteSingleRegister => 0x06,
            MbFunc::WriteMultipleCoils => 0x0F,
            MbFunc::WriteMultipleRegisters => 0x10,
        }
    }
}

/// Modbus exception codes.
#[derive(Clone, Copy, Debug, PartialEq, Eq, Structural)]
pub enum MbExc {
    IllegalFunction,
    IllegalDataAddress,
    IllegalDataValue,
    SlaveDeviceFailure,
    Acknowledge,
    SlaveDeviceBusy,
    MemoryParityError,
    GatewayPathUnavailable,
    GatewayTargetDeviceFailedToRespond,
}

/// The wire byte of each exception code.
pub open spec fn exc_code(e: MbExc) -> u8 {
    match e {
        MbExc::IllegalFunction => 1,
        MbExc::IllegalDataAddress => 2,
        MbExc::IllegalDataValue => 3,
        MbExc::SlaveDeviceFailure => 4,
        MbExc::Acknowledge => 5,
        MbExc::SlaveDeviceBusy => 6,
        MbExc::MemoryParityError => 8,
        MbExc::GatewayPathUnavailable => 0x0A,
        MbExc::GatewayTargetDeviceFailedToRespond => 0x0B,
    }
}

impl MbExc {
    /// The wire byte of this exception code.
    pub fn code(&self) -> (r: u8)
        ensures
            r == exc_code(*self),
    {
        match self {
            MbExc::IllegalFunction => 1,
            MbExc::IllegalDataAddress => 2,
            MbExc::IllegalDataValue => 3,
            MbExc::SlaveDeviceFailure => 4,
            MbExc::Acknowledge => 5,
            MbExc::SlaveDeviceBusy => 6,
            MbExc::MemoryParityError => 8,
            MbExc::GatewayPathUnavailable => 0x0A,
            MbExc::GatewayTargetDeviceFailedToRespond => 0x0B,
        }
    }
}

/// An exception code together with a human-readable diagnostic.
#[derive(Debug)]
pub struct MbExcWithMessage {
    pub exc: MbExc,
    pub message: String,
}

impl MbExcWithMessage {
    /// Pairs an exception code with its diagnostic message.
    pub fn new(exc: MbExc, message: String) -> (r: MbExcWithMessage)
        ensures
            r.exc == exc,
            r.message == message,
    {
        MbExcWithMessage { exc, message }
    }
}

} // verus!
