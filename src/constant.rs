//! Codes of the S7 protocol: memory areas, word lengths, transport sizes.
use vstd::prelude::*;
use crate::error::Error;

verus! {

/// A memory area of the controller.
#[derive(Debug, Clone, Copy, PartialEq, Eq, Structural)]
pub enum Area {
    /// Process image of the inputs.
    ProcessInput,
    /// Process image of the outputs.
    ProcessOutput,
    /// Flag memory of the CPU.
    Merker,
    /// Data blocks, the numbered storage of the controller.
    DataBausteine,
    /// Counters.
    Counter,
    /// Timers.
    Timer,
}

impl Area {
    /// The code of the area on the wire.
    pub open spec fn spec_code(self) -> u8 {
        match self {
            Area::ProcessInput => 0x81,
            Area::ProcessOutput => 0x82,
            Area::Merker => 0x83,
            Area::DataBausteine => 0x84,
            Area::Counter => 0x1C,
            Area::Timer => 0x1D,
        }
    }

    /// The code of the area on the wire.
    pub fn code(&self) -> (r: u8)
        ensures
            r == self.spec_code(),
    {
        match self {
            Area::ProcessInput => 0x81,
            Area::ProcessOutput => 0x82,
            Area::Merker => 0x83,
            Area::DataBausteine => 0x84,
            Area::Counter => 0x1C,
            Area::Timer => 0x1D,
        }
    }
}

/// Bit (inside a byte).
pub const WL_BIT: i32 = 0x01;
/// Byte (8 bits).
pub const WL_BYTE: i32 = 0x02;
/// Character (8 bits).
pub const WL_CHAR: i32 = 0x03;
/// Word (16 bits).
pub const WL_WORD: i32 = 0x04;
/// Signed integer (16 bits).
pub const WL_INT: i32 = 0x05;
/// Double word (32 bits).
pub const WL_DWORD: i32 = 0x06;
/// Signed double integer (32 bits).
pub const WL_DINT: i32 = 0x07;
/// Real (32-bit float).
pub const WL_REAL: i32 = 0x08;
/// Counter (16 bits).
pub const WL_COUNTER: i32 = 0x1C;
/// Timer (16 bits).
pub const WL_TIMER: i32 = 0x1D;

/// Number of bytes of one element of the given word length, 0 for an unknown code.
pub open spec fn spec_data_size_byte(word_length: i32) -> i32 {
    if word_length == WL_BIT || word_length == WL_BYTE || word_length == WL_CHAR {
        1
    } else if word_length == WL_WORD || word_length == WL_INT || word_length == WL_COUNTER
        || word_length == WL_TIMER {
        2
    } else if word_length == WL_DWORD || word_length == WL_DINT || word_length == WL_REAL {
        4
    } else {
        0
    }
}

/// Number of bytes of one element of the given word length, 0 for an unknown code.
pub fn data_size_byte(word_length: i32) -> (r: i32)
    ensures
        r == spec_data_size_byte(word_length),
{
    if word_length == WL_BIT || word_length == WL_BYTE || word_length == WL_CHAR {
        1
    } else if word_length == WL_WORD || word_length == WL_INT || word_length == WL_COUNTER
        || word_length == WL_TIMER {
        2
    } else if word_length == WL_DWORD || word_length == WL_DINT || word_length == WL_REAL {
        4
    } else {
        0
    }
}

/// Run state of the CPU.
#[derive(Debug, Clone, Copy, PartialEq, Eq, Structural)]
pub enum CpuStatus {
    /// Status byte 0.
    Unknown,
    /// Status byte 4.
    Stop,
    /// Status byte 8.
    Run,
}

impl CpuStatus {
    /// The status that a status byte stands for, if any.
    pub open spec fn spec_from_u8(value: u8) -> Option<CpuStatus> {
        if value == 0 {
            Some(CpuStatus::Unknown)
        } else if value == 4 {
            Some(CpuStatus::Stop)
        } else if value == 8 {
            Some(CpuStatus::Run)
        } else {
            None
        }
    }

    /// Reads a status byte: 0, 4 and 8 are known, anything else is an error.
    pub fn from_u8(value: u8) -> (r: Result<CpuStatus, Error>)
        ensures
            match CpuStatus::spec_from_u8(value) {
                Some(s) => r == Ok::<CpuStatus, Error>(s),
                None => r matches Err(Error::InvalidCpuStatus(v)) && v == value,
            },
    {
        if value == 0 {
            Ok(CpuStatus::Unknown)
        } else if value == 4 {
            Ok(CpuStatus::Stop)
        } else if value == 8 {
            Ok(CpuStatus::Run)
        } else {
            Err(Error::InvalidCpuStatus(value))
        }
    }
}

/// Header size of a read request.
pub const SIZE_HEADER_READ: usize = 31;
/// Header size of a write request.
pub const SIZE_HEADER_WRITE: usize = 35;

/// Transport size of a bit.
pub const TS_RES_BIT: u8 = 3;
/// Transport size of bytes.
pub const TS_RES_BYTE: u8 = 4;
/// Transport size of integers.
pub const TS_RES_INT: u8 = 5;
/// Transport size of reals.
pub const TS_RES_REAL: u8 = 7;
/// Transport size of counters and timers.
pub const TS_RES_OCTET: u8 = 9;

} // verus!
