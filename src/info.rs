//! Module identification and communication parameters, decoded from system status lists.
use vstd::prelude::*;
use vstd::utf8::{decode_utf8, valid_utf8};
use crate::codec::{be_u16_at, read_u16, sub_vec};
use crate::error::{Error, ISO_INVALID_PDU};
use crate::transport::SZL_MIN_RESPONSE;

verus! {

/// Identification of a CPU module.
#[derive(Debug, Clone)]
pub struct CpuInfo {
    /// Order number of the module type.
    pub module_type_name: String,
    /// Serial number of the module.
    pub serial_number: String,
    /// Name of the automation system.
    pub as_name: String,
    /// Copyright notice.
    pub copyright: String,
    /// Name of the module.
    pub module_name: String,
}

/// Communication parameters of a CPU.
#[derive(Debug, Clone, Copy, PartialEq, Eq, Structural)]
pub struct CPInfo {
    /// Largest PDU length.
    pub max_pdu_length: u16,
    /// Largest number of connections.
    pub max_connections: u16,
    /// Largest MPI data rate.
    pub max_mpi_rate: u16,
    /// Largest bus data rate.
    pub max_bus_rate: u16,
}

/// Bytes of communication parameters that a CPU must send.
pub const CP_INFO_MIN_DATA: usize = 12;

/// `s` without its trailing spaces.
pub open spec fn trim_spaces(s: Seq<u8>) -> Seq<u8>
    decreases s.len(),
{
    if s.len() > 0 && s.last() == 0x20 {
        trim_spaces(s.drop_last())
    } else {
        s
    }
}

/// The bytes of the text field `from..to` of `data`, without trailing spaces.
pub open spec fn field_bytes(data: Seq<u8>, from: int, to: int) -> Seq<u8> {
    trim_spaces(data.subrange(from, to))
}

/// Whether the text field `from..to` of `data` decodes.
pub open spec fn field_ok(data: Seq<u8>, from: int, to: int) -> bool {
    valid_utf8(field_bytes(data, from, to))
}

/// The text of the field `from..to` of `data`.
pub open spec fn field_text(data: Seq<u8>, from: int, to: int) -> Seq<char> {
    decode_utf8(field_bytes(data, from, to))
}

/// Whether `r` is an error about the undecodable text field `from..to` of `data`.
pub open spec fn field_rejected<R>(data: Seq<u8>, from: int, to: int, r: Result<R, Error>) -> bool {
    r matches Err(Error::InvalidResponse { bytes, .. }) && bytes@ == data.subrange(from, to)
}

/// Whether `r` is what the CPU identification list `data` gives: its fields, each
/// trimmed of trailing spaces, or an error for a short list or a field that does not decode.
pub open spec fn cpu_info_result(data: Seq<u8>, r: Result<CpuInfo, Error>) -> bool {
    if data.len() < SZL_MIN_RESPONSE {
        r == Err::<CpuInfo, Error>(Error::Response { code: ISO_INVALID_PDU })
    } else if !field_ok(data, 172, 204) {
        field_rejected(data, 172, 204, r)
    } else if !field_ok(data, 138, 162) {
        field_rejected(data, 138, 162, r)
    } else if !field_ok(data, 2, 26) {
        field_rejected(data, 2, 26, r)
    } else if !field_ok(data, 104, 130) {
        field_rejected(data, 104, 130, r)
    } else if !field_ok(data, 36, 60) {
        field_rejected(data, 36, 60, r)
    } else {
        r matches Ok(info) && info.module_type_name@ == field_text(data, 172, 204)
            && info.serial_number@ == field_text(data, 138, 162) && info.as_name@ == field_text(
            data,
            2,
            26,
        ) && info.copyright@ == field_text(data, 104, 130) && info.module_name@ == field_text(
            data,
            36,
            60,
        )
    }
}

/// The communication parameters that the list `data` gives.
pub open spec fn spec_cp_info(data: Seq<u8>) -> Result<CPInfo, Error> {
    if data.len() < CP_INFO_MIN_DATA {
        Err(Error::Response { code: ISO_INVALID_PDU })
    } else {
        Ok(
            CPInfo {
                max_pdu_length: be_u16_at(data, 2),
                max_connections: be_u16_at(data, 4),
                max_mpi_rate: be_u16_at(data, 6),
                max_bus_rate: be_u16_at(data, 10),
            },
        )
    }
}

/// Relies on `String::from_utf8`: it succeeds exactly on valid UTF-8, and the string
/// then holds the decoded characters.
#[verifier::external_body]
fn utf8_string(bytes: Vec<u8>) -> (r: Option<String>)
    ensures
        r is Some <==> valid_utf8(bytes@),
        r matches Some(s) ==> s@ == decode_utf8(bytes@),
{
    String::from_utf8(bytes).ok()
}

/// The bytes `from..to` of `data` without trailing spaces.
fn trim_end_spaces(data: &[u8], from: usize, to: usize) -> (r: Vec<u8>)
    requires
        from <= to <= data@.len(),
    ensures
        r@ == trim_spaces(data@.subrange(from as int, to as int)),
{
    let mut end = to;
    while end > from && data[end - 1] == 0x20
        invariant
            from <= end <= to <= data@.len(),
            trim_spaces(data@.subrange(from as int, to as int)) == trim_spaces(
                data@.subrange(from as int, end as int),
            ),
        decreases end,
    {
        assert(data@.subrange(from as int, end as int).drop_last() =~= data@.subrange(
            from as int,
            end - 1,
        ));
        end = end - 1;
    }
    sub_vec(data, from, end - from)
}

/// Decodes the text field `from..to` of `data`.
fn field_string(data: &[u8], from: usize, to: usize) -> (r: Result<String, Error>)
    requires
        from <= to <= data@.len(),
    ensures
        field_ok(data@, from as int, to as int) <==> r is Ok,
        r matches Ok(s) ==> s@ == field_text(data@, from as int, to as int),
        r is Err ==> field_rejected(data@, from as int, to as int, r),
{
    let trimmed = trim_end_spaces(data, from, to);
    match utf8_string(trimmed) {
        Some(s) => Ok(s),
        None => Err(
            Error::InvalidResponse {
                reason: "invalid UTF-8 in text field".to_string(),
                bytes: sub_vec(data, from, to - from),
            },
        ),
    }
}

/// Reads the CPU identification from the data of its system status list.
pub fn cpu_info_from_szl(data: &[u8]) -> (r: Result<CpuInfo, Error>)
    ensures
        cpu_info_result(data@, r),
{
    if data.len() < SZL_MIN_RESPONSE {
        return Err(Error::Response { code: ISO_INVALID_PDU });
    }
    let module_type_name = match field_string(data, 172, 204) {
        Ok(s) => s,
        Err(e) => return Err(e),
    };
    let serial_number = match field_string(data, 138, 162) {
        Ok(s) => s,
        Err(e) => return Err(e),
    };
    let as_name = match field_string(data, 2, 26) {
        Ok(s) => s,
        Err(e) => return Err(e),
    };
    let copyright = match field_string(data, 104, 130) {
        Ok(s) => s,
        Err(e) => return Err(e),
    };
    let module_name = match field_string(data, 36, 60) {
        Ok(s) => s,
        Err(e) => return Err(e),
    };
    Ok(CpuInfo { module_type_name, serial_number, as_name, copyright, module_name })
}

/// Reads the communication parameters from the data of their system status list.
pub fn cp_info_from_szl(data: &[u8]) -> (r: Result<CPInfo, Error>)
    ensures
        r == spec_cp_info(data@),
{
    if data.len() < CP_INFO_MIN_DATA {
        return Err(Error::Response { code: ISO_INVALID_PDU });
    }
    Ok(
        CPInfo {
            max_pdu_length: read_u16(data, 2),
            max_connections: read_u16(data, 4),
            max_mpi_rate: read_u16(data, 6),
            max_bus_rate: read_u16(data, 10),
        },
    )
}

} // verus!
