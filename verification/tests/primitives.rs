//! Tests of the CRC engine, the bit packer/unpacker, the frame length
//! resolver, the timing helper and the protocol code types.

use modbus_rtu::framing::{LenError, LenResolution};
use modbus_rtu::timing::response_delay_us;
use modbus_rtu::{crc, get_query_len, pack_bits, unpack_bits, MbExc, MbExcWithMessage, MbFunc};

#[test]
fn crc_empty_is_ffff() {
    assert_eq!(crc(&[]), 0xFFFF);
}

#[test]
fn crc_known_vector() {
    // the reference CRC of the 6-byte read request 01 03 00 00 00 01
    assert_eq!(crc(&[0x01, 0x03, 0x00, 0x00, 0x00, 0x01]), 0x0A84);
}

#[test]
fn crc_deterministic() {
    let data = [0x01, 0x10, 0x00, 0x05, 0x00, 0x02, 0x04, 0xAB, 0xCD, 0x12, 0x34];
    assert_eq!(crc(&data), crc(&data));
}

#[test]
fn crc_single_byte() {
    // one zero byte: eight shift rounds from 0xFFFF
    assert_eq!(crc(&[0x00]), 0x40BF);
}

#[test]
fn pack_bits_exact() {
    let mut out = Vec::new();
    pack_bits(&[1, 0, 1], &mut out);
    assert_eq!(out, vec![0b101]);

    let mut out = Vec::new();
    pack_bits(&[1, 1, 1, 1, 1, 1, 1, 1], &mut out);
    assert_eq!(out, vec![0xFF]);

    let mut out = Vec::new();
    pack_bits(&[0, 1, 0, 0, 0, 0, 0, 0, 1], &mut out);
    assert_eq!(out, vec![0x02, 0x01]);
}

#[test]
fn pack_bits_appends() {
    let mut out = vec![0xAA];
    pack_bits(&[1], &mut out);
    assert_eq!(out, vec![0xAA, 0x01]);
}

#[test]
fn pack_bits_empty() {
    let mut out = Vec::new();
    pack_bits(&[], &mut out);
    assert!(out.is_empty());
}

#[test]
fn unpack_bits_exact() {
    let mut out = Vec::new();
    unpack_bits(&[0xA5], 8, &mut out);
    // 0xA5 = 1010_0101, least-significant bit first
    assert_eq!(out, vec![1, 0, 1, 0, 0, 1, 0, 1]);
}

#[test]
fn unpack_bits_respects_count() {
    let mut out = Vec::new();
    unpack_bits(&[0xFF, 0xFF], 3, &mut out);
    assert_eq!(out, vec![1, 1, 1]);
}

#[test]
fn pack_unpack_roundtrip_concrete() {
    let bits = vec![1, 0, 0, 1, 1, 1, 0, 1, 0, 1, 1];
    let mut packed = Vec::new();
    pack_bits(&bits, &mut packed);
    let mut back = Vec::new();
    unpack_bits(&packed, bits.len(), &mut back);
    assert_eq!(back, bits);
}

#[test]
fn query_len_needs_two_bytes() {
    assert_eq!(get_query_len(&[]), LenResolution::NotYetKnown);
    assert_eq!(get_query_len(&[0x01]), LenResolution::NotYetKnown);
}

#[test]
fn query_len_fixed_functions() {
    for f in 0x01..=0x06u8 {
        assert_eq!(get_query_len(&[0x01, f]), LenResolution::Known(8));
    }
}

#[test]
fn query_len_write_multiple_registers() {
    // length unknown until the byte-count field at byte 6 has arrived
    assert_eq!(
        get_query_len(&[0x01, 0x10, 0x00, 0x05, 0x00, 0x02]),
        LenResolution::NotYetKnown
    );
    // byte count 4: 1 + 5 + 1 + 4 + 2 = 13 bytes in all
    assert_eq!(
        get_query_len(&[0x01, 0x10, 0x00, 0x05, 0x00, 0x02, 0x04]),
        LenResolution::Known(13)
    );
}

#[test]
fn query_len_write_multiple_coils() {
    assert_eq!(
        get_query_len(&[0x01, 0x0F, 0x00, 0x00, 0x00, 0x03, 0x01]),
        LenResolution::Known(10)
    );
}

#[test]
fn query_len_illegal_function() {
    assert_eq!(
        get_query_len(&[0x01, 0x07]),
        LenResolution::Refused(LenError::IllegalFunction)
    );
    assert_eq!(
        get_query_len(&[0x01, 0x55]),
        LenResolution::Refused(LenError::IllegalFunction)
    );
}

#[test]
fn query_len_oversized_byte_count() {
    // byte count 0xFF would mean a 264-byte frame, past the 256-byte buffer
    assert_eq!(
        get_query_len(&[0x01, 0x10, 0x00, 0x00, 0x00, 0x7B, 0xFF]),
        LenResolution::Refused(LenError::InvalidParameter)
    );
}

#[test]
fn response_delay_even_parity_one_stop() {
    // 11 bits per symbol at 9600 baud: 4 * 11 * 1000000 / 9600
    assert_eq!(response_delay_us(9600, 1, 1), 4583);
}

#[test]
fn response_delay_no_parity_two_stop() {
    assert_eq!(response_delay_us(1_000_000, 0, 2), 44);
}

#[test]
fn exception_codes() {
    assert_eq!(MbExc::IllegalFunction.code(), 1);
    assert_eq!(MbExc::IllegalDataAddress.code(), 2);
    assert_eq!(MbExc::IllegalDataValue.code(), 3);
    assert_eq!(MbExc::SlaveDeviceFailure.code(), 4);
    assert_eq!(MbExc::Acknowledge.code(), 5);
    assert_eq!(MbExc::SlaveDeviceBusy.code(), 6);
    assert_eq!(MbExc::MemoryParityError.code(), 8);
    assert_eq!(MbExc::GatewayPathUnavailable.code(), 0x0A);
    assert_eq!(MbExc::GatewayTargetDeviceFailedToRespond.code(), 0x0B);
}

#[test]
fn function_codes_roundtrip() {
    let funcs = [
        MbFunc::ReadCoils,
        MbFunc::ReadDiscreteInputs,
        MbFunc::ReadHoldingRegisters,
        MbFunc::ReadInputRegisters,
        MbFunc::WriteSingleCoil,
        MbFunc::WriteSingleRegister,
        MbFunc::WriteMultipleCoils,
        MbFunc::WriteMultipleRegisters,
    ];
    for f in funcs {
        assert_eq!(MbFunc::from_code(f.code()), Some(f));
    }
    assert_eq!(MbFunc::from_code(0x00), None);
    assert_eq!(MbFunc::from_code(0x07), None);
    assert_eq!(MbFunc::from_code(0x11), None);
}

#[test]
fn exception_with_message() {
    let e = MbExcWithMessage::new(MbExc::IllegalDataValue, "invalid quantity".to_owned());
    assert_eq!(e.exc, MbExc::IllegalDataValue);
    assert_eq!(e.message, "invalid quantity");
}
