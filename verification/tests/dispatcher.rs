//! Tests of the request dispatcher: per-function semantics, the Modbus
//! bounds checks, and the exception codes each validation failure draws.

use modbus_rtu::{MbExc, RegisterTable};

fn read_holding(table: &mut RegisterTable, offset: u16, quantity: u16) -> Result<Vec<u8>, MbExc> {
    let q = [
        0x01,
        0x03,
        (offset >> 8) as u8,
        offset as u8,
        (quantity >> 8) as u8,
        quantity as u8,
    ];
    table.process_function_code(&q).map_err(|e| e.exc)
}

#[test]
fn read_holding_address_overrun() {
    let mut t = RegisterTable::new();
    // offset 1023, quantity 2: reaches past the 1024-entry table
    assert_eq!(read_holding(&mut t, 1023, 2), Err(MbExc::IllegalDataAddress));
}

#[test]
fn read_holding_to_table_end_is_allowed() {
    let mut t = RegisterTable::new();
    // offset 1022, quantity 2: reaches exactly the end of the table
    assert_eq!(read_holding(&mut t, 1022, 2), Ok(vec![4, 0, 0, 0, 0]));
}

#[test]
fn read_holding_quantity_zero() {
    let mut t = RegisterTable::new();
    assert_eq!(read_holding(&mut t, 0, 0), Err(MbExc::IllegalDataValue));
}

#[test]
fn read_holding_quantity_too_large() {
    let mut t = RegisterTable::new();
    assert_eq!(read_holding(&mut t, 0, 126), Err(MbExc::IllegalDataValue));
}

#[test]
fn read_coils_bounds() {
    let mut t = RegisterTable::new();
    let overrun = [0x01, 0x01, 0x03, 0xFF, 0x00, 0x02];
    assert_eq!(
        t.process_function_code(&overrun).map_err(|e| e.exc),
        Err(MbExc::IllegalDataAddress)
    );
    let too_many = [0x01, 0x01, 0x00, 0x00, 0x07, 0xD1];
    assert_eq!(
        t.process_function_code(&too_many).map_err(|e| e.exc),
        Err(MbExc::IllegalDataValue)
    );
}

#[test]
fn read_coils_fresh_table() {
    let mut t = RegisterTable::new();
    let q = [0x01, 0x01, 0x00, 0x00, 0x00, 0x03];
    assert_eq!(t.process_function_code(&q).unwrap(), vec![1, 0]);
}

#[test]
fn read_discrete_inputs_fresh_table() {
    let mut t = RegisterTable::new();
    let q = [0x01, 0x02, 0x00, 0x00, 0x00, 0x0A];
    assert_eq!(t.process_function_code(&q).unwrap(), vec![2, 0, 0]);
}

#[test]
fn read_input_registers_fresh_table() {
    let mut t = RegisterTable::new();
    let q = [0x01, 0x04, 0x00, 0x00, 0x00, 0x02];
    assert_eq!(t.process_function_code(&q).unwrap(), vec![4, 0, 0, 0, 0]);
}

#[test]
fn unknown_function_code() {
    let mut t = RegisterTable::new();
    let q = [0x01, 0x55, 0x00, 0x00, 0x00, 0x01];
    assert_eq!(
        t.process_function_code(&q).map_err(|e| e.exc),
        Err(MbExc::IllegalFunction)
    );
}

#[test]
fn write_single_coil_and_read_back() {
    let mut t = RegisterTable::new();
    let w = [0x01, 0x05, 0x00, 0x03, 0xFF, 0x00];
    // success echoes the offset and value
    assert_eq!(t.process_function_code(&w).unwrap(), vec![0x00, 0x03, 0xFF, 0x00]);
    let r = [0x01, 0x01, 0x00, 0x00, 0x00, 0x04];
    assert_eq!(t.process_function_code(&r).unwrap(), vec![1, 0b1000]);
}

#[test]
fn write_single_coil_off() {
    let mut t = RegisterTable::new();
    let on = [0x01, 0x05, 0x00, 0x00, 0xFF, 0x00];
    t.process_function_code(&on).unwrap();
    let off = [0x01, 0x05, 0x00, 0x00, 0x00, 0x00];
    assert_eq!(t.process_function_code(&off).unwrap(), vec![0x00, 0x00, 0x00, 0x00]);
    let r = [0x01, 0x01, 0x00, 0x00, 0x00, 0x01];
    assert_eq!(t.process_function_code(&r).unwrap(), vec![1, 0]);
}

#[test]
fn write_single_coil_invalid_value() {
    let mut t = RegisterTable::new();
    let w = [0x01, 0x05, 0x00, 0x00, 0x12, 0x34];
    assert_eq!(
        t.process_function_code(&w).map_err(|e| e.exc),
        Err(MbExc::IllegalDataValue)
    );
}

#[test]
fn write_single_coil_address_overrun() {
    let mut t = RegisterTable::new();
    let w = [0x01, 0x05, 0x04, 0x00, 0xFF, 0x00];
    assert_eq!(
        t.process_function_code(&w).map_err(|e| e.exc),
        Err(MbExc::IllegalDataAddress)
    );
}

#[test]
fn write_single_register_and_read_back() {
    let mut t = RegisterTable::new();
    let w = [0x01, 0x06, 0x00, 0x0A, 0x12, 0x34];
    assert_eq!(t.process_function_code(&w).unwrap(), vec![0x00, 0x0A, 0x12, 0x34]);
    assert_eq!(read_holding(&mut t, 10, 1).unwrap(), vec![2, 0x12, 0x34]);
}

#[test]
fn write_single_register_address_overrun() {
    let mut t = RegisterTable::new();
    let w = [0x01, 0x06, 0x04, 0x00, 0x12, 0x34];
    assert_eq!(
        t.process_function_code(&w).map_err(|e| e.exc),
        Err(MbExc::IllegalDataAddress)
    );
}

#[test]
fn write_multiple_coils_and_read_back() {
    let mut t = RegisterTable::new();
    let w = [0x01, 0x0F, 0x00, 0x00, 0x00, 0x03, 0x01, 0b101];
    assert_eq!(t.process_function_code(&w).unwrap(), vec![0x00, 0x00, 0x00, 0x03]);
    let r = [0x01, 0x01, 0x00, 0x00, 0x00, 0x03];
    assert_eq!(t.process_function_code(&r).unwrap(), vec![1, 0b101]);
}

#[test]
fn write_multiple_coils_byte_count_mismatch() {
    let mut t = RegisterTable::new();
    let w = [0x01, 0x0F, 0x00, 0x00, 0x00, 0x03, 0x02, 0b101, 0x00];
    assert_eq!(
        t.process_function_code(&w).map_err(|e| e.exc),
        Err(MbExc::IllegalDataValue)
    );
}

#[test]
fn write_multiple_coils_quantity_too_large() {
    // quantity 0x07B1 is over the 0x07B0 limit; byte count field consistent
    let mut t = RegisterTable::new();
    let mut w = vec![0x01, 0x0F, 0x00, 0x00, 0x07, 0xB1, 0xF7];
    w.extend(std::iter::repeat(0).take(0xF7));
    assert_eq!(
        t.process_function_code(&w).map_err(|e| e.exc),
        Err(MbExc::IllegalDataValue)
    );
}

#[test]
fn write_multiple_coils_address_overrun() {
    let mut t = RegisterTable::new();
    let w = [0x01, 0x0F, 0x03, 0xFF, 0x00, 0x02, 0x01, 0b11];
    assert_eq!(
        t.process_function_code(&w).map_err(|e| e.exc),
        Err(MbExc::IllegalDataAddress)
    );
}

#[test]
fn write_multiple_registers_and_read_back() {
    let mut t = RegisterTable::new();
    let w = [0x01, 0x10, 0x00, 0x05, 0x00, 0x02, 0x04, 0xAB, 0xCD, 0x12, 0x34];
    assert_eq!(t.process_function_code(&w).unwrap(), vec![0x00, 0x05, 0x00, 0x02]);
    assert_eq!(read_holding(&mut t, 5, 2).unwrap(), vec![4, 0xAB, 0xCD, 0x12, 0x34]);
    // neighbours untouched
    assert_eq!(read_holding(&mut t, 4, 1).unwrap(), vec![2, 0, 0]);
    assert_eq!(read_holding(&mut t, 7, 1).unwrap(), vec![2, 0, 0]);
}

#[test]
fn write_multiple_registers_byte_count_mismatch() {
    let mut t = RegisterTable::new();
    let w = [0x01, 0x10, 0x00, 0x05, 0x00, 0x02, 0x03, 0xAB, 0xCD, 0x12];
    assert_eq!(
        t.process_function_code(&w).map_err(|e| e.exc),
        Err(MbExc::IllegalDataValue)
    );
}

#[test]
fn write_multiple_registers_quantity_too_large() {
    let mut t = RegisterTable::new();
    let mut w = vec![0x01, 0x10, 0x00, 0x00, 0x00, 0x7C, 0xF8];
    w.extend(std::iter::repeat(0).take(0xF8));
    assert_eq!(
        t.process_function_code(&w).map_err(|e| e.exc),
        Err(MbExc::IllegalDataValue)
    );
}

#[test]
fn write_multiple_registers_address_overrun() {
    let mut t = RegisterTable::new();
    let w = [0x01, 0x10, 0x03, 0xFF, 0x00, 0x02, 0x04, 0xAB, 0xCD, 0x12, 0x34];
    assert_eq!(
        t.process_function_code(&w).map_err(|e| e.exc),
        Err(MbExc::IllegalDataAddress)
    );
}

#[test]
fn repeated_reads_identical() {
    let mut t = RegisterTable::new();
    let w = [0x01, 0x10, 0x00, 0x05, 0x00, 0x02, 0x04, 0xAB, 0xCD, 0x12, 0x34];
    t.process_function_code(&w).unwrap();
    let first = read_holding(&mut t, 0, 16).unwrap();
    let second = read_holding(&mut t, 0, 16).unwrap();
    assert_eq!(first, second);
    let coils = [0x01, 0x01, 0x00, 0x00, 0x00, 0x10];
    let c1 = t.process_function_code(&coils).unwrap();
    let c2 = t.process_function_code(&coils).unwrap();
    assert_eq!(c1, c2);
}
