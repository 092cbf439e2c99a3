//! The register table and the request dispatcher: the four data tables,
//! each supported function code's read/write semantics, the Modbus bounds
//! checks, and the success payloads.

use vstd::prelude::*;

use crate::bits::{is_bits, lemma_unpack_is_bits, pack_bits, pack_spec, unpack_bits, unpack_spec};
use crate::codes::{spec_func_from_code, MbExc, MbExcWithMessage, MbFunc};
use crate::wire::{be16, hi_byte, lo_byte, read_be16};

verus! {

pub const N_DISCRETE_INPUTS: usize = 1024;

pub const N_COILS: usize = 1024;

pub const N_INPUT_REGISTERS: usize = 1024;

pub const N_HOLDING_REGISTERS: usize = 1024;

/// The mathematical model of the four data tables.
pub ghost struct TableModel {
    pub discrete_inputs: Seq<u8>,
    pub coils: Seq<u8>,
    pub input_registers: Seq<u16>,
    pub holding_registers: Seq<u16>,
}

/// Well-formedness of the model: fixed table lengths, bit tables holding
/// only 0 or 1.
pub open spec fn table_wf(m: TableModel) -> bool {
    &&& m.discrete_inputs.len() == N_DISCRETE_INPUTS
    &&& is_bits(m.discrete_inputs)
    &&& m.coils.len() == N_COILS
    &&& is_bits(m.coils)
    &&& m.input_registers.len() == N_INPUT_REGISTERS
    &&& m.holding_registers.len() == N_HOLDING_REGISTERS
}

/// A freshly initialized table: every coil, input and register zero.
pub open spec fn fresh_table() -> TableModel {
    TableModel {
        discrete_inputs: Seq::new(N_DISCRETE_INPUTS as nat, |i: int| 0u8),
        coils: Seq::new(N_COILS as nat, |i: int| 0u8),
        input_registers: Seq::new(N_INPUT_REGISTERS as nat, |i: int| 0u16),
        holding_registers: Seq::new(N_HOLDING_REGISTERS as nat, |i: int| 0u16),
    }
}

/// `tbl` with `vals` written in place starting at `off`.
pub open spec fn splice<T>(tbl: Seq<T>, off: int, vals: Seq<T>) -> Seq<T> {
    Seq::new(
        tbl.len(),
        |i: int|
            if off <= i < off + vals.len() {
                vals[i - off]
            } else {
                tbl[i]
            },
    )
}

/// Registers serialized big-endian: high byte, then low byte, per value.
pub open spec fn regs_to_be(regs: Seq<u16>) -> Seq<u8> {
    Seq::new(
        (2 * regs.len()) as nat,
        |i: int|
            if i % 2 == 0 {
                hi_byte(regs[i / 2])
            } else {
                lo_byte(regs[i / 2])
            },
    )
}

/// The requested offset: bytes 2 and 3 of the frame, big-endian.
pub open spec fn req_offset(q: Seq<u8>) -> int {
    be16(q[2], q[3]) as int
}

/// The requested quantity (or, for the single writes, the value):
/// bytes 4 and 5 of the frame, big-endian.
pub open spec fn req_quantity(q: Seq<u8>) -> int {
    be16(q[4], q[5]) as int
}

/// The result of a bit-table read: quantity must lie in [1, 2000], the
/// range must fit the table, and the payload is a byte count followed by
/// the packed bits.
pub open spec fn read_bits_result(tbl: Seq<u8>, off: int, qty: int) -> Result<Seq<u8>, MbExc> {
    if qty < 1 || qty > 2000 {
        Err(MbExc::IllegalDataValue)
    } else if off + qty > tbl.len() {
        Err(MbExc::IllegalDataAddress)
    } else {
        Ok(seq![(((qty + 7) / 8) as u8)] + pack_spec(tbl.subrange(off, off + qty)))
    }
}

/// The result of a register-table read: quantity must lie in [1, 125], the
/// range must fit the table, and the payload is a byte count followed by
/// the big-endian register values.
pub open spec fn read_regs_result(tbl: Seq<u16>, off: int, qty: int) -> Result<Seq<u8>, MbExc> {
    if qty < 1 || qty > 125 {
        Err(MbExc::IllegalDataValue)
    } else if off + qty > tbl.len() {
        Err(MbExc::IllegalDataAddress)
    } else {
        Ok(seq![((2 * qty) as u8)] + regs_to_be(tbl.subrange(off, off + qty)))
    }
}

/// Enough of the frame is present for the dispatcher to decode it: the
/// fixed-position header fields, and for the write-multiple functions the
/// byte-count field and that many data bytes.
pub open spec fn query_complete(q: Seq<u8>) -> bool {
    &&& q.len() >= 2
    &&& match spec_func_from_code(q[1]) {
        Some(MbFunc::WriteMultipleCoils) | Some(MbFunc::WriteMultipleRegisters) => q.len() >= 7
            && q.len() >= 7 + q[6],
        Some(_) => q.len() >= 6,
        None => true,
    }
}

/// What processing a request frame does: the new table, and either the
/// success payload (without slave id and function code) or the exception
/// code. Writes take effect only when every validation passes.
pub open spec fn process_spec(m: TableModel, q: Seq<u8>) -> (TableModel, Result<Seq<u8>, MbExc>) {
    let off = req_offset(q);
    let qty = req_quantity(q);
    match spec_func_from_code(q[1]) {
        Some(MbFunc::ReadCoils) => (m, read_bits_result(m.coils, off, qty)),
        Some(MbFunc::ReadDiscreteInputs) => (m, read_bits_result(m.discrete_inputs, off, qty)),
        Some(MbFunc::ReadHoldingRegisters) => (m, read_regs_result(m.holding_registers, off, qty)),
        Some(MbFunc::ReadInputRegisters) => (m, read_regs_result(m.input_registers, off, qty)),
        Some(MbFunc::WriteSingleCoil) => {
            if off >= m.coils.len() {
                (m, Err(MbExc::IllegalDataAddress))
            } else if qty != 0x0000 && qty != 0xFF00 {
                (m, Err(MbExc::IllegalDataValue))
            } else {
                (
                    TableModel {
                        coils: m.coils.update(
                            off,
                            if qty == 0 {
                                0u8
                            } else {
                                1u8
                            },
                        ),
                        ..m
                    },
                    Ok(q.subrange(2, 6)),
                )
            }
        },
        Some(MbFunc::WriteSingleRegister) => {
            if off >= m.holding_registers.len() {
                (m, Err(MbExc::IllegalDataAddress))
            } else {
                (
                    TableModel {
                        holding_registers: m.holding_registers.update(off, be16(q[4], q[5])),
                        ..m
                    },
                    Ok(q.subrange(2, 6)),
                )
            }
        },
        Some(MbFunc::WriteMultipleCoils) => {
            let bc = q[6] as int;
            if qty < 1 || qty > 0x07B0 {
                (m, Err(MbExc::IllegalDataValue))
            } else if bc != (qty + 7) / 8 {
                (m, Err(MbExc::IllegalDataValue))
            } else if off + qty > m.coils.len() {
                (m, Err(MbExc::IllegalDataAddress))
            } else {
                (
                    TableModel {
                        coils: splice(
                            m.coils,
                            off,
                            unpack_spec(q.subrange(7, 7 + bc), qty as nat),
                        ),
                        ..m
                    },
                    Ok(q.subrange(2, 6)),
                )
            }
        },
        Some(MbFunc::WriteMultipleRegisters) => {
            let bc = q[6] as int;
            if qty < 1 || qty > 123 {
                (m, Err(MbExc::IllegalDataValue))
            } else if bc != 2 * qty {
                (m, Err(MbExc::IllegalDataValue))
            } else if off + qty > m.holding_registers.len() {
                (m, Err(MbExc::IllegalDataAddress))
            } else {
                (
                    TableModel {
                        holding_registers: splice(
                            m.holding_registers,
                            off,
                            Seq::new(qty as nat, |j: int| be16(q[7 + 2 * j], q[8 + 2 * j])),
                        ),
                        ..m
                    },
                    Ok(q.subrange(2, 6)),
                )
            }
        },
        None => (m, Err(MbExc::IllegalFunction)),
    }
}

/// A read request never changes the table, so repeating it against an
/// unmodified table returns the identical result.
pub proof fn lemma_read_requests_idempotent(m: TableModel, q: Seq<u8>)
    requires
        q.len() >= 2,
        q[1] == 0x01 || q[1] == 0x02 || q[1] == 0x03 || q[1] == 0x04,
    ensures
        ({
            let (m1, r1) = process_spec(m, q);
            let (m2, r2) = process_spec(m1, q);
            m1 == m && m2 == m && r2 == r1
        }),
{
}

/// The bounds policy of Read Holding Registers: a quantity outside
/// [1, 125] is an illegal data value; a valid quantity whose range runs
/// past the end of the table is an illegal data address.
pub proof fn lemma_read_holding_bounds(m: TableModel, q: Seq<u8>)
    requires
        q.len() >= 6,
        q[1] == 0x03,
    ensures
        req_quantity(q) == 0 || req_quantity(q) > 125 ==> process_spec(m, q).1 == Err::<
            Seq<u8>,
            MbExc,
        >(MbExc::IllegalDataValue),
        1 <= req_quantity(q) <= 125 && req_offset(q) + req_quantity(q)
            > m.holding_registers.len() ==> process_spec(m, q).1 == Err::<Seq<u8>, MbExc>(
            MbExc::IllegalDataAddress,
        ),
{
}

/// The payload of a bit-table read, or the exception its validation hits.
fn read_bits_payload(tbl: &Vec<u8>, offset: usize, quantity: usize) -> (r: Result<
    Vec<u8>,
    MbExcWithMessage,
>)
    requires
        is_bits(tbl@),
        offset <= 0xFFFF,
        quantity <= 0xFFFF,
    ensures
        match r {
            Ok(v) => read_bits_result(tbl@, offset as int, quantity as int) == Ok::<Seq<u8>, MbExc>(
                v@,
            ),
            Err(e) => read_bits_result(tbl@, offset as int, quantity as int) == Err::<
                Seq<u8>,
                MbExc,
            >(e.exc),
        },
{
    if quantity == 0 || quantity > 2000 {
        return Err(MbExcWithMessage::new(MbExc::IllegalDataValue, "invalid quantity".to_owned()));
    }
    if offset + quantity > tbl.len() {
        return Err(
            MbExcWithMessage::new(MbExc::IllegalDataAddress, "address out of range".to_owned()),
        );
    }
    let n_bytes = (quantity + 7) / 8;
    let mut odat: Vec<u8> = Vec::new();
    odat.push(n_bytes as u8);
    let s: &[u8] = tbl.as_slice();
    let part: &[u8] = &s[offset..offset + quantity];
    proof {
        assert forall|i: int| 0 <= i < part@.len() implies part@[i] <= 1 by {
            assert(part@[i] == tbl@[offset + i]);
        }
    }
    pack_bits(part, &mut odat);
    proof {
        assert(odat@ =~= seq![(((quantity + 7) / 8) as u8)] + pack_spec(
            tbl@.subrange(offset as int, offset + quantity as int),
        ));
    }
    Ok(odat)
}

/// The payload of a register-table read, or the exception its validation
/// hits.
#[verifier::loop_isolation(false)]
fn read_regs_payload(tbl: &Vec<u16>, offset: usize, quantity: usize) -> (r: Result<
    Vec<u8>,
    MbExcWithMessage,
>)
    requires
        offset <= 0xFFFF,
        quantity <= 0xFFFF,
    ensures
        match r {
            Ok(v) => read_regs_result(tbl@, offset as int, quantity as int) == Ok::<Seq<u8>, MbExc>(
                v@,
            ),
            Err(e) => read_regs_result(tbl@, offset as int, quantity as int) == Err::<
                Seq<u8>,
                MbExc,
            >(e.exc),
        },
{
    if quantity == 0 || quantity > 125 {
        return Err(MbExcWithMessage::new(MbExc::IllegalDataValue, "invalid quantity".to_owned()));
    }
    if offset + quantity > tbl.len() {
        return Err(
            MbExcWithMessage::new(MbExc::IllegalDataAddress, "address out of range".to_owned()),
        );
    }
    let ghost sub = tbl@.subrange(offset as int, offset + quantity as int);
    let byte_count = quantity * 2;
    let mut odat: Vec<u8> = Vec::new();
    odat.push(byte_count as u8);
    let mut j: usize = 0;
    while j < quantity
        invariant
            j <= quantity,
            odat@ == seq![((2 * quantity) as u8)] + regs_to_be(sub).take(2 * j as int),
        decreases quantity - j,
    {
        let v = tbl[offset + j];
        odat.push((v / 256) as u8);
        odat.push((v % 256) as u8);
        proof {
            assert(sub[j as int] == tbl@[offset + j]);
            assert(regs_to_be(sub)[2 * j as int] == hi_byte(sub[j as int]));
            assert(regs_to_be(sub)[2 * j + 1] == lo_byte(sub[j as int]));
            assert(regs_to_be(sub).take(2 * (j + 1)) =~= regs_to_be(sub).take(2 * j as int).push(
                hi_byte(sub[j as int]),
            ).push(lo_byte(sub[j as int])));
        }
        j = j + 1;
    }
    proof {
        assert(regs_to_be(sub).take(2 * quantity as int) =~= regs_to_be(sub));
    }
    Ok(odat)
}

/// The echoed header fields: bytes 2 to 5 of the request.
fn echo_payload(query: &[u8]) -> (v: Vec<u8>)
    requires
        query@.len() >= 6,
    ensures
        v@ == query@.subrange(2, 6),
{
    let mut v: Vec<u8> = Vec::new();
    v.push(query[2]);
    v.push(query[3]);
    v.push(query[4]);
    v.push(query[5]);
    proof {
        assert(v@ =~= query@.subrange(2, 6));
    }
    v
}

/// The four data tables of the slave.
pub struct RegisterTable {
    discrete_inputs: Vec<u8>,
    coils: Vec<u8>,
    input_registers: Vec<u16>,
    holding_registers: Vec<u16>,
}

impl View for RegisterTable {
    type V = TableModel;

    closed spec fn view(&self) -> TableModel {
        TableModel {
            discrete_inputs: self.discrete_inputs@,
            coils: self.coils@,
            input_registers: self.input_registers@,
            holding_registers: self.holding_registers@,
        }
    }
}

pub(crate) fn zero_bytes(n: usize) -> (v: Vec<u8>)
    ensures
        v@ == Seq::new(n as nat, |i: int| 0u8),
{
    let mut v: Vec<u8> = Vec::new();
    let mut i: usize = 0;
    while i < n
        invariant
            i <= n,
            v@ == Seq::new(i as nat, |j: int| 0u8),
        decreases n - i,
    {
        v.push(0);
        proof {
            assert(Seq::new((i + 1) as nat, |j: int| 0u8) =~= Seq::new(i as nat, |j: int| 0u8).push(
                0u8,
            ));
        }
        i = i + 1;
    }
    v
}

fn zero_words(n: usize) -> (v: Vec<u16>)
    ensures
        v@ == Seq::new(n as nat, |i: int| 0u16),
{
    let mut v: Vec<u16> = Vec::new();
    let mut i: usize = 0;
    while i < n
        invariant
            i <= n,
            v@ == Seq::new(i as nat, |j: int| 0u16),
        decreases n - i,
    {
        v.push(0);
        proof {
            assert(Seq::new((i + 1) as nat, |j: int| 0u16) =~= Seq::new(
                i as nat,
                |j: int| 0u16,
            ).push(0u16));
        }
        i = i + 1;
    }
    v
}

impl RegisterTable {
    /// Well-formedness: the four tables have their fixed lengths and the
    /// bit tables hold only 0 or 1.
    pub open spec fn wf(&self) -> bool {
        table_wf(self@)
    }

    /// A freshly initialized table, all values zero.
    pub fn new() -> (t: RegisterTable)
        ensures
            t.wf(),
            t@ == fresh_table(),
    {
        RegisterTable {
            discrete_inputs: zero_bytes(N_DISCRETE_INPUTS),
            coils: zero_bytes(N_COILS),
            input_registers: zero_words(N_INPUT_REGISTERS),
            holding_registers: zero_words(N_HOLDING_REGISTERS),
        }
    }

    /// Dispatches a validated request frame: decodes the header fields of
    /// its function code, validates them against the Modbus limits and the
    /// table bounds, performs the operation, and returns the response
    /// payload (without slave id and function code) or the exception.
    /// Writes mutate the table only after every validation passes.
    #[verifier::loop_isolation(false)]
    pub fn process_function_code(&mut self, query: &[u8]) -> (r: Result<Vec<u8>, MbExcWithMessage>)
        requires
            old(self).wf(),
            query_complete(query@),
        ensures
            final(self).wf(),
            final(self)@ == process_spec(old(self)@, query@).0,
            match r {
                Ok(v) => process_spec(old(self)@, query@).1 == Ok::<Seq<u8>, MbExc>(v@),
                Err(e) => process_spec(old(self)@, query@).1 == Err::<Seq<u8>, MbExc>(e.exc),
            },
    {
        let function = query[1];
        match MbFunc::from_code(function) {
            Some(MbFunc::ReadCoils) => {
                let offset = read_be16(query[2], query[3]) as usize;
                let quantity = read_be16(query[4], query[5]) as usize;
                read_bits_payload(&self.coils, offset, quantity)
            },
            Some(MbFunc::ReadDiscreteInputs) => {
                let offset = read_be16(query[2], query[3]) as usize;
                let quantity = read_be16(query[4], query[5]) as usize;
                read_bits_payload(&self.discrete_inputs, offset, quantity)
            },
            Some(MbFunc::ReadHoldingRegisters) => {
                let offset = read_be16(query[2], query[3]) as usize;
                let quantity = read_be16(query[4], query[5]) as usize;
                read_regs_payload(&self.holding_registers, offset, quantity)
            },
            Some(MbFunc::ReadInputRegisters) => {
                let offset = read_be16(query[2], query[3]) as usize;
                let quantity = read_be16(query[4], query[5]) as usize;
                read_regs_payload(&self.input_registers, offset, quantity)
            },
            Some(MbFunc::WriteSingleCoil) => {
                let offset = read_be16(query[2], query[3]) as usize;
                let value = read_be16(query[4], query[5]);
                if offset >= N_COILS {
                    return Err(
                        MbExcWithMessage::new(
                            MbExc::IllegalDataAddress,
                            "address out of range".to_owned(),
                        ),
                    );
                }
                if value != 0x0000 && value != 0xFF00 {
                    return Err(
                        MbExcWithMessage::new(
                            MbExc::IllegalDataValue,
                            "invalid coil value".to_owned(),
                        ),
                    );
                }
                let bit: u8 = if value == 0 {
                    0
                } else {
                    1
                };
                self.coils[offset] = bit;
                Ok(echo_payload(query))
            },
            Some(MbFunc::WriteSingleRegister) => {
                let offset = read_be16(query[2], query[3]) as usize;
                let value = read_be16(query[4], query[5]);
                if offset >= N_HOLDING_REGISTERS {
                    return Err(
                        MbExcWithMessage::new(
                            MbExc::IllegalDataAddress,
                            "address out of range".to_owned(),
                        ),
                    );
                }
                self.holding_registers[offset] = value;
                Ok(echo_payload(query))
            },
            Some(MbFunc::WriteMultipleCoils) => {
                let offset = read_be16(query[2], query[3]) as usize;
                let quantity = read_be16(query[4], query[5]) as usize;
                let byte_count = query[6] as usize;
                if quantity == 0 || quantity > 0x07B0 {
                    return Err(
                        MbExcWithMessage::new(
                            MbExc::IllegalDataValue,
                            "invalid quantity".to_owned(),
                        ),
                    );
                }
                if byte_count != (quantity + 7) / 8 {
                    return Err(
                        MbExcWithMessage::new(
                            MbExc::IllegalDataValue,
                            "byte count does not match quantity".to_owned(),
                        ),
                    );
                }
                if offset + quantity > N_COILS {
                    return Err(
                        MbExcWithMessage::new(
                            MbExc::IllegalDataAddress,
                            "address out of range".to_owned(),
                        ),
                    );
                }
                let s: &[u8] = query;
                let src: &[u8] = &s[7..7 + byte_count];
                let mut bits_v: Vec<u8> = Vec::new();
                unpack_bits(src, quantity, &mut bits_v);
                let ghost newbits = unpack_spec(
                    query@.subrange(7, 7 + byte_count as int),
                    quantity as nat,
                );
                let ghost m0 = self@;
                let mut j: usize = 0;
                while j < quantity
                    invariant
                        j <= quantity,
                        self@.coils == splice(m0.coils, offset as int, newbits.take(j as int)),
                        self@.discrete_inputs == m0.discrete_inputs,
                        self@.input_registers == m0.input_registers,
                        self@.holding_registers == m0.holding_registers,
                    decreases quantity - j,
                {
                    self.coils[offset + j] = bits_v[j];
                    proof {
                        assert(splice(m0.coils, offset as int, newbits.take(j + 1)) =~= splice(
                            m0.coils,
                            offset as int,
                            newbits.take(j as int),
                        ).update(offset + j, newbits[j as int]));
                    }
                    j = j + 1;
                }
                proof {
                    lemma_unpack_is_bits(query@.subrange(7, 7 + byte_count as int), quantity as nat);
                    assert(newbits.take(quantity as int) =~= newbits);
                }
                Ok(echo_payload(query))
            },
            Some(MbFunc::WriteMultipleRegisters) => {
                let offset = read_be16(query[2], query[3]) as usize;
                let quantity = read_be16(query[4], query[5]) as usize;
                let byte_count = query[6] as usize;
                if quantity == 0 || quantity > 123 {
                    return Err(
                        MbExcWithMessage::new(
                            MbExc::IllegalDataValue,
                            "invalid quantity".to_owned(),
                        ),
                    );
                }
                if byte_count != quantity * 2 {
                    return Err(
                        MbExcWithMessage::new(
                            MbExc::IllegalDataValue,
                            "byte count does not match quantity".to_owned(),
                        ),
                    );
                }
                if offset + quantity > N_HOLDING_REGISTERS {
                    return Err(
                        MbExcWithMessage::new(
                            MbExc::IllegalDataAddress,
                            "address out of range".to_owned(),
                        ),
                    );
                }
                let ghost vals = Seq::new(
                    quantity as nat,
                    |j: int| be16(query@[7 + 2 * j], query@[8 + 2 * j]),
                );
                let ghost m0 = self@;
                let mut j: usize = 0;
                while j < quantity
                    invariant
                        j <= quantity,
                        self@.holding_registers == splice(
                            m0.holding_registers,
                            offset as int,
                            vals.take(j as int),
                        ),
                        self@.discrete_inputs == m0.discrete_inputs,
                        self@.input_registers == m0.input_registers,
                        self@.coils == m0.coils,
                    decreases quantity - j,
                {
                    let v = read_be16(query[7 + 2 * j], query[7 + 2 * j + 1]);
                    self.holding_registers[offset + j] = v;
                    proof {
                        assert(splice(m0.holding_registers, offset as int, vals.take(j + 1)) =~=
                            splice(
                            m0.holding_registers,
                            offset as int,
                            vals.take(j as int),
                        ).update(offset + j, vals[j as int]));
                    }
                    j = j + 1;
                }
                proof {
                    assert(vals.take(quantity as int) =~= vals);
                }
                Ok(echo_payload(query))
            },
            None => Err(
                MbExcWithMessage::new(MbExc::IllegalFunction, "illegal function code".to_owned()),
            ),
        }
    }
}

} // verus!
