//! The frame assembler: accumulates bytes from the channel, resolves the
//! expected frame length once, validates the CRC, dispatches the request,
//! and builds the response frame. The channel itself stays outside; this
//! state machine only consumes byte chunks and hands back response frames.

use vstd::prelude::*;

use crate::checksum::{crc, crc_spec};
use crate::codes::{exc_code, MbExc};
use crate::framing::{
    get_query_len, get_query_len_spec, len_error_exc, lemma_query_len_stable, LenError,
    LenResolution, IN_BUF_SIZE,
};
use crate::table::{
    fresh_table, process_spec, query_complete, table_wf, zero_bytes, RegisterTable, TableModel,
};
use crate::wire::{hi_byte, lo_byte};

verus! {

/// A byte sequence with its Modbus CRC appended, low byte first.
pub open spec fn with_crc(s: Seq<u8>) -> Seq<u8> {
    s + seq![lo_byte(crc_spec(s)), hi_byte(crc_spec(s))]
}

/// The exception response frame: slave id, function code with its high
/// bit set, the exception code, and the CRC.
pub open spec fn exception_frame(slave: u8, function: u8, e: MbExc) -> Seq<u8> {
    with_crc(seq![slave, function | 0x80, exc_code(e)])
}

/// The trailing two bytes of a complete frame are the little-endian CRC
/// of everything before them.
pub open spec fn crc_matches(f: Seq<u8>) -> bool
    recommends
        f.len() >= 2,
{
    let c = crc_spec(f.take(f.len() - 2));
    f[f.len() - 2] == lo_byte(c) && f[f.len() - 1] == hi_byte(c)
}

/// The mathematical model of the assembler: the table, the bytes of the
/// frame accumulated so far, and the cached resolved length, if any.
pub ghost struct AsmModel {
    pub table: TableModel,
    pub buf: Seq<u8>,
    pub expected: Option<usize>,
}

/// Well-formedness of the assembler model. A cached length is between 8
/// and the buffer capacity, agrees with what the resolver says of the
/// accumulated bytes, and has not been reached yet; with no cached length
/// the resolver cannot decide yet.
pub open spec fn asm_wf(m: AsmModel) -> bool {
    &&& table_wf(m.table)
    &&& m.buf.len() <= IN_BUF_SIZE
    &&& match m.expected {
        None => m.buf.len() < 2 || get_query_len_spec(m.buf) == LenResolution::NotYetKnown,
        Some(n) => 8 <= n <= IN_BUF_SIZE && m.buf.len() < n && get_query_len_spec(m.buf)
            == LenResolution::Known(n),
    }
}

/// How many further bytes the assembler wants: one at a time until the
/// length is resolved, then the remainder of the frame.
pub open spec fn read_target_of(m: AsmModel) -> int {
    match m.expected {
        None => 1,
        Some(n) => n - m.buf.len(),
    }
}

/// What one delivery of bytes does to the assembler: the next state and
/// the response frame to emit, if any. A frame whose length can never be
/// resolved draws an exception response; a complete frame with a CRC
/// mismatch is discarded silently; a complete valid frame is dispatched
/// and answered with a success or exception frame.
pub open spec fn accept_spec(m: AsmModel, data: Seq<u8>) -> (AsmModel, Option<Seq<u8>>) {
    let buf = m.buf + data;
    if buf.len() < 2 {
        (AsmModel { buf, ..m }, None)
    } else {
        let r = match m.expected {
            Some(n) => LenResolution::Known(n),
            None => get_query_len_spec(buf),
        };
        match r {
            LenResolution::NotYetKnown => (AsmModel { buf, expected: None, ..m }, None),
            LenResolution::Refused(e) => (
                AsmModel { buf: Seq::empty(), expected: None, ..m },
                Some(exception_frame(buf[0], buf[1], len_error_exc(e))),
            ),
            LenResolution::Known(n) => {
                if buf.len() < n {
                    (AsmModel { buf, expected: Some(n), ..m }, None)
                } else if !crc_matches(buf) {
                    (AsmModel { buf: Seq::empty(), expected: None, ..m }, None)
                } else {
                    let (t2, res) = process_spec(m.table, buf);
                    match res {
                        Ok(payload) => (
                            AsmModel { table: t2, buf: Seq::empty(), expected: None },
                            Some(with_crc(seq![buf[0], buf[1]] + payload)),
                        ),
                        Err(e) => (
                            AsmModel { table: t2, buf: Seq::empty(), expected: None },
                            Some(exception_frame(buf[0], buf[1], e)),
                        ),
                    }
                }
            },
        }
    }
}

/// Appends the Modbus CRC of the buffered response, low byte first.
pub fn add_crc(obuf: &mut Vec<u8>)
    ensures
        final(obuf)@ == with_crc(old(obuf)@),
{
    let c = crc(obuf.as_slice());
    obuf.push((c % 256) as u8);
    obuf.push((c / 256) as u8);
    proof {
        assert(obuf@ =~= with_crc(old(obuf)@));
    }
}

/// Builds the exception response frame for a failed request.
fn exception_response(slave: u8, function: u8, exc: MbExc) -> (v: Vec<u8>)
    ensures
        v@ == exception_frame(slave, function, exc),
{
    let mut v: Vec<u8> = Vec::new();
    v.push(slave);
    v.push(function | 0x80);
    v.push(exc.code());
    proof {
        assert(v@ =~= seq![slave, (function | 0x80) as u8, exc_code(exc)]);
    }
    add_crc(&mut v);
    v
}

/// The frame assembler: the register table, the inbound frame buffer, the
/// count of accumulated bytes, and the resolved frame length, if known.
pub struct Assembler {
    table: RegisterTable,
    query: Vec<u8>,
    pos: usize,
    expected_len: Option<usize>,
}

impl View for Assembler {
    type V = AsmModel;

    closed spec fn view(&self) -> AsmModel {
        AsmModel {
            table: self.table@,
            buf: self.query@.take(self.pos as int),
            expected: self.expected_len,
        }
    }
}

impl Assembler {
    /// Well-formedness: the physical buffer has the fixed frame capacity
    /// and the model invariant holds.
    pub closed spec fn wf(&self) -> bool {
        &&& self.query@.len() == IN_BUF_SIZE
        &&& self.pos <= IN_BUF_SIZE
        &&& asm_wf(self@)
    }

    /// A fresh assembler: zeroed tables, empty buffer, no resolved length.
    pub fn new() -> (a: Assembler)
        ensures
            a.wf(),
            a@ == (AsmModel {
                table: fresh_table(),
                buf: Seq::<u8>::empty(),
                expected: None,
            }),
    {
        let a = Assembler {
            table: RegisterTable::new(),
            query: zero_bytes(IN_BUF_SIZE),
            pos: 0,
            expected_len: None,
        };
        proof {
            assert(a@.buf =~= Seq::<u8>::empty());
        }
        a
    }

    /// How many further bytes to request from the channel.
    pub fn read_target(&self) -> (n: usize)
        requires
            self.wf(),
        ensures
            n == read_target_of(self@),
            1 <= n <= IN_BUF_SIZE,
    {
        match self.expected_len {
            None => 1,
            Some(len) => len - self.pos,
        }
    }

    /// A read error or timeout: the partial frame is discarded and the
    /// assembler returns to idle; the table is untouched.
    pub fn on_read_failure(&mut self)
        requires
            old(self).wf(),
        ensures
            final(self).wf(),
            final(self)@ == (AsmModel {
                table: old(self)@.table,
                buf: Seq::<u8>::empty(),
                expected: None,
            }),
    {
        self.pos = 0;
        self.expected_len = None;
        proof {
            assert(self@.buf =~= Seq::<u8>::empty());
        }
    }

    /// Consumes one delivery of bytes from the channel and returns the
    /// response frame to write back, if this delivery completed one.
    #[verifier::loop_isolation(false)]
    #[verifier::rlimit(100)]
    pub fn accept(&mut self, data: &[u8]) -> (resp: Option<Vec<u8>>)
        requires
            old(self).wf(),
            data@.len() <= read_target_of(old(self)@),
        ensures
            final(self).wf(),
            ({
                let (m2, r2) = accept_spec(old(self)@, data@);
                &&& final(self)@ == m2
                &&& match resp {
                    None => r2 is None,
                    Some(v) => r2 == Some(v@),
                }
            }),
    {
        let ghost m = self@;
        let ghost buf = m.buf + data@;
        proof {
            if m.expected is None && m.buf.len() >= 2 {
                assert(get_query_len_spec(m.buf) == LenResolution::NotYetKnown);
                assert(m.buf.len() < 7);
            }
        }
        proof {
            assert(m.buf + data@.take(0) =~= m.buf);
        }
        let mut k: usize = 0;
        while k < data.len()
            invariant
                k <= data@.len(),
                self.pos == m.buf.len(),
                self.query@.len() == IN_BUF_SIZE,
                self.table == old(self).table,
                self.expected_len == m.expected,
                self.query@.take(self.pos + k as int) == m.buf + data@.take(k as int),
            decreases data@.len() - k,
        {
            self.query[self.pos + k] = data[k];
            proof {
                assert(self.query@.take(self.pos + (k + 1)) =~= self.query@.take(
                    self.pos + k as int,
                ).push(data@[k as int]));
                assert(m.buf + data@.take(k + 1) =~= (m.buf + data@.take(k as int)).push(
                    data@[k as int],
                ));
            }
            k = k + 1;
        }
        self.pos = self.pos + data.len();
        proof {
            assert(self.query@.take(self.pos as int) == buf);
            assert(data@.take(data@.len() as int) =~= data@);
        }
        if self.pos < 2 {
            return None;
        }
        let slave = self.query[0];
        let function = self.query[1];
        let n: usize;
        match self.expected_len {
            Some(len) => {
                n = len;
                proof {
                    assert(buf.take(m.buf.len() as int) =~= m.buf);
                    lemma_query_len_stable(m.buf, buf, len);
                }
            },
            None => {
                let s: &[u8] = self.query.as_slice();
                let r = get_query_len(&s[0..self.pos]);
                match r {
                    LenResolution::NotYetKnown => {
                        return None;
                    },
                    LenResolution::Refused(e) => {
                        let exc = match e {
                            LenError::IllegalFunction => MbExc::IllegalFunction,
                            LenError::InvalidParameter => MbExc::IllegalDataValue,
                        };
                        let out = exception_response(slave, function, exc);
                        self.pos = 0;
                        self.expected_len = None;
                        proof {
                            assert(self@.buf =~= Seq::<u8>::empty());
                        }
                        return Some(out);
                    },
                    LenResolution::Known(len) => {
                        self.expected_len = Some(len);
                        n = len;
                    },
                }
            },
        }
        proof {
            assert(get_query_len_spec(buf) == LenResolution::Known(n));
        }
        if self.pos < n {
            return None;
        }
        proof {
            assert(self.pos == n);
            assert(buf.len() == n);
        }
        let s: &[u8] = self.query.as_slice();
        let c = crc(&s[0..n - 2]);
        proof {
            assert(s@.subrange(0, n - 2) =~= buf.take(n - 2));
        }
        if self.query[n - 2] != (c % 256) as u8 || self.query[n - 1] != (c / 256) as u8 {
            self.pos = 0;
            self.expected_len = None;
            proof {
                assert(self@.buf =~= Seq::<u8>::empty());
            }
            return None;
        }
        proof {
            // the resolver settled on this frame, so the dispatcher can
            // decode it: fixed functions fill 8 bytes, the write-multiple
            // functions carry their byte count and that many data bytes
            assert(query_complete(buf));
        }
        let frame: &[u8] = &s[0..n];
        proof {
            assert(frame@ =~= buf);
        }
        let out = match self.table.process_function_code(frame) {
            Ok(data_out) => {
                let mut obuf: Vec<u8> = Vec::new();
                obuf.push(slave);
                obuf.push(function);
                let mut d = data_out;
                obuf.append(&mut d);
                proof {
                    assert(obuf@ =~= seq![buf[0], buf[1]] + process_spec(
                        m.table,
                        buf,
                    ).1->Ok_0);
                }
                add_crc(&mut obuf);
                obuf
            },
            Err(e) => exception_response(slave, function, e.exc),
        };
        self.pos = 0;
        self.expected_len = None;
        proof {
            assert(self@.buf =~= Seq::<u8>::empty());
        }
        Some(out)
    }
}

} // verus!
