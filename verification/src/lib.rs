//! A verified Modbus RTU slave core: CRC-16 checksums, coil bit packing,
//! frame length resolution, request dispatch over a register table, and the
//! frame-assembly state machine that turns raw bytes into response frames.

pub mod assembler;
pub mod bits;
pub mod codes;
pub mod framing;
pub mod timing;
pub mod table;
pub mod wire;
pub mod checksum;

pub use assembler::add_crc;
pub use assembler::Assembler;
pub use bits::pack_bits;
pub use bits::unpack_bits;
pub use checksum::crc;
pub use checksum::crc_spec;
pub use codes::MbExc;
pub use codes::MbExcWithMessage;
pub use codes::MbFunc;
pub use framing::get_query_len;
pub use framing::LenError;
pub use framing::LenResolution;
pub use framing::IN_BUF_SIZE;
pub use timing::response_delay_us;
pub use table::RegisterTable;
pub use table::N_COILS;
pub use table::N_DISCRETE_INPUTS;
pub use table::N_HOLDING_REGISTERS;
pub use table::N_INPUT_REGISTERS;
