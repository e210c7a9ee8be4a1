pub mod bitstring;
pub mod cache;
pub mod decode;
pub mod exec;
pub mod fpu;
pub mod state;

pub use cache::Cache;
pub use decode::{Condition, DecodeError, Format, Instruction, Op, decode, instruction_width};
pub use exec::{Exception, StepOutcome, Stop};
pub use fpu::FpFault;
pub use state::Cpu;
