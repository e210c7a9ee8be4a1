use vstd::prelude::*;

mod bits;
mod text;
pub mod interrupt;
pub mod wait;
pub mod cpu;
pub mod cart;
pub mod timer;
pub mod pad;
pub mod vip;
pub mod bus;
pub mod debug;
pub mod trace;

pub use bus::{Bus, Region};
pub use cart::{Cart, CartError, Header};
pub use cpu::{Condition, DecodeError, Format, Instruction, Op};

verus! {

pub const SCREEN_WIDTH: usize = 384;
pub const SCREEN_HEIGHT: usize = 224;
pub const FRAME_BUFFER_HEIGHT: usize = 256;

pub const RESET_PC: u32 = 0xFFFF_FFF0;
pub const RESET_PSW: u32 = 0x0000_8000;
pub const RESET_ECR: u32 = 0x0000_FFF0;

} // verus!
