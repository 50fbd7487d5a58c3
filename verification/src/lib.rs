//! A small register-machine bytecode interpreter with machine-checked contracts.
//!
//! The machine has four general-purpose registers, an instruction pointer and a
//! stack pointer, a fixed-capacity operand stack, and a program of decoded
//! instructions. Input and output are byte queues owned by the machine, so the
//! engine itself never touches a real device.
//!
//! * [`isa`] names the registers, the instructions and the fault kinds.
//! * [`word`] defines arithmetic on machine words.
//! * [`state`] is the mathematical model: what every instruction, a single
//!   step and a bounded run do to a machine state.
//! * [`machine`] is the executable machine with its primitive operations,
//!   each proved against the model.
//! * [`engine`] dispatches instructions and drives the fetch-execute loop.
//! * [`laws`] states and proves general properties of the model.

pub mod engine;
pub mod isa;
pub mod laws;
pub mod machine;
pub mod state;
pub mod word;
