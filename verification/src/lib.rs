//! Register-level model of the RISC-V Platform-Level Interrupt Controller
//! (PLIC).
//!
//! The PLIC aggregates up to 1024 external interrupt sources and routes them
//! to up to 15872 contexts (one privilege mode on one hart). This crate
//! provides:
//!
//! - the exact byte layout of the memory-mapped register file (the constants
//!   and offset functions of [`total_size`] and its companions), which any
//!   consumer overlaying real device memory relies on;
//! - [`Plic`], a word-for-word software model of the register file together
//!   with the hardware's own claim/complete state machine, whose operations
//!   carry full functional contracts: which bit or word moves, and that
//!   nothing else does;
//! - the [`InterruptSource`] and [`HartContext`] capabilities that resolve a
//!   caller's identifier types to the raw source id and context index the
//!   register file is addressed by.
//!
//! The model is the specification of the register semantics: a driver
//! talking to real hardware performs the same word transactions at the
//! offsets this crate states, while the model's state machine answers what
//! each transaction returns and changes.

mod bitmap;
mod ids;
mod layout;
mod registers;

pub use bitmap::bit32;
pub use bitmap::bitmap_bit;
pub use ids::HartContext;
pub use ids::InterruptSource;
pub use layout::claim_complete_offset;
pub use layout::enable_word_offset;
pub use layout::pending_word_offset;
pub use layout::priority_offset;
pub use layout::threshold_offset;
pub use layout::total_size;
pub use layout::CONTEXT_BASE;
pub use layout::CONTEXT_STRIDE;
pub use layout::COUNT_CONTEXT;
pub use layout::COUNT_SOURCE;
pub use layout::ENABLE_BASE;
pub use layout::ENABLE_WORDS;
pub use layout::PENDING_BASE;
pub use layout::PENDING_WORDS;
pub use layout::PRIORITY_BASE;
pub use layout::WORD_BITS;
pub use registers::enable_pos;
pub use registers::lemma_priority_zero_never_eligible;
pub use registers::lemma_threshold_gates_claim;
pub use registers::same_enables;
pub use registers::same_held;
pub use registers::same_pending;
pub use registers::same_priorities;
pub use registers::same_thresholds;
pub use registers::valid_context;
pub use registers::valid_source;
pub use registers::Plic;
