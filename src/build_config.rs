use vstd::prelude::*;

verus! {

/// Compiler toolchain pinned for ink! and Substrate pallet projects.
pub const INK_TOOLCHAIN: &'static str = "nightly-2023-12-16";

/// Compiler toolchain pinned for Soroban projects.
pub const SOROBAN_TOOLCHAIN: &'static str = "nightly-2024-07-11";

/// Compiler toolchain pinned for Aptos projects.
pub const APTOS_TOOLCHAIN: &'static str = "nightly-2024-07-11";

} // verus!
