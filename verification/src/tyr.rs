//! The Tyr GPU driver.

pub mod driver;
pub mod gem;
pub mod io;
pub mod mmu;
pub mod regs;
pub mod reset;
pub mod slot;
