//! Timeout quantization and register-level control for the two hardware
//! watchdogs of an STM32WL microcontroller.
//!
//! The independent watchdog runs from the low-speed internal oscillator; the
//! window watchdog runs from the APB1 bus clock and additionally refuses
//! feeds that come too early. Both are driven here against plain-value models
//! of their register blocks, so that every register write a controller makes
//! is stated in its contract.

pub mod independent;
pub mod quantizer;
pub mod registers;
pub mod window;

pub use independent::IndependentWatchdog;
pub use quantizer::{Limits, WatchdogConfig};
pub use registers::{Dbgmcu, Iwdg, IwdgWrite, Nvic, Rcc, Wwdg, WwdgWrite};
pub use window::WindowWatchdog;
