//! Detection core for a contact-sensing autopsy-saw instrument.
//!
//! An electrode is driven by a 100 kHz square-wave excitation while an ADC
//! samples its voltage at 200 kS/s. Each burst of 4000 raw samples is reduced
//! to a single `u8` amplitude estimate, which feeds a rolling history and a
//! two-stage hysteretic state machine that confirms contact with a conductive
//! surface and, later, the end of that contact. A supervisor holds the global
//! mode (normal, alert, error, disabled) and decides how the status lights
//! and the acquisition pipeline must react to each transition.
//!
//! This crate holds the verified core: the counters, buffers, averaging,
//! detection machine, supervisor transitions and light patterns. The hardware
//! shell (DMA, PWM, GPIO, interrupt plumbing) lives outside and exchanges
//! plain values with these types.

pub mod buffer;
pub mod components;
pub mod interrupt;
