//! Digital baseband for a 4-symbol QAM packet radio link.
//!
//! The library holds the verified core of the link: the 4-ary symbol
//! algebra, the preamble correlator that resolves the 90-degree carrier
//! ambiguity, the frame encoder and decoder, the integer countdown of the
//! symbol-timing loop, and the sample accounting of the modulator.  The
//! float signal path and the radio and tap endpoints live outside it.

pub mod clock_sync;
pub mod frame;
pub mod qam;
pub mod sym;
pub mod sym_sync;
