//! Real-time audio analysis core: the fixed band table and the mapping of
//! band frequencies onto spectrum bins, folding of a real-input spectrum,
//! a capacity-bounded history of readings, and input-device selection.
pub mod bands;
pub mod spectrum;
pub mod history;
pub mod device;
