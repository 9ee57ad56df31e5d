//! Ion Sense core: the typed alert contract, the central duplicate filter and
//! event queue, detector decision logic, settings sanitisation and
//! OS-credential handling, each stated with contracts and proved by Verus.

pub mod event;
pub mod text;
pub mod paths;
pub mod dispatcher;
pub mod credentials;
pub mod settings;
pub mod detectors;
pub mod window;
