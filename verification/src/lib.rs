//! Interactive controller library for a single networked key light.
//!
//! The library holds the verified core of the controller: the light's
//! state model with its range invariants, the input-driven transition
//! rules of the control loop, and the JSON wire codec used to fetch and
//! push device state over the light's HTTP API.

pub mod app;
pub mod codec;
pub mod keylight;

pub use app::App;
