//! Resilience core of a desktop voice and text assistant: error boundaries
//! with circuit breakers and recovery policies, a resource manager that
//! reclaims idle engines, and the input validation and catalogue data that
//! the surrounding application relies on.
pub mod text;
pub mod errors;
pub mod named;
pub mod error_boundary;
pub mod memory;
pub mod validation;
pub mod languages;
pub mod voice;
pub mod enhancement;
pub mod translation;
