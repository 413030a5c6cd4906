//! The native agent core: what a model provider sends and how it is assembled.
pub mod private;
pub mod provider;
pub mod providers;
