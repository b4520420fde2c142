//! The collector and the publisher.
pub mod builder;
pub mod interface;
pub mod publisher;

pub use builder::{BuilderError, FirebaseInterfaceBuilder};
pub use interface::{FirebaseInterface, FirebaseInterfaceError};
pub use publisher::Publisher;
