//! Client side of the INDI device-control protocol: a decoder from XML
//! events to typed commands, and a store that folds those commands into
//! a snapshot of the remote devices.

pub mod codec;
pub mod decoder;
pub mod encoder;
pub mod fields;
pub mod frame;
pub mod grammar;
pub mod session;
pub mod store;
pub mod table;
pub mod text;
pub mod types;
pub mod xml;

pub use codec::Timestamp;
pub use decoder::CommandIter;
pub use encoder::XmlSerialization;
pub use frame::Framer;
pub use session::Failure;
pub use store::{Client, Device, UpdateError};
pub use types::{
    Command, DeError, DelProperty, Element, GetProperties, Kind, Message, Parameter, PropertyPerm,
    PropertyState, SwitchRule, SwitchState, Value, Verb,
};
