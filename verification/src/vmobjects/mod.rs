//! The objects of the running machine.

pub mod sclass;
pub mod sendable;
pub mod sobject;
pub mod ssymbol;

pub use self::sclass::SClass;
pub use self::sendable::Sendable;
pub use self::sobject::SObject;
pub use self::ssymbol::SSymbol;
