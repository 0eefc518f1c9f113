use vstd::prelude::*;

verus! {

/// The error kinds this library surfaces.
///
/// `InvalidInput` covers a malformed URI or path, an unparsable
/// configuration value, and a backend construction failure; its message
/// carries the offending raw value and a cause description.
/// `InvalidState` reports an operation attempted on a writer that was
/// already shut down.
/// `Backend` passes a failure of the underlying client through unchanged.
#[derive(Debug)]
pub enum StoreError {
    InvalidInput { message: String },
    InvalidState { message: String },
    Backend { message: String },
}

impl StoreError {
    /// True exactly when this error is the `InvalidInput` kind.
    pub fn is_invalid_input(&self) -> (r: bool)
        ensures
            r == (self is InvalidInput),
    {
        match self {
            StoreError::InvalidInput { .. } => true,
            _ => false,
        }
    }

    /// True exactly when this error is the `InvalidState` kind.
    pub fn is_invalid_state(&self) -> (r: bool)
        ensures
            r == (self is InvalidState),
    {
        match self {
            StoreError::InvalidState { .. } => true,
            _ => false,
        }
    }

    /// True exactly when this error is the `Backend` kind.
    pub fn is_backend(&self) -> (r: bool)
        ensures
            r == (self is Backend),
    {
        match self {
            StoreError::Backend { .. } => true,
            _ => false,
        }
    }

    /// The human-readable description the error carries.
    pub fn message(&self) -> (r: &String)
        ensures
            r@ == self.text(),
    {
        match self {
            StoreError::InvalidInput { message } => message,
            StoreError::InvalidState { message } => message,
            StoreError::Backend { message } => message,
        }
    }

    /// The description of the error, whatever its kind.
    pub open spec fn text(&self) -> Seq<char> {
        match self {
            StoreError::InvalidInput { message } => message@,
            StoreError::InvalidState { message } => message@,
            StoreError::Backend { message } => message@,
        }
    }
}

} // verus!
