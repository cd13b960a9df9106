//! What can go wrong with the configuration storage.

use vstd::prelude::*;

verus! {

/// A failure of the configuration storage.
#[derive(Debug, Clone, Copy, PartialEq, Eq, Structural)]
pub enum StorageError {
    /// The storage is already in the hands of another configuration.
    AlreadyTaken,
    /// The key could not be erased: it holds a NUL character.
    EraseKey,
    /// The string could not be stored: it holds a NUL character.
    StoreString,
}

impl StorageError {
    /// The words that name the failure.
    pub open spec fn spec_message(self) -> Seq<char> {
        match self {
            StorageError::AlreadyTaken => "MainConfiguration NVS already taken"@,
            StorageError::EraseKey => "Failed to erase key"@,
            StorageError::StoreString => "Failed to store string"@,
        }
    }

    /// The words that name the failure.
    pub fn message(&self) -> (words: &'static str)
        ensures
            words@ == self.spec_message(),
    {
        match self {
            StorageError::AlreadyTaken => "MainConfiguration NVS already taken",
            StorageError::EraseKey => "Failed to erase key",
            StorageError::StoreString => "Failed to store string",
        }
    }
}

} // verus!
