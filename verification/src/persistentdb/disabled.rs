//! The store of a replica that persists nothing: every operation succeeds,
//! nothing is kept, and nothing is ever found.

use crate::error::Error;
use vstd::prelude::*;

verus! {

/// A key value store that keeps nothing.
pub struct DisabledKV;

impl DisabledKV {
    /// Opens the store. The location and the prefixes are not used.
    pub fn new(db_location: &str, prefixes: Vec<&'static str>) -> (r: Result<DisabledKV, Error>)
        ensures
            r is Ok,
    {
        Ok(DisabledKV)
    }

    /// Looks a key up: it is never there.
    pub fn get(&self, prefix: &'static str, key: &[u8]) -> (r: Result<Option<Vec<u8>>, Error>)
        ensures
            r matches Ok(None),
    {
        Ok(None)
    }

    /// Looks keys up: no answer comes back, whatever the keys.
    pub fn get_all(&self, keys: Vec<(&'static str, Vec<u8>)>) -> (r: Result<
        Vec<Result<Option<Vec<u8>>, Error>>,
        Error,
    >)
        ensures
            r matches Ok(v) && v@.len() == 0,
    {
        Ok(Vec::new())
    }

    /// Whether a key is there: it never is.
    pub fn exists_key(&self, prefix: &'static str, key: &[u8]) -> (r: Result<bool, Error>)
        ensures
            r matches Ok(false),
    {
        Ok(false)
    }

    /// Stores a value: it is dropped.
    pub fn set(&self, prefix: &'static str, key: &[u8], data: &[u8]) -> (r: Result<(), Error>)
        ensures
            r is Ok,
    {
        Ok(())
    }

    /// Stores values: they are dropped.
    pub fn set_all(&self, prefix: &'static str, values: Vec<(Vec<u8>, Vec<u8>)>) -> (r: Result<
        (),
        Error,
    >)
        ensures
            r is Ok,
    {
        Ok(())
    }

    /// Erases a key: there is nothing to erase.
    pub fn erase(&self, prefix: &'static str, key: &[u8]) -> (r: Result<(), Error>)
        ensures
            r is Ok,
    {
        Ok(())
    }

    /// Erases keys: there is nothing to erase.
    pub fn erase_keys(&self, prefix: &'static str, keys: Vec<Vec<u8>>) -> (r: Result<(), Error>)
        ensures
            r is Ok,
    {
        Ok(())
    }

    /// Erases the keys from `start` to `end`: there is nothing to erase.
    pub fn erase_range(&self, prefix: &'static str, start: &[u8], end: &[u8]) -> (r: Result<
        (),
        Error,
    >)
        ensures
            r is Ok,
    {
        Ok(())
    }

    /// Compacts the keys from `start` to `end`: there is nothing to compact.
    pub fn compact_range(
        &self,
        prefix: &'static str,
        start: Option<&[u8]>,
        end: Option<&[u8]>,
    ) -> (r: Result<(), Error>)
        ensures
            r is Ok,
    {
        Ok(())
    }

    /// The keys from `start` to `end` with their values: there are none.
    pub fn iter_range(
        &self,
        prefix: &'static str,
        start: Option<&[u8]>,
        end: Option<&[u8]>,
    ) -> (r: Result<Vec<Result<(Vec<u8>, Vec<u8>), Error>>, Error>)
        ensures
            r matches Ok(v) && v@.len() == 0,
    {
        Ok(Vec::new())
    }
}

} // verus!
