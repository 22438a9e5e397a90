//! Where rate-limit guards are kept: a key-value namespace of the worker platform.
use vstd::prelude::*;
use core::marker::PhantomData;

verus! {

/// A rate-limit store kept in the worker platform's key-value namespace bound as `key`,
/// for keys of type `K` and guards of type `G`.
#[derive(Debug)]
pub struct WorkerStore<K, G> {
    key: String,
    _tag_k: PhantomData<K>,
    _tag_g: PhantomData<G>,
}

impl<K, G> WorkerStore<K, G> {
    /// The namespace binding that the store uses.
    pub closed spec fn spec_key(self) -> String {
        self.key
    }

    /// A store in namespace `key`.
    pub fn new(key: String) -> (res: Self)
        ensures
            res.spec_key() == key,
    {
        WorkerStore { key, _tag_k: PhantomData, _tag_g: PhantomData }
    }

    /// The namespace binding.
    pub fn key(&self) -> (res: &String)
        ensures
            *res == self.spec_key(),
    {
        &self.key
    }
}

/// The guard to use for a key: the one stored, or a copy of `refer` when none was
/// stored or it could not be read.
pub fn guard_or_reference<G: Clone>(stored: Option<G>, refer: &G) -> (res: G)
    ensures
        stored matches Some(g) ==> res == g,
        stored is None ==> cloned(*refer, res),
{
    match stored {
        Some(g) => g,
        None => refer.clone(),
    }
}

} // verus!
