//! The shared upstream session: at most one send handle, tagged with a
//! generation that grows by one each time a new handle is installed, so that
//! a failure seen by many queries tears the session down once.
use vstd::prelude::*;

verus! {

/// The send handle of the current upstream connection, if any, and its
/// generation.
pub struct Session<H> {
    handle: Option<H>,
    generation: u64,
}

impl<H> Session<H> {
    /// The current handle.
    pub closed spec fn handle_spec(&self) -> Option<H> {
        self.handle
    }

    /// The number of handles installed so far.
    pub closed spec fn generation_spec(&self) -> u64 {
        self.generation
    }

    /// No handle, generation 0.
    pub fn new() -> (r: Session<H>)
        ensures
            r.handle_spec() is None,
            r.generation_spec() == 0,
    {
        Session { handle: None, generation: 0 }
    }

    /// The current handle, to be cloned for a request.
    pub fn handle(&self) -> (r: Option<&H>)
        ensures
            r is None <==> self.handle_spec() is None,
            r is Some ==> self.handle_spec() == Some(*r->0),
    {
        match &self.handle {
            Some(h) => Some(h),
            None => None,
        }
    }

    /// Whether a handle is installed.
    pub fn is_present(&self) -> (r: bool)
        ensures
            r == self.handle_spec() is Some,
    {
        self.handle.is_some()
    }

    /// The current generation.
    pub fn generation(&self) -> (r: u64)
        ensures
            r == self.generation_spec(),
    {
        self.generation
    }

    /// Installs the handle of a new connection; the generation grows by one
    /// and is returned.
    pub fn install(&mut self, handle: H) -> (g: u64)
        requires
            old(self).generation_spec() < u64::MAX,
        ensures
            final(self).handle_spec() == Some(handle),
            final(self).generation_spec() == old(self).generation_spec() + 1,
            g == final(self).generation_spec(),
    {
        self.handle = Some(handle);
        self.generation = self.generation + 1;
        self.generation
    }

    /// Drops the handle if it is still the one of generation `recorded`;
    /// returns whether a handle was dropped. The generation is unchanged.
    pub fn invalidate(&mut self, recorded: u64) -> (dropped: bool)
        ensures
            final(self).generation_spec() == old(self).generation_spec(),
            old(self).generation_spec() == recorded ==> final(self).handle_spec() is None,
            old(self).generation_spec() != recorded ==> final(self).handle_spec()
                == old(self).handle_spec(),
            dropped == (old(self).generation_spec() == recorded && old(self).handle_spec() is Some),
            recorded <= old(self).generation_spec() ==> (final(self).generation_spec() > recorded
                || final(self).handle_spec() is None),
    {
        if self.generation == recorded {
            let dropped = self.handle.is_some();
            self.handle = None;
            dropped
        } else {
            false
        }
    }
}

} // verus!
