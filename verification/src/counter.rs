use vstd::prelude::*;

verus! {

/// A view counter that can never go below zero.
pub struct App {
    pub counter: usize,
}

impl Default for App {
    fn default() -> (app: App)
        ensures
            app.counter == 0,
    {
        App { counter: 0 }
    }
}

impl App {
    pub fn new() -> (app: App)
        ensures
            app.counter == 0,
    {
        App { counter: 0 }
    }

    pub fn get_count(&self) -> (count: usize)
        ensures
            count == self.counter,
    {
        self.counter
    }

    pub fn increment(&mut self) -> (count: usize)
        requires
            old(self).counter < usize::MAX,
        ensures
            final(self).counter == old(self).counter + 1,
            count == final(self).counter,
    {
        self.counter = self.counter + 1;
        self.counter
    }

    /// Decrementing an empty counter is refused rather than wrapped.
    pub fn decrement(&mut self) -> (count: Option<usize>)
        ensures
            old(self).counter == 0 ==> count is None && final(self).counter == 0,
            old(self).counter > 0 ==> count == Some((old(self).counter - 1) as usize)
                && final(self).counter == old(self).counter - 1,
    {
        if self.counter == 0 {
            return None;
        }
        self.counter = self.counter - 1;
        Some(self.counter)
    }
}

} // verus!
