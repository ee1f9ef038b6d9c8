//! Explicit application state snapshot for the UI layer.
//!
//! Rather than ambient global variables, the UI state is an explicit struct
//! that views receive by reference; every mutation is described exactly.

use vstd::prelude::*;

verus! {

/// Global application state passed through the component tree.
pub struct AppState {
    pub counter: i32,
    pub is_busy: bool,
    pub username: String,
    pub notification: Option<String>,
}

impl AppState {
    /// Creates a new AppState with default values.
    pub fn new() -> (s: AppState)
        ensures
            s.counter == 0,
            !s.is_busy,
            s.username@ == Seq::<char>::empty(),
            s.notification is None,
    {
        AppState {
            counter: 0,
            is_busy: false,
            username: String::new(),
            notification: None,
        }
    }

    /// Increments the counter by 1.
    pub fn increment(&mut self)
        requires
            old(self).counter < i32::MAX,
        ensures
            final(self).counter == old(self).counter + 1,
            final(self).is_busy == old(self).is_busy,
            final(self).username == old(self).username,
            final(self).notification == old(self).notification,
    {
        self.counter = self.counter + 1;
    }

    /// Decrements the counter by 1.
    pub fn decrement(&mut self)
        requires
            old(self).counter > i32::MIN,
        ensures
            final(self).counter == old(self).counter - 1,
            final(self).is_busy == old(self).is_busy,
            final(self).username == old(self).username,
            final(self).notification == old(self).notification,
    {
        self.counter = self.counter - 1;
    }

    /// Sets the counter to a specific value.
    pub fn set_counter(&mut self, value: i32)
        ensures
            final(self).counter == value,
            final(self).is_busy == old(self).is_busy,
            final(self).username == old(self).username,
            final(self).notification == old(self).notification,
    {
        self.counter = value;
    }

    /// Shows a notification message.
    pub fn notify(&mut self, msg: String)
        ensures
            final(self).counter == old(self).counter,
            final(self).is_busy == old(self).is_busy,
            final(self).username == old(self).username,
            final(self).notification == Some(msg),
    {
        self.notification = Some(msg);
    }

    /// Clears the current notification.
    pub fn clear_notification(&mut self)
        ensures
            final(self).counter == old(self).counter,
            final(self).is_busy == old(self).is_busy,
            final(self).username == old(self).username,
            final(self).notification is None,
    {
        self.notification = None;
    }
}

impl Default for AppState {
    /// Same state as [`AppState::new`].
    fn default() -> (s: Self)
        ensures
            s.counter == 0,
            !s.is_busy,
            s.username@ == Seq::<char>::empty(),
            s.notification is None,
    {
        AppState::new()
    }
}

} // verus!
