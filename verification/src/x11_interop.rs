//! The global through which X11 clients are told apart from Wayland ones.
//!
//! The protocol exists for its presence: its requests are accepted and have no effect.

use vstd::prelude::*;

verus! {

/// The version of the protocol that is offered.
pub const VERSION: u32 = 1;

/// That the global exists.
pub struct MutterX11InteropManagerState {}

/// What the global carries: which clients may see it.
pub struct MutterX11InteropManagerGlobalData<F> {
    filter: F,
}

/// A compositor state that offers the global.
pub trait MutterX11InteropHandler {}

/// A request of a client.
#[derive(Clone, Copy, Debug, PartialEq, Eq, Structural)]
pub enum Request {
    /// The client is done with the global.
    Destroy,
    /// A Wayland surface is to belong to an X11 window.
    SetX11Parent { xwindow: u32 },
}

impl<F> MutterX11InteropManagerGlobalData<F> {
    /// The test that a client must pass to see the global.
    pub closed spec fn filter(self) -> F {
        self.filter
    }

    /// Whether a client may see the global.
    pub fn can_view<C>(&self, client: &C) -> (visible: bool) where F: Fn(&C) -> bool
        requires
            call_requires(self.filter(), (client,)),
        ensures
            call_ensures(self.filter(), (client,), visible),
    {
        (self.filter)(client)
    }
}

impl MutterX11InteropManagerState {
    /// The global for clients that pass `filter`: its version and its data, which are to be
    /// registered with the display.
    pub fn new<F>(filter: F) -> (global: (
        MutterX11InteropManagerState,
        u32,
        MutterX11InteropManagerGlobalData<F>,
    ))
        ensures
            global.1 == VERSION,
            global.2.filter() == filter,
    {
        (MutterX11InteropManagerState {  }, VERSION, MutterX11InteropManagerGlobalData { filter })
    }
}

/// Serves a request: none has an effect.
pub fn request<D: MutterX11InteropHandler>(state: &mut D, request: Request)
    ensures
        *final(state) == *old(state),
{
    match request {
        Request::Destroy => {},
        Request::SetX11Parent { .. } => {},
    }
}

} // verus!
