//! The mode of the application and the requests to change it.

use vstd::prelude::*;

verus! {

/// The mode of the application.
#[derive(Clone, Copy, Debug, PartialEq, Eq, Hash, Structural)]
pub enum AppState {
    /// The menu of maps is shown. This is the mode at the start.
    MainMenu,
    /// A map is shown.
    Playback,
}

impl Default for AppState {
    /// The mode at the start.
    fn default() -> (state: AppState)
        ensures
            state == AppState::MainMenu,
    {
        AppState::MainMenu
    }
}

/// The requests to change the mode that were not yet taken up, oldest
/// first. A request that comes while another waits is kept behind it.
pub struct NextState {
    queue: Vec<AppState>,
}

impl View for NextState {
    type V = Seq<AppState>;

    closed spec fn view(&self) -> Seq<AppState> {
        self.queue@
    }
}

impl NextState {
    /// No request.
    pub fn new() -> (next: NextState)
        ensures
            next@ == Seq::<AppState>::empty(),
    {
        NextState { queue: Vec::new() }
    }

    /// Asks for the mode `state`, after the requests that wait.
    pub fn set(&mut self, state: AppState)
        ensures
            final(self)@ == old(self)@.push(state),
    {
        self.queue.push(state);
    }

    /// The number of requests that wait.
    pub fn pending(&self) -> (n: usize)
        ensures
            n == self@.len(),
    {
        self.queue.len()
    }

    /// Takes up the oldest request, if there is one.
    pub fn take(&mut self) -> (request: Option<AppState>)
        ensures
            old(self)@.len() == 0 ==> request is None && final(self)@ == old(self)@,
            old(self)@.len() > 0 ==> request == Some(old(self)@[0]) && final(self)@ == old(
                self,
            )@.skip(1),
    {
        if self.queue.len() == 0 {
            None
        } else {
            let request = self.queue.remove(0);
            assert(self.queue@ =~= old(self)@.skip(1));
            Some(request)
        }
    }
}

/// The mode after the oldest request was taken up: the mode that it asks
/// for, or the mode as it is where nothing is asked.
pub open spec fn next_mode(mode: AppState, requests: Seq<AppState>) -> AppState {
    if requests.len() == 0 {
        mode
    } else {
        requests[0]
    }
}

} // verus!
