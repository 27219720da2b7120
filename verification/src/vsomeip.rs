//! The application object of the engine, as far as the connection's side of
//! it goes: its name and the handlers of its registration state.
use vstd::prelude::*;

verus! {

/// Whether the engine knows the application.
#[derive(Clone, Copy, PartialEq, Eq, Hash, Debug, Structural)]
pub enum AppRegistrationState {
    Registered,
    NotRegistered,
}

/// Represents an application of the engine.
/// Application objects are the main entry to register services, find services, find
/// event groups and register for them and finally to send and receive SOME/IP communication
/// messages.
/// An application object has an heavy footprint and such objects should only be created sparsely.
/// Typically only one application object is used per process.
///
/// `H` is the type of the state handlers: functions that are called with
/// every registration state that the engine reports.
pub struct Application<H> {
    name: String,
    state_handlers: Vec<H>,
}

impl<H: Fn(AppRegistrationState)> Application<H> {
    /// The name of the application, as characters.
    pub closed spec fn spec_name(&self) -> Seq<char> {
        self.name@
    }

    /// The state handlers, in the order of their registration.
    pub closed spec fn handlers(&self) -> Seq<H> {
        self.state_handlers@
    }

    /// True if every handler can be called with every state.
    pub open spec fn wf(&self) -> bool {
        forall|k: int, state: AppRegistrationState|
            0 <= k < self.handlers().len() ==> #[trigger] call_requires(
                self.handlers()[k],
                (state,),
            )
    }

    /// An application with the given name and no state handlers.
    pub fn new(name: &str) -> (app: Application<H>)
        ensures
            app.wf(),
            app.spec_name() == name@,
            app.handlers() == Seq::<H>::empty(),
    {
        Application { name: name.to_owned(), state_handlers: Vec::new() }
    }

    /// The registration state that stands behind a report of the engine.
    pub open spec fn state_of(registered: bool) -> AppRegistrationState {
        if registered {
            AppRegistrationState::Registered
        } else {
            AppRegistrationState::NotRegistered
        }
    }

    /// Tells every state handler, in the order of registration, that the
    /// engine reports the application as registered or not. The result is
    /// the state that the handlers were called with.
    pub fn on_state_changed(&self, registered: bool) -> (state: AppRegistrationState)
        requires
            self.wf(),
        ensures
            state == Self::state_of(registered),
            forall|k: int|
                0 <= k < self.handlers().len() ==> #[trigger] call_ensures(
                    self.handlers()[k],
                    (state,),
                    (),
                ),
    {
        let st = if registered {
            AppRegistrationState::Registered
        } else {
            AppRegistrationState::NotRegistered
        };
        let mut k: usize = 0;
        while k < self.state_handlers.len()
            invariant
                k <= self.state_handlers@.len(),
                self.wf(),
                forall|j: int|
                    0 <= j < k ==> #[trigger] call_ensures(self.state_handlers@[j], (st,), ()),
            decreases self.state_handlers@.len() - k,
        {
            let handler = &self.state_handlers[k];
            assert(call_requires(self.handlers()[k as int], (st,)));
            handler(st);
            k += 1;
        }
        st
    }

    /// Adds a state handler. It has to accept every state.
    pub fn register_state_handler(&mut self, cbk: H)
        requires
            old(self).wf(),
            forall|state: AppRegistrationState| #[trigger] call_requires(cbk, (state,)),
        ensures
            final(self).wf(),
            final(self).handlers() == old(self).handlers().push(cbk),
            final(self).spec_name() == old(self).spec_name(),
    {
        self.state_handlers.push(cbk);
        proof {
            assert forall|k: int, state: AppRegistrationState|
                0 <= k < final(self).handlers().len() implies #[trigger] call_requires(
                final(self).handlers()[k],
                (state,),
            ) by {
                if k < old(self).handlers().len() {
                    assert(call_requires(old(self).handlers()[k], (state,)));
                }
            }
        }
    }

    pub fn name(&self) -> (name: &str)
        ensures
            name@ == self.spec_name(),
    {
        self.name.as_str()
    }
}

} // verus!
