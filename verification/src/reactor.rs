use vstd::prelude::*;
use crate::shared_map::{
    interest_entries, interest_map_get, interest_map_insert, interest_map_len, interest_map_new,
    interest_map_remove,
};

verus! {

/// Number of events a reactor collects per poll by default.
pub const DEFAULT_EVENTS_CAPACITY: usize = 1024;

/// How long a reactor waits for events per poll by default, in milliseconds.
pub const DEFAULT_POLL_TIMEOUT_MS: u64 = 150;

/// The readiness a handler was registered for.
#[derive(Debug, Clone, Copy, PartialEq, Eq, Structural)]
pub struct InterestSet {
    pub readable: bool,
    pub writable: bool,
}

/// An event with the given readiness concerns a handler registered with
/// `interest`: the handler wants readability and the source is readable, or
/// wants writability and the source is writable.
pub open spec fn interest_matches(interest: InterestSet, is_readable: bool, is_writable: bool) -> bool {
    (interest.readable && is_readable) || (interest.writable && is_writable)
}

impl InterestSet {
    /// Whether an event with the given readiness concerns a handler
    /// registered with this interest.
    pub fn matches(&self, is_readable: bool, is_writable: bool) -> (b: bool)
        ensures
            b == interest_matches(*self, is_readable, is_writable),
            self.readable && is_readable ==> b,
            self.writable && is_writable ==> b,
            !(self.readable && is_readable) && !(self.writable && is_writable) ==> !b,
    {
        (self.readable && is_readable) || (self.writable && is_writable)
    }
}

/// The interests registered with a poller, by token.
pub struct HandlerRegistry {
    entries: lockfree::map::Map<usize, InterestSet>,
}

impl HandlerRegistry {
    /// The registered interests, by token.
    pub closed spec fn view(&self) -> Map<usize, InterestSet> {
        interest_entries(self.entries)
    }

    /// A registry with nothing registered.
    pub fn new() -> (r: Self)
        ensures
            r.view() == Map::<usize, InterestSet>::empty(),
    {
        HandlerRegistry { entries: interest_map_new() }
    }

    /// Registers `interest` under `token`, replacing an earlier registration
    /// of the token.
    pub fn register(&mut self, token: usize, interest: InterestSet)
        ensures
            final(self).view() == old(self).view().insert(token, interest),
    {
        interest_map_insert(&mut self.entries, token, interest);
    }

    /// Removes the registration of `token`; tells whether there was one.
    pub fn deregister(&mut self, token: usize) -> (found: bool)
        ensures
            final(self).view() == old(self).view().remove(token),
            found == old(self).view().contains_key(token),
    {
        interest_map_remove(&mut self.entries, token)
    }

    /// The interest registered under `token`, if any.
    pub fn interest(&self, token: usize) -> (r: Option<InterestSet>)
        ensures
            r == (if self.view().contains_key(token) {
                Some(self.view()[token])
            } else {
                None
            }),
    {
        interest_map_get(&self.entries, token)
    }

    /// The number of registered tokens.
    pub fn len(&self) -> (n: usize)
        ensures
            n == self.view().len(),
    {
        interest_map_len(&self.entries)
    }

    /// Whether something is registered under `token`.
    pub fn contains(&self, token: usize) -> (b: bool)
        ensures
            b == self.view().contains_key(token),
    {
        interest_map_get(&self.entries, token).is_some()
    }

    /// Whether an event for `token` with the given readiness goes to the
    /// handler registered under the token: there is one, and the event
    /// matches its interest.
    pub fn should_dispatch(&self, token: usize, is_readable: bool, is_writable: bool) -> (b: bool)
        ensures
            b == (self.view().contains_key(token) && interest_matches(
                self.view()[token],
                is_readable,
                is_writable,
            )),
            b ==> self.view().contains_key(token),
            self.view().contains_key(token) ==> {
                let i = self.view()[token];
                &&& (i.readable && is_readable ==> b)
                &&& (i.writable && is_writable ==> b)
                &&& (!(i.readable && is_readable) && !(i.writable && is_writable) ==> !b)
            },
    {
        match interest_map_get(&self.entries, token) {
            Some(interest) => interest.matches(is_readable, is_writable),
            None => false,
        }
    }
}

/// A registration is seen by later lookups: right after `token` is
/// registered with `interest`, an event for it is dispatched exactly when
/// it matches `interest`.
pub proof fn law_register_then_dispatch(
    before: Map<usize, InterestSet>,
    token: usize,
    interest: InterestSet,
    is_readable: bool,
    is_writable: bool,
)
    ensures
        ({
            let after = before.insert(token, interest);
            after.contains_key(token) && interest_matches(after[token], is_readable, is_writable)
                == interest_matches(interest, is_readable, is_writable)
        }),
{
}

/// An event reaches a handler exactly when it carries a readiness the
/// handler registered for: a readable event reaches a handler interested in
/// reading, whatever else the event carries; a writable event reaches a
/// handler interested in writing; any other event is not dispatched.
pub proof fn law_dispatch_follows_interest(interest: InterestSet, is_readable: bool, is_writable: bool)
    ensures
        interest.readable && is_readable ==> interest_matches(interest, is_readable, is_writable),
        interest.writable && is_writable ==> interest_matches(interest, is_readable, is_writable),
        !(interest.readable && is_readable) && !(interest.writable && is_writable)
            ==> !interest_matches(interest, is_readable, is_writable),
        interest_matches(interest, true, true) == (interest.readable || interest.writable),
        !interest_matches(interest, false, false),
{
}

/// After `token` is deregistered, no event for it is dispatched, and the
/// other registrations stay as they were.
pub proof fn law_deregister_stops_dispatch(before: Map<usize, InterestSet>, token: usize, other: usize)
    requires
        other != token,
    ensures
        !before.remove(token).contains_key(token),
        before.remove(token).contains_key(other) == before.contains_key(other),
        before.contains_key(other) ==> before.remove(token)[other] == before[other],
{
}

} // verus!
