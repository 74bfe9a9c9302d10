//! The navigation state machine of a routing provider: the authoritative URL,
//! the pending-navigation slot, the path stack and the back flag.
use crate::location::{UrlContext, UrlContextType, Url, UrlView};
use crate::text::str_eq;
use vstd::prelude::*;

verus! {

/// What a provider does after a navigation was requested.
#[derive(Debug, Clone, Copy, PartialEq, Eq, Structural)]
pub enum NavigateAction {
    /// Origin and path are unchanged: commit the history entry now.
    CommitNow,
    /// Wait until the pending navigation with this ticket is fired, then
    /// commit if the URL is still the one requested.
    AwaitReady(u64),
}

/// How a redirect is followed.
#[derive(Debug, Clone, Copy, PartialEq, Eq, Structural)]
pub enum RedirectAction {
    /// The target is on this origin: navigate on the client, one frame later.
    ClientSide,
    /// The target is on another origin: load it as a new page.
    FullLoad,
}

/// Chooses how to follow a redirect to a URL on `target_origin` from a
/// document on `current_origin`.
pub fn redirect_action(target_origin: &str, current_origin: &str) -> (r: RedirectAction)
    ensures
        r == (if target_origin@ == current_origin@ {
            RedirectAction::ClientSide
        } else {
            RedirectAction::FullLoad
        }),
{
    if str_eq(target_origin, current_origin) {
        RedirectAction::ClientSide
    } else {
        RedirectAction::FullLoad
    }
}

/// What a [`Navigator`] holds.
pub ghost struct NavigatorView {
    pub url: UrlView,
    pub pending: Option<u64>,
    pub next_ticket: u64,
    pub path_stack: Seq<UrlView>,
    pub is_back: bool,
}

/// Two URLs with the same origin and path.
pub open spec fn same_location(a: UrlView, b: UrlView) -> bool {
    a.origin == b.origin && a.path == b.path
}

pub open spec fn ticket_after(t: u64) -> u64 {
    if t == u64::MAX {
        0
    } else {
        (t + 1) as u64
    }
}

/// The state after a navigation to `new_url` was requested.
pub open spec fn navigated(m: NavigatorView, new_url: UrlView) -> NavigatorView {
    if same_location(m.url, new_url) {
        NavigatorView { url: new_url, ..m }
    } else {
        NavigatorView {
            url: new_url,
            pending: Some(m.next_ticket),
            next_ticket: ticket_after(m.next_ticket),
            ..m
        }
    }
}

/// What is done after a navigation to `new_url` was requested.
pub open spec fn navigate_action(m: NavigatorView, new_url: UrlView) -> NavigateAction {
    if same_location(m.url, new_url) {
        NavigateAction::CommitNow
    } else {
        NavigateAction::AwaitReady(m.next_ticket)
    }
}

/// A popstate delivering `u` goes back: the stack holds one entry, or `u`
/// is its second to last.
pub open spec fn is_back_navigation(stack: Seq<UrlView>, u: UrlView) -> bool {
    stack.len() == 1 || (stack.len() >= 2 && stack[stack.len() - 2] == u)
}

/// The state machine behind a routing provider, for URLs in coordinate system `C`.
pub struct Navigator<C: UrlContextType> {
    url: UrlContext<C, Url>,
    pending: Option<u64>,
    next_ticket: u64,
    path_stack: Vec<UrlContext<C, Url>>,
    is_back: bool,
}

impl<C: UrlContextType> View for Navigator<C> {
    type V = NavigatorView;

    closed spec fn view(&self) -> NavigatorView {
        NavigatorView {
            url: self.url.inner()@,
            pending: self.pending,
            next_ticket: self.next_ticket,
            path_stack: self.path_stack@.map_values(|u: UrlContext<C, Url>| u.inner()@),
            is_back: self.is_back,
        }
    }
}

impl<C: UrlContextType> Navigator<C> {
    /// A provider that starts at `initial`, which is also the first entry of the path stack.
    pub fn new(initial: UrlContext<C, Url>) -> (r: Navigator<C>)
        ensures
            r@ == (NavigatorView {
                url: initial.inner()@,
                pending: None,
                next_ticket: 0,
                path_stack: seq![initial.inner()@],
                is_back: false,
            }),
    {
        let first = UrlContext::new(initial.forget_context(C::produce_from_thin_air()).clone());
        let mut path_stack: Vec<UrlContext<C, Url>> = Vec::new();
        path_stack.push(first);
        let r = Navigator { url: initial, pending: None, next_ticket: 0, path_stack, is_back: false };
        assert(r@.path_stack =~= seq![initial.inner()@]);
        r
    }

    /// The current URL.
    pub fn url(&self) -> (r: &UrlContext<C, Url>)
        ensures
            r.inner()@ == self@.url,
    {
        &self.url
    }

    /// Whether the last popstate was a back navigation.
    pub fn is_back(&self) -> (r: bool)
        ensures
            r == self@.is_back,
    {
        self.is_back
    }

    /// The ticket of the navigation waiting to be fired, if any.
    pub fn pending(&self) -> (r: Option<u64>)
        ensures
            r == self@.pending,
    {
        self.pending
    }

    /// The number of entries in the path stack.
    pub fn path_stack_len(&self) -> (r: usize)
        ensures
            r == self@.path_stack.len(),
    {
        self.path_stack.len()
    }

    /// Requests a navigation to `new_url`. The URL is taken at once; unless
    /// origin and path are unchanged, a new pending navigation replaces (and
    /// so cancels) the one waiting.
    pub fn navigate(&mut self, new_url: UrlContext<C, Url>) -> (r: NavigateAction)
        ensures
            final(self)@ == navigated(old(self)@, new_url.inner()@),
            r == navigate_action(old(self)@, new_url.inner()@),
    {
        let same_path = {
            let curr = &self.url;
            str_eq(curr.origin().forget_context(C::produce_from_thin_air()), new_url.origin().forget_context(C::produce_from_thin_air()))
                && str_eq(curr.path().forget_context(C::produce_from_thin_air()), new_url.path().forget_context(C::produce_from_thin_air()))
        };
        self.url = new_url;
        if same_path {
            NavigateAction::CommitNow
        } else {
            let ticket = self.next_ticket;
            self.pending = Some(ticket);
            self.next_ticket = if ticket == u64::MAX {
                0
            } else {
                ticket + 1
            };
            NavigateAction::AwaitReady(ticket)
        }
    }

    /// Fires the pending navigation: returns its ticket and empties the slot.
    pub fn ready_to_complete(&mut self) -> (r: Option<u64>)
        ensures
            r == old(self)@.pending,
            final(self)@ == (NavigatorView { pending: None, ..old(self)@ }),
    {
        let r = self.pending;
        self.pending = None;
        r
    }

    /// Whether a fired navigation to `proposed` still commits: the URL has
    /// not moved on since it was requested.
    pub fn still_current(&self, proposed: &UrlContext<C, Url>) -> (r: bool)
        ensures
            r == (self@.url == proposed.inner()@),
    {
        let c = C::produce_from_thin_air();
        *self.url.forget_context(c) == *proposed.forget_context(C::produce_from_thin_air())
    }

    /// Records a committed navigation: `current` is the location the browser
    /// now shows; the back flag is cleared.
    pub fn complete_navigation(&mut self, current: UrlContext<C, Url>)
        ensures
            final(self)@ == (NavigatorView {
                path_stack: old(self)@.path_stack.push(current.inner()@),
                is_back: false,
                ..old(self)@
            }),
    {
        let ghost u = current.inner()@;
        self.path_stack.push(current);
        self.is_back = false;
        assert(self@.path_stack =~= old(self)@.path_stack.push(u));
    }

    /// Takes the location a popstate delivered and classifies it as back or not.
    pub fn popstate(&mut self, new_url: UrlContext<C, Url>)
        ensures
            final(self)@ == (NavigatorView {
                url: new_url.inner()@,
                is_back: is_back_navigation(old(self)@.path_stack, new_url.inner()@),
                ..old(self)@
            }),
    {
        let n = self.path_stack.len();
        let back = n == 1 || (n >= 2 && *self.path_stack[n - 2].forget_context(
            C::produce_from_thin_air(),
        ) == *new_url.forget_context(C::produce_from_thin_air()));
        proof {
            if n >= 2 {
                assert(self@.path_stack[n - 2] == self.path_stack@[n - 2].inner()@);
            }
        }
        self.is_back = back;
        self.url = new_url;
    }
}

/// When a navigation to `b` is requested before the one to `a` was fired,
/// firing releases the ticket of `b` and not that of `a`, leaves nothing
/// pending, and finds the URL at `b`: `a` never commits, `b` does.
pub proof fn lemma_superseded_navigation_never_commits(m: NavigatorView, a: UrlView, b: UrlView)
    requires
        !same_location(m.url, a),
        !same_location(a, b),
    ensures
        ({
            let m1 = navigated(m, a);
            let m2 = navigated(m1, b);
            &&& navigate_action(m, a) == NavigateAction::AwaitReady(m.next_ticket)
            &&& navigate_action(m1, b) == NavigateAction::AwaitReady(m1.next_ticket)
            &&& m2.pending == Some(m1.next_ticket)
            &&& m1.next_ticket != m.next_ticket
            &&& m2.url == b
            &&& m2.url != a
        }),
{
}

/// A popstate delivering the second to last entry of the path stack is a
/// back navigation; one delivering neither of the last two entries is not.
pub proof fn lemma_back_detection(stack: Seq<UrlView>, u: UrlView)
    requires
        stack.len() >= 2,
    ensures
        stack[stack.len() - 2] == u ==> is_back_navigation(stack, u),
        stack[stack.len() - 2] != u && stack[stack.len() - 1] != u ==> !is_back_navigation(
            stack,
            u,
        ),
{
}

} // verus!
