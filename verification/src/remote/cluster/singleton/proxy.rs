//! The local stand-in for a cluster-wide singleton.
//!
//! Senders address the proxy. While the singleton is elsewhere or restarting
//! the proxy keeps their requests; once it learns where the singleton lives it
//! hands the kept requests out, oldest first, and from then on passes every
//! request straight through. `R` is the reference to the singleton, `B` a
//! request that can be sent to any such reference. The proxy sends nothing
//! itself: it answers with the requests that are due, and the hosting program
//! sends each to the reference that the proxy holds.
use std::collections::VecDeque;
use vstd::prelude::*;

verus! {

/// Whether the proxy keeps requests or passes them on.
#[derive(Debug)]
pub enum ProxyState<R, B> {
    Buffered { request_queue: VecDeque<B> },
    Active { actor_ref: R },
}

/// A proxy as contracts see it.
pub enum ProxyView<R, B> {
    /// The requests that wait, oldest first.
    Buffered { request_queue: Seq<B> },
    Active { actor_ref: R },
}

impl<R, B> View for ProxyState<R, B> {
    type V = ProxyView<R, B>;

    open spec fn view(&self) -> ProxyView<R, B> {
        match *self {
            ProxyState::Buffered { request_queue } => ProxyView::Buffered {
                request_queue: request_queue@,
            },
            ProxyState::Active { actor_ref } => ProxyView::Active { actor_ref },
        }
    }
}

impl<R, B> ProxyState<R, B> {
    pub fn is_active(&self) -> (active: bool)
        ensures
            active == (self@ is Active),
    {
        matches!(self, ProxyState::Active { .. })
    }
}

/// The proxy of one singleton.
#[derive(Debug)]
pub struct Proxy<R, B> {
    state: ProxyState<R, B>,
}

/// Tells the proxy that the singleton runs, and where.
#[derive(Debug)]
pub struct SingletonStarted<R> {
    pub actor_ref: R,
}

/// Tells the proxy that the singleton is about to stop.
#[derive(Debug)]
pub struct SingletonStopping {}

/// What reaches a proxy.
pub enum ProxyEvent<R, B> {
    /// A sender's request.
    Request(B),
    Started(SingletonStarted<R>),
    Stopping(SingletonStopping),
}

/// The requests that a proxy keeps, oldest first.
pub open spec fn waiting<R, B>(proxy: ProxyView<R, B>) -> Seq<B> {
    match proxy {
        ProxyView::Buffered { request_queue } => request_queue,
        ProxyView::Active { .. } => Seq::empty(),
    }
}

/// The proxy after `event`.
pub open spec fn proxy_after<R, B>(proxy: ProxyView<R, B>, event: ProxyEvent<R, B>) -> ProxyView<
    R,
    B,
> {
    match event {
        ProxyEvent::Request(request) => match proxy {
            ProxyView::Buffered { request_queue } => ProxyView::Buffered {
                request_queue: request_queue.push(request),
            },
            ProxyView::Active { actor_ref } => proxy,
        },
        ProxyEvent::Started(started) => ProxyView::Active { actor_ref: started.actor_ref },
        ProxyEvent::Stopping(_) => match proxy {
            ProxyView::Buffered { .. } => proxy,
            ProxyView::Active { .. } => ProxyView::Buffered { request_queue: Seq::empty() },
        },
    }
}

/// What becomes of a sender's request at once: a proxy that passes requests
/// on hands it back to be sent, a proxy that keeps requests hands out nothing.
pub open spec fn passed_on<R, B>(proxy: ProxyView<R, B>, request: B) -> Option<B> {
    match proxy {
        ProxyView::Buffered { .. } => None,
        ProxyView::Active { .. } => Some(request),
    }
}

/// The requests that `event` makes due, in the order in which they are to be
/// sent. Each goes to the reference that the proxy holds after the event.
pub open spec fn due_after<R, B>(proxy: ProxyView<R, B>, event: ProxyEvent<R, B>) -> Seq<B> {
    match event {
        ProxyEvent::Request(request) => match passed_on(proxy, request) {
            Some(request) => seq![request],
            None => Seq::empty(),
        },
        ProxyEvent::Started(_) => waiting(proxy),
        ProxyEvent::Stopping(_) => Seq::empty(),
    }
}

impl<R, B> View for Proxy<R, B> {
    type V = ProxyView<R, B>;

    closed spec fn view(&self) -> ProxyView<R, B> {
        self.state@
    }
}

impl<R, B> Proxy<R, B> {
    /// A proxy that keeps requests and has none yet.
    pub fn new() -> (proxy: Self)
        ensures
            proxy@ == (ProxyView::<R, B>::Buffered { request_queue: Seq::empty() }),
    {
        Self { state: ProxyState::Buffered { request_queue: VecDeque::new() } }
    }

    pub fn state(&self) -> (state: &ProxyState<R, B>)
        ensures
            state@ == self@,
    {
        &self.state
    }

    /// The reference to the singleton, while the proxy passes requests on.
    pub fn actor_ref(&self) -> (actor_ref: Option<&R>)
        ensures
            match self@ {
                ProxyView::Active { actor_ref: held } => actor_ref == Some(&held),
                ProxyView::Buffered { .. } => actor_ref is None,
            },
    {
        match &self.state {
            ProxyState::Active { actor_ref } => Some(actor_ref),
            ProxyState::Buffered { .. } => None,
        }
    }

    /// Takes a sender's request. A proxy that keeps requests puts it behind
    /// those that wait and answers `None`. A proxy that passes requests on
    /// hands it back, to be sent now.
    pub fn send(&mut self, request: B) -> (due: Option<B>)
        ensures
            final(self)@ == proxy_after(old(self)@, ProxyEvent::Request(request)),
            due == passed_on(old(self)@, request),
    {
        match &mut self.state {
            ProxyState::Buffered { request_queue } => {
                request_queue.push_back(request);
                None
            },
            ProxyState::Active { .. } => Some(request),
        }
    }

    /// Takes note that the singleton runs. Every request that waited is handed
    /// out, oldest first, to be sent to `message.actor_ref`, which the proxy
    /// holds from now on.
    pub fn handle_started(&mut self, message: SingletonStarted<R>) -> (due: Vec<B>)
        ensures
            final(self)@ == proxy_after(old(self)@, ProxyEvent::Started(message)),
            due@ == due_after(old(self)@, ProxyEvent::Started(message)),
    {
        let mut due: Vec<B> = Vec::new();
        match &mut self.state {
            ProxyState::Buffered { request_queue } => {
                let ghost all = request_queue@;
                loop
                    invariant
                        due@ + request_queue@ == all,
                    ensures
                        due@ == all,
                    decreases request_queue@.len(),
                {
                    match request_queue.pop_front() {
                        Some(buffered) => {
                            assert(due@.push(buffered) + request_queue@ =~= all);
                            due.push(buffered);
                        },
                        None => {
                            assert(due@ + request_queue@ =~= due@);
                            break ;
                        },
                    }
                }
            },
            _ => {},
        }
        self.state = ProxyState::Active { actor_ref: message.actor_ref };
        due
    }

    /// Takes note that the singleton is about to stop. A proxy that passed
    /// requests on keeps them from now on, starting with none. A proxy that
    /// keeps requests goes on keeping them.
    pub fn handle_stopping(&mut self, message: SingletonStopping)
        ensures
            final(self)@ == proxy_after(old(self)@, ProxyEvent::Stopping(message)),
    {
        if self.state.is_active() {
            self.state = ProxyState::Buffered { request_queue: VecDeque::new() };
        }
    }
}

/// The proxy after all of `events`, taken in order.
pub open spec fn proxy_after_all<R, B>(
    proxy: ProxyView<R, B>,
    events: Seq<ProxyEvent<R, B>>,
) -> ProxyView<R, B>
    decreases events.len(),
{
    if events.len() == 0 {
        proxy
    } else {
        proxy_after(proxy_after_all(proxy, events.drop_last()), events.last())
    }
}

/// Every request that `events` make due, in the order in which they are sent.
pub open spec fn due_after_all<R, B>(proxy: ProxyView<R, B>, events: Seq<ProxyEvent<R, B>>) -> Seq<
    B,
>
    decreases events.len(),
{
    if events.len() == 0 {
        Seq::empty()
    } else {
        due_after_all(proxy, events.drop_last()) + due_after(
            proxy_after_all(proxy, events.drop_last()),
            events.last(),
        )
    }
}

/// The requests among `events`, in order.
pub open spec fn requests_of<R, B>(events: Seq<ProxyEvent<R, B>>) -> Seq<B>
    decreases events.len(),
{
    if events.len() == 0 {
        Seq::empty()
    } else {
        match events.last() {
            ProxyEvent::Request(request) => requests_of(events.drop_last()).push(request),
            _ => requests_of(events.drop_last()),
        }
    }
}

/// `requests` as events, each a sender's request.
pub open spec fn as_requests<R, B>(requests: Seq<B>) -> Seq<ProxyEvent<R, B>> {
    requests.map_values(|request: B| ProxyEvent::Request(request))
}

/// A proxy neither drops nor reorders: whatever reaches it, the requests it
/// has handed out, followed by those it still keeps, are the requests it kept
/// at first, followed by those that reached it, in order.
pub proof fn lemma_proxy_keeps_order<R, B>(proxy: ProxyView<R, B>, events: Seq<ProxyEvent<R, B>>)
    ensures
        due_after_all(proxy, events) + waiting(proxy_after_all(proxy, events)) == waiting(proxy)
            + requests_of(events),
    decreases events.len(),
{
    if events.len() == 0 {
        assert(Seq::<B>::empty() + waiting(proxy) =~= waiting(proxy) + Seq::<B>::empty());
    } else {
        let earlier = events.drop_last();
        let before = proxy_after_all(proxy, earlier);
        lemma_proxy_keeps_order(proxy, earlier);
        let handed = due_after_all(proxy, earlier);
        assert(handed + waiting(before) == waiting(proxy) + requests_of(earlier));
        assert(due_after_all(proxy, events) + waiting(proxy_after_all(proxy, events)) =~= (handed
            + waiting(before)) + (requests_of(events).skip(requests_of(earlier).len() as int))) by {
            match events.last() {
                ProxyEvent::Request(request) => {
                    assert(requests_of(events).skip(requests_of(earlier).len() as int) =~= seq![
                        request,
                    ]);
                },
                _ => {
                    assert(requests_of(events).skip(requests_of(earlier).len() as int)
                        =~= Seq::<B>::empty());
                },
            }
        }
        assert((waiting(proxy) + requests_of(earlier)) + requests_of(events).skip(
            requests_of(earlier).len() as int,
        ) =~= waiting(proxy) + requests_of(events));
    }
}

/// One episode of the singleton: a proxy that keeps `kept` learns that the
/// singleton runs at `started.actor_ref`, and `sent` reach it after that. The
/// proxy then holds that reference throughout, keeps nothing, and has handed
/// out, for that reference, the kept requests followed by the sent ones, in
/// order.
pub proof fn lemma_episode_in_order<R, B>(kept: Seq<B>, started: SingletonStarted<R>, sent: Seq<B>)
    ensures
        ({
            let proxy = ProxyView::<R, B>::Buffered { request_queue: kept };
            let events = seq![ProxyEvent::Started(started)] + as_requests(sent);
            &&& proxy_after_all(proxy, events) == (ProxyView::<R, B>::Active {
                actor_ref: started.actor_ref,
            })
            &&& due_after_all(proxy, events) == kept + sent
        }),
    decreases sent.len(),
{
    let proxy = ProxyView::<R, B>::Buffered { request_queue: kept };
    let first = seq![ProxyEvent::<R, B>::Started(started)];
    let events = first + as_requests(sent);
    if sent.len() == 0 {
        assert(events =~= first);
        assert(first.drop_last() =~= Seq::<ProxyEvent<R, B>>::empty());
        assert(due_after_all(proxy, first.drop_last()) =~= Seq::<B>::empty());
        assert(due_after_all(proxy, events) =~= kept + sent);
    } else {
        lemma_episode_in_order(kept, started, sent.drop_last());
        assert(events.drop_last() =~= first + as_requests::<R, B>(sent.drop_last()));
        assert(events.last() == ProxyEvent::<R, B>::Request(sent.last()));
        assert(due_after_all(proxy, events) =~= kept + sent);
    }
}

} // verus!
