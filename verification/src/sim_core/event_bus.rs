//! Synchronous publish/subscribe event bus: subscribers are called
//! in-line, in subscription order, on the thread that publishes.
use vstd::prelude::*;
use crate::sim_core::event::Event;

verus! {

/// Something that reacts to published events.
pub trait Subscriber: Send {
    /// This subscriber has been handed `event`.
    spec fn notified(&self, event: Event) -> bool;

    fn notify(&self, event: &Event)
        ensures
            self.notified(*event),
    ;
}

/// A closure held as a subscriber.
pub struct FnSubscriber<F: Fn(&Event) + Send> {
    f: F,
}

impl<F: Fn(&Event) + Send> FnSubscriber<F> {
    #[verifier::type_invariant]
    spec fn callable(self) -> bool {
        forall|e: &Event| call_requires(self.f, (e,))
    }

    /// The closure this subscriber calls.
    pub closed spec fn callback(self) -> F {
        self.f
    }

    pub fn new(f: F) -> (r: FnSubscriber<F>)
        requires
            forall|e: &Event| call_requires(f, (e,)),
        ensures
            r.callback() == f,
    {
        FnSubscriber { f }
    }
}

impl<F: Fn(&Event) + Send> Subscriber for FnSubscriber<F> {
    /// The closure has run on `event`.
    open spec fn notified(&self, event: Event) -> bool {
        call_ensures(self.callback(), (&event,), ())
    }

    fn notify(&self, event: &Event) {
        proof {
            use_type_invariant(self);
        }
        (self.f)(event)
    }
}

/// Boxes `subscriber` as a trait object and appends it to the list with
/// `Vec::push`. The contract claims what `Vec::push` documents (the new
/// entry is added at the back, the earlier entries stay as they were, and
/// the list grows by one) and what a trait object is: calls on the boxed
/// entry dispatch to `subscriber`'s own `notify`, so it is notified of an
/// event exactly when `subscriber` is. (Verus carries neither its own
/// `push` facts nor a trait object's methods over to vectors of trait
/// objects, so each is written out.)
#[verifier::external_body]
fn push_subscriber<F: Fn(&Event) + Send + 'static>(
    list: &mut Vec<Box<dyn Subscriber>>,
    subscriber: FnSubscriber<F>,
)
    ensures
        final(list)@.len() == old(list)@.len() + 1,
        final(list)@.drop_last() == old(list)@,
        forall|e: Event| #[trigger] final(list)@.last().notified(e) == subscriber.notified(e),
{
    list.push(Box::new(subscriber));
}

pub struct EventBus {
    subscribers: Vec<Box<dyn Subscriber>>,
}

impl EventBus {
    /// How many subscribers are registered.
    pub closed spec fn count(self) -> nat {
        self.subscribers@.len()
    }

    /// The registered subscribers, in subscription order.
    pub closed spec fn subscribers(self) -> Seq<Box<dyn Subscriber>> {
        self.subscribers@
    }

    /// Every registered subscriber has been handed `event`.
    pub open spec fn all_notified(self, event: Event) -> bool {
        forall|j: int| 0 <= j < self.subscribers().len() ==> #[trigger] self.subscribers()[j].notified(event)
    }

    pub fn new() -> (r: EventBus)
        ensures
            r.count() == 0,
            r.subscribers().len() == 0,
    {
        EventBus { subscribers: Vec::new() }
    }

    /// Register a closure to be called with every event published from
    /// this point forward. Subscribers live as long as the bus does.
    pub fn subscribe<F: Fn(&Event) + Send + 'static>(&mut self, subscriber: F)
        requires
            forall|e: &Event| call_requires(subscriber, (e,)),
        ensures
            final(self).count() == old(self).count() + 1,
            final(self).subscribers().len() == old(self).subscribers().len() + 1,
            final(self).subscribers().drop_last() == old(self).subscribers(),
            forall|e: Event|
                #[trigger] final(self).subscribers().last().notified(e) <==> call_ensures(
                    subscriber,
                    (&e,),
                    (),
                ),
    {
        push_subscriber(&mut self.subscribers, FnSubscriber::new(subscriber));
    }

    /// Deliver `event` to every current subscriber, in subscription order.
    pub fn publish(&self, event: Event)
        ensures
            self.all_notified(event),
    {
        let n = self.subscribers.len();
        let mut i: usize = 0;
        while i < n
            invariant
                n == self.subscribers@.len(),
                i <= n,
                forall|j: int| 0 <= j < i ==> #[trigger] self.subscribers@[j].notified(event),
            decreases n - i,
        {
            self.subscribers[i].notify(&event);
            i = i + 1;
        }
    }

    pub fn subscriber_count(&self) -> (r: usize)
        ensures
            r == self.count(),
    {
        self.subscribers.len()
    }
}

/// A subscriber is handed every event published after it subscribed:
/// once `subscribe(f)` has made it the last entry, a `publish(e)` on the
/// bus runs `f` on `e`. (Every earlier subscriber is handed `e` too.)
pub proof fn law_subscribers_see_later_events<F: Fn(&Event) + Send + 'static>(
    bus: EventBus,
    f: F,
    e: Event,
)
    requires
        bus.subscribers().len() > 0,
        forall|x: Event|
            #[trigger] bus.subscribers().last().notified(x) <==> call_ensures(f, (&x,), ()),
        bus.all_notified(e),
    ensures
        call_ensures(f, (&e,), ()),
        forall|j: int| 0 <= j < bus.subscribers().len() ==> #[trigger] bus.subscribers()[j].notified(e),
{
    let n = bus.subscribers().len() as int;
    assert(bus.subscribers().last() == bus.subscribers()[n - 1]);
    assert(bus.subscribers()[n - 1].notified(e));
    assert(bus.subscribers().last().notified(e));
}

impl Default for EventBus {
    fn default() -> (r: EventBus)
        ensures
            r.count() == 0,
    {
        EventBus::new()
    }
}

} // verus!
