//! Event bus — typed WM events for hooks and plugin notification.

use vstd::prelude::*;
use crate::rwm_core::client::ClientId;
use crate::rwm_core::monitor::MonitorId;

verus! {

/// Window manager events that plugins and hooks can subscribe to.
#[derive(Debug, Clone)]
pub enum WmEvent {
    /// A new client was managed.
    ClientCreated { id: ClientId, win: u32, class: String, title: String },
    /// A client was destroyed / unmanaged.
    ClientDestroyed { id: ClientId, win: u32 },
    /// Focus changed to a client.
    ClientFocused { id: ClientId },
    /// A client lost focus.
    ClientUnfocused { id: ClientId },
    /// Tags on a monitor changed.
    TagSwitched { mon: MonitorId, old_tags: u32, new_tags: u32 },
    /// Layout changed on a monitor.
    LayoutChanged { mon: MonitorId, symbol: String },
    /// A bar segment was clicked.
    BarClick { mon: MonitorId, x: i32, button: u32 },
    /// WM startup complete.
    Startup,
    /// WM is shutting down.
    Shutdown,
    /// Config was reloaded.
    ConfigReloaded,
}

/// A hook callback: anything that can be called with each event.
///
/// A hook describes its state by a model, and which models can follow a
/// call with a given event.
pub trait Hook: Send {
    /// The hook's state, as far as the hook describes it.
    spec fn model(&self) -> int;

    /// Whether a hook in state `self`, handed `event`, can end up in a state
    /// whose model is `after`.
    spec fn step(&self, event: WmEvent, after: int) -> bool;

    /// Hand the hook one event.
    fn call_hook(&mut self, event: &WmEvent)
        ensures
            old(self).step(*event, final(self).model()),
    ;
}

/// `FnMut::call_mut`: invokes the closure with the event.
#[verifier::external_body]
fn call_closure<F: FnMut(&WmEvent)>(f: &mut F, event: &WmEvent) {
    f(event)
}

impl<F: FnMut(&WmEvent) + Send> Hook for F {
    /// A closure's captured state is out of sight: its model is a constant,
    /// and a call may leave it in any state.
    open spec fn model(&self) -> int {
        0
    }

    open spec fn step(&self, event: WmEvent, after: int) -> bool {
        true
    }

    fn call_hook(&mut self, event: &WmEvent) {
        call_closure(self, event)
    }
}

/// Callback type for event hooks.
pub type HookFn = Box<dyn Hook>;

/// Hook `before`, handed `event`, can become `after`.
pub open spec fn hook_called(before: HookFn, event: WmEvent, after: HookFn) -> bool {
    (*before).step(event, (*after).model())
}

/// `str::starts_with` with a string pattern: whether `prefix` is a prefix of `s`.
#[verifier::external_body]
pub(crate) fn str_starts_with(s: &str, prefix: &str) -> (r: bool)
    ensures
        r == prefix@.is_prefix_of(s@),
{
    s.starts_with(prefix)
}

/// Simple event bus: register callbacks, fire events.
///
/// Hook `i` is registered under name `i`.
pub struct EventBus {
    names: Vec<String>,
    hooks: Vec<HookFn>,
}

/// The registered hooks with their names, in registration order.
pub open spec fn pairs_of(names: Seq<String>, hooks: Seq<HookFn>) -> Seq<(Seq<char>, HookFn)> {
    Seq::new(names.len(), |i: int| (names[i]@, hooks[i]))
}

/// The hooks whose name does not start with `prefix`.
pub open spec fn keep_unprefixed(prefix: Seq<char>) -> spec_fn((Seq<char>, HookFn)) -> bool {
    |p: (Seq<char>, HookFn)| !prefix.is_prefix_of(p.0)
}

/// `after` is `before` with every hook handed `event` once: the names stay,
/// and hook `i` of `after` is what hook `i` of `before` became.
pub open spec fn all_called(before: Seq<(Seq<char>, HookFn)>, event: WmEvent, after: Seq<(Seq<char>, HookFn)>) -> bool {
    &&& after.len() == before.len()
    &&& forall|i: int| 0 <= i < before.len() ==> (#[trigger] after[i]).0 == before[i].0
    &&& forall|i: int| 0 <= i < before.len() ==> hook_called(before[i].1, event, (#[trigger] after[i]).1)
}

impl EventBus {
    #[verifier::type_invariant]
    spec fn inv(self) -> bool {
        self.names@.len() == self.hooks@.len()
    }

    /// The registered hooks with their names, in registration order.
    pub closed spec fn view(&self) -> Seq<(Seq<char>, HookFn)> {
        pairs_of(self.names@, self.hooks@)
    }

    pub fn new() -> (r: Self)
        ensures
            r@ == Seq::<(Seq<char>, HookFn)>::empty(),
    {
        let hooks: Vec<HookFn> = Vec::new();
        assert(hooks@.len() == 0);
        let r = Self { names: Vec::new(), hooks };
        assert(r@ =~= Seq::<(Seq<char>, HookFn)>::empty());
        r
    }

    /// Register a named hook.
    pub fn subscribe(&mut self, name: &str, hook: HookFn)
        ensures
            final(self)@ == old(self)@.push((name@, hook)),
    {
        let (mut names, mut hooks) = self.take();
        let ghost old_names = names@;
        let ghost old_hooks = hooks@;
        names.push(name.to_owned());
        hooks.push(hook);
        proof {
            vstd::seq::axiom_seq_push_len(old_hooks, hook);
            vstd::seq::axiom_seq_push_index_same(old_hooks, hook, old_hooks.len() as int);
            assert forall|j: int| 0 <= j < old_hooks.len() implies hooks@[j] == old_hooks[j] by {
                vstd::seq::axiom_seq_push_index_different(old_hooks, hook, j);
            }
        }
        assert(pairs_of(names@, hooks@) =~= pairs_of(old_names, old_hooks).push((name@, hook)));
        *self = EventBus { names, hooks };
    }

    /// Move the names and hooks out, leaving an empty bus behind.
    fn take(&mut self) -> (r: (Vec<String>, Vec<HookFn>))
        ensures
            pairs_of(r.0@, r.1@) == old(self)@,
            r.0@.len() == r.1@.len(),
    {
        let mut e = EventBus::new();
        std::mem::swap(self, &mut e);
        proof {
            use_type_invariant(&e);
        }
        let EventBus { names, hooks } = e;
        (names, hooks)
    }

    /// Remove all hooks with the given name prefix (for hot-reload); the
    /// others stay, in their order.
    pub fn unsubscribe_prefix(&mut self, prefix: &str)
        ensures
            final(self)@ == old(self)@.filter(keep_unprefixed(prefix@)),
    {
        let (mut names, mut hooks) = self.take();
        let ghost orig = pairs_of(names@, hooks@);
        let ghost pred = keep_unprefixed(prefix@);
        let mut i: usize = 0;
        let ghost mut k: int = 0;
        while i < names.len()
            invariant
                names@.len() == hooks@.len(),
                pred == keep_unprefixed(prefix@),
                0 <= i <= names@.len(),
                0 <= k <= orig.len(),
                pairs_of(names@, hooks@).subrange(0, i as int) == orig.subrange(0, k).filter(pred),
                pairs_of(names@, hooks@).subrange(i as int, names@.len() as int) == orig.subrange(k, orig.len() as int),
            decreases names@.len() - i,
        {
            let ghost before = pairs_of(names@, hooks@);
            proof {
                assert(before.subrange(i as int, before.len() as int).len() > 0);
                assert(k < orig.len());
                assert(before[i as int] == orig[k]) by {
                    assert(before.subrange(i as int, before.len() as int)[0] == before[i as int]);
                }
                orig.subrange(0, k).lemma_filter_push(orig[k], pred);
                assert(orig.subrange(0, k + 1) == orig.subrange(0, k).push(orig[k]));
            }
            if str_starts_with(names[i].as_str(), prefix) {
                let ghost old_hooks = hooks@;
                names.remove(i);
                hooks.remove(i);
                proof {
                    old_hooks.remove_ensures(i as int);
                }
                let ghost after = pairs_of(names@, hooks@);
                assert(after =~= before.remove(i as int));
                assert(after.subrange(0, i as int) =~= before.subrange(0, i as int));
                assert(after.subrange(i as int, after.len() as int) =~= before.subrange(i + 1, before.len() as int));
            } else {
                i += 1;
                assert(before.subrange(0, i as int) =~= before.subrange(0, i - 1).push(before[i - 1]));
                assert(before.subrange(i as int, before.len() as int) =~= before.subrange(i - 1, before.len() as int).subrange(1, before.len() - (i - 1)));
            }
            proof {
                k = k + 1;
                assert(orig.subrange(k, orig.len() as int) =~= orig.subrange(k - 1, orig.len() as int).subrange(1, orig.len() - (k - 1)));
            }
        }
        assert(orig.subrange(0, orig.len() as int) == orig);
        assert(pairs_of(names@, hooks@).subrange(0, i as int) == pairs_of(names@, hooks@));
        assert(k == orig.len()) by {
            assert(pairs_of(names@, hooks@).subrange(i as int, names@.len() as int).len() == 0);
        }
        *self = EventBus { names, hooks };
    }

    /// Fire an event to all subscribers, in registration order: each hook
    /// is called once with the event.
    pub fn emit(&mut self, event: &WmEvent)
        ensures
            all_called(old(self)@, *event, final(self)@),
    {
        let (names, mut hooks) = self.take();
        let ghost start = hooks@;
        let mut i: usize = 0;
        while i < hooks.len()
            invariant
                names@.len() == start.len(),
                hooks@.len() == start.len(),
                i <= hooks@.len(),
                forall|j: int| 0 <= j < i ==> #[trigger] hook_called(start[j], *event, hooks@[j]),
                forall|j: int| #![trigger hooks@[j]] i <= j < hooks@.len() ==> hooks@[j] == start[j],
            decreases hooks@.len() - i,
        {
            let ghost before = hooks@;
            hooks[i].call_hook(event);
            proof {
                let x = choose|x: HookFn| hooks@ == #[trigger] before.update(i as int, x);
                vstd::seq::axiom_seq_update_len(before, i as int, x);
                vstd::seq::axiom_seq_update_same(before, i as int, x);
                assert forall|j: int| 0 <= j < before.len() && j != i implies hooks@[j] == before[j] by {
                    vstd::seq::axiom_seq_update_different(before, j, i as int, x);
                }
            }
            i += 1;
        }
        *self = EventBus { names, hooks };
    }
}

/// An `emit` after `subscribe(name, hook)` hands the event to the new hook,
/// last, and to every hook registered before, as an `emit` before the
/// subscription would have.
pub proof fn law_emit_reaches_subscribed(
    hooks: Seq<(Seq<char>, HookFn)>,
    name: Seq<char>,
    hook: HookFn,
    event: WmEvent,
    after: Seq<(Seq<char>, HookFn)>,
)
    requires
        all_called(hooks.push((name, hook)), event, after),
    ensures
        after.len() == hooks.len() + 1,
        after.last().0 == name,
        hook_called(hook, event, after.last().1),
        all_called(hooks, event, after.drop_last()),
{
    let pushed = hooks.push((name, hook));
    vstd::seq::axiom_seq_push_len(hooks, (name, hook));
    vstd::seq::axiom_seq_push_index_same(hooks, (name, hook), hooks.len() as int);
    assert(after.last() == after[hooks.len() as int]);
    assert forall|i: int| 0 <= i < hooks.len() implies (#[trigger] after.drop_last()[i]).0 == hooks[i].0
        && hook_called(hooks[i].1, event, after.drop_last()[i].1) by {
        vstd::seq::axiom_seq_push_index_different(hooks, (name, hook), i);
        assert(pushed[i] == hooks[i]);
        assert(after.drop_last()[i] == after[i]);
    }
}

/// An `emit` after `unsubscribe_prefix(prefix)` hands the event to no hook
/// whose name starts with `prefix`, and to every hook whose name does not.
pub proof fn law_emit_skips_unsubscribed(
    hooks: Seq<(Seq<char>, HookFn)>,
    prefix: Seq<char>,
    event: WmEvent,
    after: Seq<(Seq<char>, HookFn)>,
)
    requires
        all_called(hooks.filter(keep_unprefixed(prefix)), event, after),
    ensures
        forall|i: int| 0 <= i < after.len() ==> !prefix.is_prefix_of(#[trigger] after[i].0),
        forall|j: int| 0 <= j < hooks.len() && !prefix.is_prefix_of(#[trigger] hooks[j].0) ==> exists|i: int|
            0 <= i < after.len() && after[i].0 == hooks[j].0 && #[trigger] hook_called(hooks[j].1, event, after[i].1),
{
    let kept = hooks.filter(keep_unprefixed(prefix));
    assert forall|i: int| 0 <= i < after.len() implies !prefix.is_prefix_of(#[trigger] after[i].0) by {
        hooks.lemma_filter_pred(keep_unprefixed(prefix), i);
        assert(after[i].0 == kept[i].0);
    }
    assert forall|j: int| 0 <= j < hooks.len() && !prefix.is_prefix_of(#[trigger] hooks[j].0) implies exists|i: int|
        0 <= i < after.len() && after[i].0 == hooks[j].0 && #[trigger] hook_called(hooks[j].1, event, after[i].1) by {
        assert(keep_unprefixed(prefix)(hooks[j]));
        hooks.lemma_filter_contains(keep_unprefixed(prefix), j);
        let i = choose|i: int| 0 <= i < kept.len() && kept[i] == hooks[j];
        assert(after[i].0 == kept[i].0);
        assert(hook_called(kept[i].1, event, after[i].1));
    }
}

impl Default for EventBus {
    fn default() -> (r: Self)
        ensures
            r@ == Seq::<(Seq<char>, HookFn)>::empty(),
    {
        Self::new()
    }
}

} // verus!
