//! The registry of event listeners: which handler listens to which event, in which window,
//! whether it listens once, and which handlers an event reaches.
use vstd::prelude::*;
use vstd::string::*;
use crate::ids::{hyphenated, is_v4, random_uuid, uuid_text};

verus! {

broadcast use {vstd::seq_lib::group_filter_ensures, vstd::seq_lib::group_seq_properties};

/// The text of an optional string.
pub open spec fn opt_view(o: Option<String>) -> Option<Seq<char>> {
    match o {
        Some(s) => Some(s@),
        None => None,
    }
}

/// A registered handler: its id, the event it listens to, the window it is bound to (none
/// for a handler of the whole application), and whether it is removed once it has fired.
pub struct HandlerEntry {
    pub id: u128,
    pub event: String,
    pub window: Option<String>,
    pub once: bool,
}

/// The model of a registered handler.
pub struct HandlerView {
    pub id: u128,
    pub event: Seq<char>,
    pub window: Option<Seq<char>>,
    pub once: bool,
}

impl View for HandlerEntry {
    type V = HandlerView;

    open spec fn view(&self) -> HandlerView {
        HandlerView { id: self.id, event: self.event@, window: opt_view(self.window), once: self.once }
    }
}

/// Whether an event triggered for `window` (none: for every window) reaches the handler:
/// the event is the handler's, and either no window is named or it is the handler's window.
pub open spec fn reaches(h: HandlerView, event: Seq<char>, window: Option<Seq<char>>) -> bool {
    h.event == event && (window is None || window == h.window)
}

/// Whether the handler stays registered after the event: all but the once-handlers it reached.
pub open spec fn stays(h: HandlerView, event: Seq<char>, window: Option<Seq<char>>) -> bool {
    !(reaches(h, event, window) && h.once)
}

/// The handlers that an event reaches, in the order they were registered.
pub open spec fn reached(hs: Seq<HandlerView>, event: Seq<char>, window: Option<Seq<char>>) -> Seq<HandlerView> {
    hs.filter(|h: HandlerView| reaches(h, event, window))
}

/// The ids of the handlers that an event reaches, in the order they were registered.
pub open spec fn reached_ids(hs: Seq<HandlerView>, event: Seq<char>, window: Option<Seq<char>>) -> Seq<u128> {
    reached(hs, event, window).map_values(|h: HandlerView| h.id)
}

/// The handlers that are left after an event: the once-handlers it reached are gone.
pub open spec fn after_trigger(hs: Seq<HandlerView>, event: Seq<char>, window: Option<Seq<char>>) -> Seq<HandlerView> {
    hs.filter(|h: HandlerView| stays(h, event, window))
}

/// The handlers other than the one with id `id`.
pub open spec fn without_id(hs: Seq<HandlerView>, id: u128) -> Seq<HandlerView> {
    hs.filter(|h: HandlerView| h.id != id)
}

/// No two handlers share an id.
pub open spec fn ids_distinct(hs: Seq<HandlerView>) -> bool {
    forall|i: int, j: int| 0 <= i < hs.len() && 0 <= j < hs.len() && i != j ==> #[trigger] hs[i].id != #[trigger] hs[j].id
}

/// Whether a handler with id `id` is registered.
pub open spec fn has_id(hs: Seq<HandlerView>, id: u128) -> bool {
    exists|i: int| 0 <= i < hs.len() && #[trigger] hs[i].id == id
}

/// The models of a sequence of entries.
pub open spec fn views(v: Seq<HandlerEntry>) -> Seq<HandlerView> {
    v.map_values(|h: HandlerEntry| h@)
}

/// Keeping some of the handlers keeps their ids distinct.
pub proof fn lemma_filter_keeps_ids_distinct(hs: Seq<HandlerView>, pred: spec_fn(HandlerView) -> bool)
    requires
        ids_distinct(hs),
    ensures
        ids_distinct(hs.filter(pred)),
    decreases hs.len(),
{
    reveal(Seq::filter);
    if hs.len() > 0 {
        let init = hs.drop_last();
        assert(ids_distinct(init));
        lemma_filter_keeps_ids_distinct(init, pred);
        if pred(hs.last()) {
            let f = init.filter(pred);
            assert forall|k: int| 0 <= k < f.len() implies #[trigger] f[k].id != hs.last().id by {
                assert(f.contains(f[k]));
                init.lemma_filter_contains_rev(pred, f[k]);
                assert(init.contains(f[k]));
                let j = choose|j: int| 0 <= j < init.len() && init[j] == f[k];
                assert(hs[j] == init[j]);
                assert(hs[hs.len() - 1] == hs.last());
            }
            let g = f.push(hs.last());
            assert forall|a: int, b: int| 0 <= a < g.len() && 0 <= b < g.len() && a != b implies #[trigger] g[a].id != #[trigger] g[b].id by {
                if a < f.len() && b < f.len() {
                    assert(g[a] == f[a] && g[b] == f[b]);
                } else if a < f.len() {
                    assert(g[a] == f[a]);
                } else if b < f.len() {
                    assert(g[b] == f[b]);
                }
            }
        }
    }
}

/// One more step of a filter: the filter of `take(i + 1)` extends that of `take(i)` by the
/// `i`-th element where it passes.
pub proof fn lemma_filter_step<A>(s: Seq<A>, i: int, pred: spec_fn(A) -> bool)
    requires
        0 <= i < s.len(),
    ensures
        s.take(i + 1).filter(pred) == if pred(s[i]) {
            s.take(i).filter(pred).push(s[i])
        } else {
            s.take(i).filter(pred)
        },
{
    reveal(Seq::filter);
    assert(s.take(i + 1).drop_last() =~= s.take(i));
    assert(s.take(i + 1).last() == s[i]);
}

/// The listeners of a window manager, with the names of the global objects through which the
/// webviews receive events.
pub struct Listeners {
    handlers: Vec<HandlerEntry>,
    function_name: String,
    listeners_object_name: String,
    queue_object_name: String,
}

impl View for Listeners {
    type V = Seq<HandlerView>;

    closed spec fn view(&self) -> Seq<HandlerView> {
        self.handlers@.map_values(|h: HandlerEntry| h@)
    }
}

/// A copy of an optional string.
fn copy_window(w: &Option<String>) -> (r: Option<String>)
    ensures
        opt_view(r) == opt_view(*w),
{
    match w {
        Some(s) => Some(s.clone()),
        None => None,
    }
}

/// Whether two optional strings are equal.
fn same_window(a: &Option<String>, b: &Option<String>) -> (r: bool)
    ensures
        r == (opt_view(*a) == opt_view(*b)),
{
    match (a, b) {
        (Some(x), Some(y)) => x.eq(y),
        (None, None) => true,
        _ => false,
    }
}

impl HandlerEntry {
    /// A copy of the entry.
    fn copy(&self) -> (r: HandlerEntry)
        ensures
            r@ == self@,
    {
        HandlerEntry {
            id: self.id,
            event: self.event.clone(),
            window: copy_window(&self.window),
            once: self.once,
        }
    }

    /// Whether an event triggered for `window` reaches this handler.
    fn is_reached_by(&self, event: &str, window: &Option<String>) -> (r: bool)
        ensures
            r == reaches(self@, event@, opt_view(*window)),
    {
        let same_event = self.event.eq(&String::from_str(event));
        same_event && (window.is_none() || same_window(window, &self.window))
    }
}

impl Listeners {
    /// The names of the global objects: those the manager was made with.
    pub closed spec fn names(&self) -> (Seq<char>, Seq<char>, Seq<char>) {
        (self.function_name@, self.listeners_object_name@, self.queue_object_name@)
    }

    /// The listeners are well formed: no two handlers share an id.
    pub closed spec fn wf(&self) -> bool {
        ids_distinct(self@)
    }

    /// Well-formed listeners hold no two handlers with one id.
    pub proof fn lemma_ids_distinct(&self)
        requires
            self.wf(),
        ensures
            ids_distinct(self@),
    {
    }

    /// No handler, and empty object names: a stand-in while the real listeners are worked on.
    pub(crate) fn placeholder() -> (r: Listeners)
        ensures
            r.wf(),
    {
        let r = Listeners { handlers: Vec::new(), function_name: String::new(), listeners_object_name: String::new(), queue_object_name: String::new() };
        proof {
            assert(r@ =~= Seq::<HandlerView>::empty());
        }
        r
    }

    /// No handler, and the three object names, each the text of a fresh random UUID.
    pub(crate) fn new() -> (r: Listeners)
        ensures
            r.wf(),
            r@ == Seq::<HandlerView>::empty(),
            exists|a: u128, b: u128, c: u128| is_v4(a) && is_v4(b) && is_v4(c) && r.names() == (hyphenated(a), hyphenated(b), hyphenated(c)),
    {
        let f = random_uuid();
        let l = random_uuid();
        let q = random_uuid();
        let r = Listeners {
            handlers: Vec::new(),
            function_name: uuid_text(f),
            listeners_object_name: uuid_text(l),
            queue_object_name: uuid_text(q),
        };
        proof {
            assert(r@ =~= Seq::<HandlerView>::empty());
            assert(r.names() == (hyphenated(f), hyphenated(l), hyphenated(q)));
        }
        r
    }

    /// The handlers without the one with id `id`.
    fn remove_id(&mut self, id: u128)
        requires
            old(self).wf(),
        ensures
            final(self).wf(),
            final(self)@ == without_id(old(self)@, id),
            final(self).names() == old(self).names(),
    {
        let ghost hs = self@;
        let ghost pred = |h: HandlerView| h.id != id;
        let mut kept: Vec<HandlerEntry> = Vec::new();
        let mut i: usize = 0;
        while i < self.handlers.len()
            invariant
                hs == self@,
                hs == views(self.handlers@),
                pred == (|h: HandlerView| h.id != id),
                i <= self.handlers@.len(),
                views(kept@) == hs.take(i as int).filter(pred),
            decreases self.handlers@.len() - i,
        {
            proof {
                lemma_filter_step(hs, i as int, pred);
                assert(hs[i as int] == self.handlers@[i as int]@);
            }
            if self.handlers[i].id != id {
                let e = self.handlers[i].copy();
                let ghost before = kept@;
                kept.push(e);
                proof {
                    assert(views(kept@) =~= views(before).push(e@));
                    assert(pred(hs[i as int]));
                }
            } else {
                proof {
                    assert(!pred(hs[i as int]));
                }
            }
            i = i + 1;
        }
        proof {
            assert(hs.take(i as int) =~= hs);
            lemma_filter_keeps_ids_distinct(hs, pred);
        }
        self.handlers = kept;
        proof {
            assert(self@ =~= views(kept@));
        }
    }

    /// Registers a handler under a fresh random id, which it returns. A handler that held the
    /// same id before is replaced.
    fn register(&mut self, event: String, window: Option<String>, once: bool) -> (id: u128)
        requires
            old(self).wf(),
        ensures
            is_v4(id),
            final(self).wf(),
            final(self)@ == without_id(old(self)@, id).push(
                HandlerView { id, event: event@, window: opt_view(window), once },
            ),
            final(self).names() == old(self).names(),
    {
        let id = random_uuid();
        self.remove_id(id);
        let ghost before = self@;
        let entry = HandlerEntry { id, event, window, once };
        let ghost ev = entry@;
        self.handlers.push(entry);
        proof {
            assert(self@ =~= before.push(ev));
            lemma_register_keeps_ids_distinct(old(self)@, ev);
        }
        id
    }

    /// Registers a handler for `event` in `window` (none: a handler of the whole application)
    /// and returns its id.
    pub(crate) fn listen(&mut self, event: String, window: Option<String>) -> (id: u128)
        requires
            old(self).wf(),
        ensures
            is_v4(id),
            final(self).wf(),
            final(self)@ == without_id(old(self)@, id).push(
                HandlerView { id, event: event@, window: opt_view(window), once: false },
            ),
            final(self).names() == old(self).names(),
    {
        self.register(event, window, false)
    }

    /// Registers a handler that is removed once an event has reached it, and returns its id.
    pub(crate) fn once(&mut self, event: String, window: Option<String>) -> (id: u128)
        requires
            old(self).wf(),
        ensures
            is_v4(id),
            final(self).wf(),
            final(self)@ == without_id(old(self)@, id).push(
                HandlerView { id, event: event@, window: opt_view(window), once: true },
            ),
            final(self).names() == old(self).names(),
    {
        self.register(event, window, true)
    }

    /// Removes the handler with id `id`, wherever it is registered.
    pub(crate) fn unlisten(&mut self, id: u128)
        requires
            old(self).wf(),
        ensures
            final(self).wf(),
            final(self)@ == without_id(old(self)@, id),
            final(self).names() == old(self).names(),
    {
        self.remove_id(id);
    }

    /// Triggers `event` for `window` (none: for every window): returns the ids of the handlers
    /// it reaches, in the order they were registered, and removes the once-handlers among them.
    pub(crate) fn trigger(&mut self, event: &str, window: &Option<String>) -> (fired: Vec<u128>)
        requires
            old(self).wf(),
        ensures
            final(self).wf(),
            fired@ == reached_ids(old(self)@, event@, opt_view(*window)),
            final(self)@ == after_trigger(old(self)@, event@, opt_view(*window)),
            final(self).names() == old(self).names(),
    {
        let ghost hs = self@;
        let ghost w = opt_view(*window);
        let ghost hit = |h: HandlerView| reaches(h, event@, w);
        let ghost keep = |h: HandlerView| stays(h, event@, w);
        let mut kept: Vec<HandlerEntry> = Vec::new();
        let mut fired: Vec<u128> = Vec::new();
        let mut i: usize = 0;
        while i < self.handlers.len()
            invariant
                hs == self@,
                hs == views(self.handlers@),
                w == opt_view(*window),
                hit == (|h: HandlerView| reaches(h, event@, w)),
                keep == (|h: HandlerView| stays(h, event@, w)),
                i <= self.handlers@.len(),
                views(kept@) == hs.take(i as int).filter(keep),
                fired@ == hs.take(i as int).filter(hit).map_values(|h: HandlerView| h.id),
            decreases self.handlers@.len() - i,
        {
            proof {
                lemma_filter_step(hs, i as int, hit);
                lemma_filter_step(hs, i as int, keep);
                assert(hs[i as int] == self.handlers@[i as int]@);
            }
            let reached_now = self.handlers[i].is_reached_by(event, window);
            if reached_now {
                let ghost before = fired@;
                fired.push(self.handlers[i].id);
                proof {
                    assert(hit(hs[i as int]));
                    assert(fired@ =~= hs.take(i + 1).filter(hit).map_values(|h: HandlerView| h.id));
                }
            } else {
                proof {
                    assert(!hit(hs[i as int]));
                }
            }
            if !(reached_now && self.handlers[i].once) {
                let e = self.handlers[i].copy();
                let ghost before = kept@;
                kept.push(e);
                proof {
                    assert(keep(hs[i as int]));
                    assert(views(kept@) =~= views(before).push(e@));
                }
            } else {
                proof {
                    assert(!keep(hs[i as int]));
                }
            }
            i = i + 1;
        }
        proof {
            assert(hs.take(i as int) =~= hs);
            lemma_filter_keeps_ids_distinct(hs, keep);
        }
        self.handlers = kept;
        proof {
            assert(self@ =~= views(kept@));
        }
        fired
    }

    /// The ids of the registered handlers, in the order of registration.
    pub fn ids(&self) -> (r: Vec<u128>)
        ensures
            r@ == self@.map_values(|h: HandlerView| h.id),
    {
        let mut r: Vec<u128> = Vec::new();
        let mut i: usize = 0;
        while i < self.handlers.len()
            invariant
                i <= self.handlers@.len(),
                r@ == self@.take(i as int).map_values(|h: HandlerView| h.id),
            decreases self.handlers@.len() - i,
        {
            proof {
                assert(self@[i as int] == self.handlers@[i as int]@);
            }
            r.push(self.handlers[i].id);
            proof {
                assert(r@ =~= self@.take(i + 1).map_values(|h: HandlerView| h.id));
            }
            i = i + 1;
        }
        proof {
            assert(self@.take(i as int) =~= self@);
        }
        r
    }

    /// The name of the function through which a webview receives events.
    pub fn function_name(&self) -> (r: String)
        ensures
            r@ == self.names().0,
    {
        self.function_name.clone()
    }

    /// The name of the object that holds a webview's listeners.
    pub fn listeners_object_name(&self) -> (r: String)
        ensures
            r@ == self.names().1,
    {
        self.listeners_object_name.clone()
    }

    /// The name of the queue of events that arrived before any listener.
    pub fn queue_object_name(&self) -> (r: String)
        ensures
            r@ == self.names().2,
    {
        self.queue_object_name.clone()
    }
}

/// A handler that has just been registered is reached by its event when the event is
/// triggered for every window or for the handler's own window.
pub proof fn law_registered_handler_is_reached(
    hs: Seq<HandlerView>,
    h: HandlerView,
    window: Option<Seq<char>>,
)
    requires
        window is None || window == h.window,
    ensures
        reached_ids(without_id(hs, h.id).push(h), h.event, window).contains(h.id),
{
    reveal(Seq::filter);
    let all = without_id(hs, h.id).push(h);
    let pred = |x: HandlerView| reaches(x, h.event, window);
    assert(all.drop_last() =~= without_id(hs, h.id));
    assert(pred(all.last()));
    let r = all.filter(pred);
    assert(r.last() == h);
    let ids = reached_ids(hs.filter(|x: HandlerView| x.id != h.id).push(h), h.event, window);
    assert(ids[ids.len() - 1] == h.id);
}

/// After `unlisten(id)` no event reaches a handler with that id.
pub proof fn law_unlistened_handler_is_not_reached(
    hs: Seq<HandlerView>,
    id: u128,
    event: Seq<char>,
    window: Option<Seq<char>>,
)
    ensures
        !reached_ids(without_id(hs, id), event, window).contains(id),
{
    let rest = without_id(hs, id);
    let pred = |x: HandlerView| reaches(x, event, window);
    let r = rest.filter(pred);
    let ids = reached_ids(rest, event, window);
    if ids.contains(id) {
        let k = choose|k: int| 0 <= k < ids.len() && ids[k] == id;
        assert(r.contains(r[k]));
        rest.lemma_filter_contains_rev(pred, r[k]);
        let j = choose|j: int| 0 <= j < rest.len() && rest[j] == r[k];
        assert((|x: HandlerView| x.id != id)(hs.filter(|x: HandlerView| x.id != id)[j]));
    }
}

/// A once-handler is reached by at most one event: after an event reaches it, it is no longer
/// registered.
pub proof fn law_once_handler_fires_once(
    hs: Seq<HandlerView>,
    k: int,
    event: Seq<char>,
    window: Option<Seq<char>>,
)
    requires
        ids_distinct(hs),
        0 <= k < hs.len(),
        hs[k].once,
        reaches(hs[k], event, window),
    ensures
        !has_id(after_trigger(hs, event, window), hs[k].id),
{
    let keep = |x: HandlerView| stays(x, event, window);
    let after = hs.filter(keep);
    if has_id(after, hs[k].id) {
        let i = choose|i: int| 0 <= i < after.len() && #[trigger] after[i].id == hs[k].id;
        assert(keep(after[i]));
        assert(after.contains(after[i]));
        hs.lemma_filter_contains_rev(keep, after[i]);
        let j = choose|j: int| 0 <= j < hs.len() && hs[j] == after[i];
        assert(j == k);
    }
}

/// An event removes no handler but the once-handlers it reaches: every other handler stays,
/// in the same order.
pub proof fn law_trigger_keeps_other_handlers(
    hs: Seq<HandlerView>,
    event: Seq<char>,
    window: Option<Seq<char>>,
    h: HandlerView,
)
    requires
        hs.contains(h),
        !h.once || !reaches(h, event, window),
    ensures
        after_trigger(hs, event, window).contains(h),
{
    let keep = |x: HandlerView| stays(x, event, window);
    let i = choose|i: int| 0 <= i < hs.len() && hs[i] == h;
    assert(keep(hs[i]));
}

/// Registering a handler in place of any handler with its id keeps the ids distinct.
pub proof fn lemma_register_keeps_ids_distinct(hs: Seq<HandlerView>, h: HandlerView)
    requires
        ids_distinct(hs),
    ensures
        ids_distinct(without_id(hs, h.id).push(h)),
{
    let pred = |x: HandlerView| x.id != h.id;
    let before = hs.filter(pred);
    lemma_filter_keeps_ids_distinct(hs, pred);
    assert forall|k: int| 0 <= k < before.len() implies #[trigger] before[k].id != h.id by {
        assert(pred(before[k]));
    }
    let after = before.push(h);
    assert forall|a: int, b: int| 0 <= a < after.len() && 0 <= b < after.len() && a != b
        implies #[trigger] after[a].id != #[trigger] after[b].id by {
        if a < before.len() && b < before.len() {
            assert(after[a] == before[a] && after[b] == before[b]);
        } else if a < before.len() {
            assert(after[a] == before[a]);
        } else if b < before.len() {
            assert(after[b] == before[b]);
        }
    }
}

/// With distinct ids, an event reaches exactly the handlers that match it: the id of a
/// registered handler is among the reached ids if and only if the event reaches that handler,
/// and no id is reached twice.
pub proof fn law_trigger_reaches_exactly_matching(hs: Seq<HandlerView>, event: Seq<char>, window: Option<Seq<char>>)
    requires
        ids_distinct(hs),
    ensures
        forall|k: int| 0 <= k < hs.len() ==> (reached_ids(hs, event, window).contains(#[trigger] hs[k].id)
            <==> reaches(hs[k], event, window)),
        reached_ids(hs, event, window).no_duplicates(),
{
    let hit = |x: HandlerView| reaches(x, event, window);
    let r = hs.filter(hit);
    let ids = reached_ids(hs, event, window);
    lemma_filter_keeps_ids_distinct(hs, hit);
    assert forall|k: int| 0 <= k < hs.len() implies (ids.contains(#[trigger] hs[k].id)
        <==> reaches(hs[k], event, window)) by {
        if reaches(hs[k], event, window) {
            assert(hit(hs[k]));
            assert(r.contains(hs[k]));
            let i = choose|i: int| 0 <= i < r.len() && r[i] == hs[k];
            assert(ids[i] == hs[k].id);
        }
        if ids.contains(hs[k].id) {
            let i = choose|i: int| 0 <= i < ids.len() && ids[i] == hs[k].id;
            assert(r.contains(r[i]));
            hs.lemma_filter_contains_rev(hit, r[i]);
            let j = choose|j: int| 0 <= j < hs.len() && hs[j] == r[i];
            assert(hs[j].id == hs[k].id);
            assert(j == k);
            assert(hit(r[i]));
        }
    }
    assert forall|a: int, b: int| 0 <= a < ids.len() && 0 <= b < ids.len() && a != b implies ids[a] != ids[b] by {
        assert(ids[a] == r[a].id && ids[b] == r[b].id);
    }
}

/// A handler registered with `listen` or `once` is reached by an event, once, exactly when the
/// event matches it: its id is then among the reached ids, and no id is reached twice.
pub proof fn law_registered_handler_fires_once_per_match(
    hs: Seq<HandlerView>,
    h: HandlerView,
    event: Seq<char>,
    window: Option<Seq<char>>,
)
    requires
        ids_distinct(hs),
    ensures
        ids_distinct(without_id(hs, h.id).push(h)),
        reached_ids(without_id(hs, h.id).push(h), event, window).contains(h.id) == reaches(h, event, window),
        reached_ids(without_id(hs, h.id).push(h), event, window).no_duplicates(),
{
    lemma_register_keeps_ids_distinct(hs, h);
    let all = without_id(hs, h.id).push(h);
    law_trigger_reaches_exactly_matching(all, event, window);
    assert(all[all.len() - 1] == h);
}

/// A step that changes the registered handlers: an event triggered for a window (none: for
/// every window), an `unlisten` of an id, or the registration of a handler by `listen` or `once`.
pub enum HandlerStep {
    Trigger(Seq<char>, Option<Seq<char>>),
    Unlisten(u128),
    Register(HandlerView),
}

/// The handlers after one step, as `trigger`, `unlisten`, `listen` and `once` leave them.
pub open spec fn apply_step(hs: Seq<HandlerView>, step: HandlerStep) -> Seq<HandlerView> {
    match step {
        HandlerStep::Trigger(event, window) => after_trigger(hs, event, window),
        HandlerStep::Unlisten(id) => without_id(hs, id),
        HandlerStep::Register(h) => without_id(hs, h.id).push(h),
    }
}

/// The handlers after the first `n` steps.
pub open spec fn state_after(hs: Seq<HandlerView>, steps: Seq<HandlerStep>, n: nat) -> Seq<HandlerView>
    decreases n,
{
    if n == 0 {
        hs
    } else {
        apply_step(state_after(hs, steps, (n - 1) as nat), steps[n - 1])
    }
}

/// Whether step `i` is an event that reaches the handler with id `id`, in the state the earlier
/// steps left.
pub open spec fn reached_at(hs: Seq<HandlerView>, steps: Seq<HandlerStep>, i: nat, id: u128) -> bool {
    match steps[i as int] {
        HandlerStep::Trigger(event, window) => reached_ids(state_after(hs, steps, i), event, window).contains(id),
        _ => false,
    }
}

/// Whether step `i` is an event that reaches no id twice.
pub open spec fn reaches_each_once_at(hs: Seq<HandlerView>, steps: Seq<HandlerStep>, i: nat) -> bool {
    match steps[i as int] {
        HandlerStep::Trigger(event, window) => reached_ids(state_after(hs, steps, i), event, window).no_duplicates(),
        _ => true,
    }
}

/// Whether the step is an event that matches the handler.
pub open spec fn step_matches(step: HandlerStep, h: HandlerView) -> bool {
    match step {
        HandlerStep::Trigger(event, window) => reaches(h, event, window),
        _ => false,
    }
}

/// Whether the step removes the handler: an `unlisten` of its id, or, for a once-handler, an
/// event that matches it.
pub open spec fn step_removes(step: HandlerStep, h: HandlerView) -> bool {
    match step {
        HandlerStep::Unlisten(id) => id == h.id,
        HandlerStep::Trigger(event, window) => h.once && reaches(h, event, window),
        HandlerStep::Register(_) => false,
    }
}

/// Whether none of the first `i` steps removes the handler.
pub open spec fn alive_before(steps: Seq<HandlerStep>, i: nat, h: HandlerView) -> bool {
    forall|j: int| 0 <= j < i ==> !step_removes(#[trigger] steps[j], h)
}

/// No step registers a handler with id `id`.
pub open spec fn no_register_of(steps: Seq<HandlerStep>, id: u128) -> bool {
    forall|j: int| 0 <= j < steps.len() ==> !(#[trigger] steps[j] matches HandlerStep::Register(g) && g.id == id)
}

/// A handler with id `id` is kept by a filter only if it was there.
proof fn lemma_filter_has_id(hs: Seq<HandlerView>, pred: spec_fn(HandlerView) -> bool, id: u128)
    requires
        has_id(hs.filter(pred), id),
    ensures
        has_id(hs, id),
{
    let f = hs.filter(pred);
    let i = choose|i: int| 0 <= i < f.len() && #[trigger] f[i].id == id;
    assert(f.contains(f[i]));
    hs.lemma_filter_contains_rev(pred, f[i]);
    let j = choose|j: int| 0 <= j < hs.len() && hs[j] == f[i];
    assert(hs[j].id == id);
}

/// One step keeps a handler it does not remove (and keeps ids distinct), and leaves no
/// handler with the id of one it removes, while no registration reuses the id.
proof fn lemma_step_keeps_handler(hs: Seq<HandlerView>, step: HandlerStep, h: HandlerView)
    requires
        ids_distinct(hs),
        !(step matches HandlerStep::Register(g) && g.id == h.id),
    ensures
        ids_distinct(apply_step(hs, step)),
        hs.contains(h) && !step_removes(step, h) ==> apply_step(hs, step).contains(h),
        hs.contains(h) && step_removes(step, h) ==> !has_id(apply_step(hs, step), h.id),
        !has_id(hs, h.id) ==> !has_id(apply_step(hs, step), h.id),
{
    match step {
        HandlerStep::Trigger(event, window) => {
            let keep = |x: HandlerView| stays(x, event, window);
            lemma_filter_keeps_ids_distinct(hs, keep);
            if hs.contains(h) && !step_removes(step, h) {
                law_trigger_keeps_other_handlers(hs, event, window, h);
            }
            if has_id(apply_step(hs, step), h.id) {
                lemma_filter_has_id(hs, keep, h.id);
                if hs.contains(h) && step_removes(step, h) {
                    law_once_handler_fires_once(hs, choose|k: int| 0 <= k < hs.len() && hs[k] == h, event, window);
                }
            }
        },
        HandlerStep::Unlisten(id) => {
            let pred = |x: HandlerView| x.id != id;
            lemma_filter_keeps_ids_distinct(hs, pred);
            if hs.contains(h) && id != h.id {
                let k = choose|k: int| 0 <= k < hs.len() && hs[k] == h;
                assert(pred(hs[k]));
            }
            if has_id(apply_step(hs, step), h.id) {
                lemma_filter_has_id(hs, pred, h.id);
                let f = hs.filter(pred);
                let i = choose|i: int| 0 <= i < f.len() && #[trigger] f[i].id == h.id;
                assert(pred(f[i]));
            }
        },
        HandlerStep::Register(g) => {
            lemma_register_keeps_ids_distinct(hs, g);
            let pred = |x: HandlerView| x.id != g.id;
            let kept = hs.filter(pred);
            if hs.contains(h) {
                let k = choose|k: int| 0 <= k < hs.len() && hs[k] == h;
                assert(pred(hs[k]));
                assert(kept.contains(h));
                let i = choose|i: int| 0 <= i < kept.len() && kept[i] == h;
                assert(kept.push(g)[i] == h);
            }
            let after = kept.push(g);
            if has_id(after, h.id) {
                let i = choose|i: int| 0 <= i < after.len() && #[trigger] after[i].id == h.id;
                if i < kept.len() {
                    assert(after[i] == kept[i]);
                    assert(has_id(kept, h.id));
                    lemma_filter_has_id(hs, pred, h.id);
                }
            }
        },
    }
}

/// The whole life of a registered handler, over any sequence of later steps that registers no
/// other handler under its id: at every step the ids stay distinct and no event reaches an id
/// twice; an event reaches the handler exactly when it matches the handler and no earlier step
/// removed it (an `unlisten` of its id, or, for a once-handler, an earlier matching event).
pub proof fn law_handler_lifetime(hs: Seq<HandlerView>, h: HandlerView, steps: Seq<HandlerStep>)
    requires
        ids_distinct(hs),
        no_register_of(steps, h.id),
    ensures
        forall|i: nat| i < steps.len() ==> #[trigger] reached_at(without_id(hs, h.id).push(h), steps, i, h.id)
            == (alive_before(steps, i, h) && step_matches(steps[i as int], h)),
        forall|i: nat| i < steps.len() ==> #[trigger] reaches_each_once_at(without_id(hs, h.id).push(h), steps, i),
{
    let start = without_id(hs, h.id).push(h);
    lemma_register_keeps_ids_distinct(hs, h);
    assert(start[start.len() - 1] == h);
    assert forall|i: nat| i <= steps.len() implies {
        let st = #[trigger] state_after(start, steps, i);
        &&& ids_distinct(st)
        &&& alive_before(steps, i, h) ==> st.contains(h)
        &&& !alive_before(steps, i, h) ==> !has_id(st, h.id)
    } by {
        lemma_lifetime_state(start, h, steps, i);
    }
    assert forall|i: nat| i < steps.len() implies #[trigger] reached_at(start, steps, i, h.id)
        == (alive_before(steps, i, h) && step_matches(steps[i as int], h)) && reaches_each_once_at(start, steps, i) by {
        let st = state_after(start, steps, i);
        assert(ids_distinct(st));
        match steps[i as int] {
            HandlerStep::Trigger(event, window) => {
                law_trigger_reaches_exactly_matching(st, event, window);
                if alive_before(steps, i, h) {
                    assert(st.contains(h));
                    let k = choose|k: int| 0 <= k < st.len() && st[k] == h;
                    assert(st[k].id == h.id);
                } else {
                    assert(!has_id(st, h.id));
                    let ids = reached_ids(st, event, window);
                    if ids.contains(h.id) {
                        let hit = |x: HandlerView| reaches(x, event, window);
                        let r = st.filter(hit);
                        let a = choose|a: int| 0 <= a < ids.len() && ids[a] == h.id;
                        assert(r[a].id == h.id);
                        assert(has_id(r, h.id));
                        lemma_filter_has_id(st, hit, h.id);
                    }
                }
            },
            _ => {},
        }
    }
    assert forall|i: nat| i < steps.len() implies #[trigger] reaches_each_once_at(start, steps, i) by {
        assert(reached_at(start, steps, i, h.id) == (alive_before(steps, i, h) && step_matches(
            steps[i as int],
            h,
        )));
    }
}

/// The state after `i` steps in the life of the handler `h` (see `law_handler_lifetime`).
proof fn lemma_lifetime_state(start: Seq<HandlerView>, h: HandlerView, steps: Seq<HandlerStep>, i: nat)
    requires
        ids_distinct(start),
        start.contains(h),
        no_register_of(steps, h.id),
        i <= steps.len(),
    ensures
        ids_distinct(state_after(start, steps, i)),
        alive_before(steps, i, h) ==> state_after(start, steps, i).contains(h),
        !alive_before(steps, i, h) ==> !has_id(state_after(start, steps, i), h.id),
    decreases i,
{
    if i > 0 {
        let n = (i - 1) as nat;
        lemma_lifetime_state(start, h, steps, n);
        let prev = state_after(start, steps, n);
        let step = steps[n as int];
        assert(!(step matches HandlerStep::Register(g) && g.id == h.id));
        lemma_step_keeps_handler(prev, step, h);
        if alive_before(steps, i, h) {
            assert forall|j: int| 0 <= j < n implies !step_removes(#[trigger] steps[j], h) by {
                assert(!step_removes(steps[j], h));
            }
            assert(!step_removes(step, h));
        } else if alive_before(steps, n, h) {
            let j = choose|j: int| 0 <= j < i && step_removes(#[trigger] steps[j], h);
            assert(j == n);
        }
    }
}

/// A handler registered with `listen` is reached by every later event that matches it, and
/// only by those, as long as its id is neither unlistened nor registered again.
pub proof fn law_listened_handler_fires_on_every_match(hs: Seq<HandlerView>, h: HandlerView, steps: Seq<HandlerStep>)
    requires
        ids_distinct(hs),
        !h.once,
        no_register_of(steps, h.id),
        forall|j: int| 0 <= j < steps.len() ==> #[trigger] steps[j] != HandlerStep::Unlisten(h.id),
    ensures
        forall|i: nat| i < steps.len() ==> #[trigger] reached_at(without_id(hs, h.id).push(h), steps, i, h.id)
            == step_matches(steps[i as int], h),
{
    law_handler_lifetime(hs, h, steps);
    assert forall|i: nat| i < steps.len() implies #[trigger] reached_at(without_id(hs, h.id).push(h), steps, i, h.id)
        == step_matches(steps[i as int], h) by {
        assert forall|j: int| 0 <= j < i implies !step_removes(#[trigger] steps[j], h) by {
            assert(steps[j] != HandlerStep::Unlisten(h.id));
        }
    }
}

/// A handler registered with `once` is reached by at most one event over any later sequence of
/// steps that does not register its id again: by the first event that matches it, if no
/// `unlisten` of its id comes before.
pub proof fn law_once_handler_fires_at_most_once(hs: Seq<HandlerView>, h: HandlerView, steps: Seq<HandlerStep>)
    requires
        ids_distinct(hs),
        h.once,
        no_register_of(steps, h.id),
    ensures
        forall|i: nat, j: nat| i < j < steps.len() ==> !(#[trigger] reached_at(without_id(hs, h.id).push(h), steps, i, h.id)
            && #[trigger] reached_at(without_id(hs, h.id).push(h), steps, j, h.id)),
        forall|i: nat| i < steps.len() ==> #[trigger] reached_at(without_id(hs, h.id).push(h), steps, i, h.id)
            == (step_matches(steps[i as int], h) && forall|j: int| 0 <= j < i ==> !step_matches(#[trigger] steps[j], h)
                && steps[j] != HandlerStep::Unlisten(h.id)),
{
    let start = without_id(hs, h.id).push(h);
    law_handler_lifetime(hs, h, steps);
    assert forall|i: nat, j: nat| i < j < steps.len() implies !(#[trigger] reached_at(start, steps, i, h.id)
        && #[trigger] reached_at(start, steps, j, h.id)) by {
        if reached_at(start, steps, i, h.id) {
            assert(step_matches(steps[i as int], h));
            assert(step_removes(steps[i as int], h));
            assert(!alive_before(steps, j, h));
        }
    }
    assert forall|i: nat| i < steps.len() implies #[trigger] reached_at(start, steps, i, h.id)
        == (step_matches(steps[i as int], h) && forall|j: int| 0 <= j < i ==> !step_matches(#[trigger] steps[j], h)
            && steps[j] != HandlerStep::Unlisten(h.id)) by {
        if alive_before(steps, i, h) {
            assert forall|j: int| 0 <= j < i implies !step_matches(#[trigger] steps[j], h)
                && steps[j] != HandlerStep::Unlisten(h.id) by {
                assert(!step_removes(steps[j], h));
            }
        } else {
            let j = choose|j: int| 0 <= j < i && step_removes(#[trigger] steps[j], h);
            assert(step_matches(steps[j], h) || steps[j] == HandlerStep::Unlisten(h.id));
        }
    }
}

/// After `unlisten(id)`, no later event reaches a handler with that id, over any sequence of
/// steps that does not register the id again.
pub proof fn law_unlistened_handler_never_reached(hs: Seq<HandlerView>, id: u128, steps: Seq<HandlerStep>)
    requires
        ids_distinct(hs),
        no_register_of(steps, id),
    ensures
        forall|i: nat| i < steps.len() ==> !(#[trigger] reached_at(without_id(hs, id), steps, i, id)),
{
    let start = without_id(hs, id);
    let pred = |x: HandlerView| x.id != id;
    lemma_filter_keeps_ids_distinct(hs, pred);
    if has_id(start, id) {
        let i = choose|i: int| 0 <= i < start.len() && #[trigger] start[i].id == id;
        assert(pred(start[i]));
    }
    let dummy = HandlerView { id, event: Seq::empty(), window: None, once: false };
    assert forall|i: nat| i <= steps.len() implies #[trigger] ids_distinct(state_after(start, steps, i))
        && !has_id(state_after(start, steps, i), id) by {
        lemma_absent_state(start, dummy, steps, i);
    }
    assert forall|i: nat| i < steps.len() implies !(#[trigger] reached_at(start, steps, i, id)) by {
        let st = state_after(start, steps, i);
        assert(ids_distinct(st) && !has_id(st, id));
        match steps[i as int] {
            HandlerStep::Trigger(event, window) => {
                let ids = reached_ids(st, event, window);
                if ids.contains(id) {
                    let hit = |x: HandlerView| reaches(x, event, window);
                    let r = st.filter(hit);
                    let a = choose|a: int| 0 <= a < ids.len() && ids[a] == id;
                    assert(r[a].id == id);
                    assert(has_id(r, id));
                    lemma_filter_has_id(st, hit, id);
                }
            },
            _ => {},
        }
    }
}

/// A handler id that is not registered stays unregistered while no step registers it.
proof fn lemma_absent_state(start: Seq<HandlerView>, h: HandlerView, steps: Seq<HandlerStep>, i: nat)
    requires
        ids_distinct(start),
        !has_id(start, h.id),
        no_register_of(steps, h.id),
        i <= steps.len(),
    ensures
        ids_distinct(state_after(start, steps, i)),
        !has_id(state_after(start, steps, i), h.id),
    decreases i,
{
    if i > 0 {
        let n = (i - 1) as nat;
        lemma_absent_state(start, h, steps, n);
        let step = steps[n as int];
        assert(!(step matches HandlerStep::Register(g) && g.id == h.id));
        lemma_step_keeps_handler(state_after(start, steps, n), step, h);
    }
}

} // verus!
