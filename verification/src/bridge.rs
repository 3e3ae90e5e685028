//! The OSC bridge: owns the plugin registry and the registered handlers,
//! classifies each incoming message, fans the resulting event out to the
//! interested handlers and aggregates their optional side effects, and
//! tracks per-transport registration with the host.
//!
//! The transport itself (sockets, wire encoding, readiness polling) lives
//! outside this crate; the bridge is handed decoded messages and the
//! recipient counts of its own control sends as plain values.

use vstd::prelude::*;
use vstd::std_specs::vec::vec_index_mut;
use vstd::string::StringExecFns;

use crate::classify::Event;
use crate::classify::EventView;
use crate::classify::classify;
use crate::classify::spec_classify;
use crate::effect::Aggregate;
use crate::effect::append_effects;
use crate::effect::as_filter_chain;
use crate::osc::OscMsg;
use crate::osc::OscMsgView;
use crate::registry::Registry;
use crate::registry::RegistryModel;
use crate::registry::id_fanout;
use crate::registry::indices_bounded;
use crate::registry::lemma_added_bounded;
use crate::registry::lemma_removed_bounded;
use crate::registry::spec_added;
use crate::registry::spec_removed;
use crate::registry::url_fanout;
use crate::registry::url_listed;

verus! {

/// A handler interested in some plugin urls. The bridge invokes the four
/// callbacks for every plugin instance whose url the handler declared;
/// each callback may emit an optional side effect or fail, and a failure
/// aborts the dispatch of the current message.
///
/// Real-valued callback arguments carry the raw bits of the 32-bit
/// IEEE-754 value, as in [`crate::OscArg::Float`].
pub trait CarlaPluginHandler {
    type Effect;

    type Error;

    /// The plugin urls this handler declares interest in. A verified
    /// handler overrides this to name its urls; the default declares none.
    open spec fn spec_plugin_urls(&self) -> Seq<Seq<char>> {
        Seq::empty()
    }

    fn get_plugin_urls(&self) -> (r: Vec<String>)
        ensures
            r@.map_values(|s: String| s@) == self.spec_plugin_urls(),
    ;

    fn on_plugin_added(&mut self, id: i32, url: &String) -> Result<
        Option<Self::Effect>,
        Self::Error,
    > {
        Ok(None)
    }

    fn on_plugin_removed(&mut self, id: i32) -> Result<Option<Self::Effect>, Self::Error> {
        Ok(None)
    }

    fn on_param_changed(&mut self, id: i32, param: i32, value: u32) -> Result<
        Option<Self::Effect>,
        Self::Error,
    > {
        Ok(None)
    }

    fn on_value_changed(&mut self, id: i32, param: i32, value: u32) -> Result<
        Option<Self::Effect>,
        Self::Error,
    > {
        Ok(None)
    }
}

/// A transport's registration flag after a `/register` send that reached
/// `recipients` listeners: reaching at least one registers it; reaching
/// nobody leaves it as it was, which is not an error.
pub open spec fn registered_after_register(flag: bool, recipients: usize) -> bool {
    flag || recipients > 0
}

/// A transport's registration flag after an `/unregister` send that reached
/// `recipients` listeners: reaching at least one clears it.
pub open spec fn registered_after_unregister(flag: bool, recipients: usize) -> bool {
    flag && recipients == 0
}

/// The registry after one classified event: an added event records the
/// interested handlers for the instance, a removed event deletes the
/// instance's entry, and every other event leaves the registry unchanged.
pub open spec fn step_model(m: RegistryModel, ev: EventView) -> RegistryModel {
    match ev {
        EventView::PluginAdded { id, url } => spec_added(m, id, url),
        EventView::PluginRemoved { id } => spec_removed(m, id),
        _ => m,
    }
}

/// The registry after a whole poll drain: every queued message is
/// classified and applied, in order, none skipped.
pub open spec fn run_model(m: RegistryModel, msgs: Seq<OscMsgView>) -> RegistryModel
    decreases msgs.len(),
{
    if msgs.len() == 0 {
        m
    } else {
        run_model(step_model(m, spec_classify(msgs[0])), msgs.drop_first())
    }
}

/// The messages of a drained batch, as specification values, in arrival
/// order.
pub open spec fn drained_views(messages: Seq<OscMsg>) -> Seq<OscMsgView> {
    messages.map_values(|m: OscMsg| m@)
}

/// Whether one classified event reaches any handler under the given
/// registry: an added event through its url's interest list, a removed or
/// value event through the instance's recorded handlers; an unrecognized
/// message reaches nobody.
pub open spec fn event_dispatches(m: RegistryModel, ev: EventView) -> bool {
    match ev {
        EventView::PluginAdded { url, .. } => url_fanout(m, url).len() > 0,
        EventView::PluginRemoved { id } => id_fanout(m, id).len() > 0,
        EventView::ParamChanged { id, .. } => id_fanout(m, id).len() > 0,
        EventView::ValueChanged { id, .. } => id_fanout(m, id).len() > 0,
        EventView::Unrecognized => false,
    }
}

/// Whether any message of a drain reaches any handler, the registry
/// evolving message by message.
pub open spec fn drain_dispatches(m: RegistryModel, msgs: Seq<OscMsgView>) -> bool
    decreases msgs.len(),
{
    if msgs.len() == 0 {
        false
    } else {
        event_dispatches(m, spec_classify(msgs[0])) || drain_dispatches(
            step_model(m, spec_classify(msgs[0])),
            msgs.drop_first(),
        )
    }
}

proof fn lemma_run_model_push(m: RegistryModel, msgs: Seq<OscMsgView>, x: OscMsgView)
    ensures
        run_model(m, msgs.push(x)) == step_model(run_model(m, msgs), spec_classify(x)),
    decreases msgs.len(),
{
    if msgs.len() == 0 {
        assert(msgs.push(x)[0] == x);
        assert(msgs.push(x).drop_first() =~= Seq::<OscMsgView>::empty());
        assert(run_model(m, msgs.push(x)) == run_model(
            step_model(m, spec_classify(x)),
            Seq::<OscMsgView>::empty(),
        ));
        assert(run_model(m, msgs) == m);
    } else {
        assert(msgs.push(x)[0] == msgs[0]);
        assert(msgs.push(x).drop_first() =~= msgs.drop_first().push(x));
        let m2 = step_model(m, spec_classify(msgs[0]));
        lemma_run_model_push(m2, msgs.drop_first(), x);
        assert(run_model(m, msgs.push(x)) == run_model(m2, msgs.drop_first().push(x)));
        assert(run_model(m, msgs) == run_model(m2, msgs.drop_first()));
    }
}

/// The bridge between the OSC host and the registered plugin handlers.
#[verifier::ext_equal]
pub struct CarlaOSC<H> {
    /// The IP this process listens on, when known; the host's
    /// unregistration contract wants the bare IP as payload.
    pub listen_ip: Option<String>,
    /// Whether the `/register` send over UDP reached the host.
    pub registered_udp: bool,
    /// Whether the `/register` send over TCP reached the host.
    pub registered_tcp: bool,
    /// url-to-handlers and instance-to-handlers index.
    pub registry: Registry,
    /// The handlers, in registration order; the registry refers to them by
    /// index into this list.
    pub plugin_handlers: Vec<H>,
}

/// The payload of a `/register` control message: the bridge's own listen
/// url with the host's expected path appended.
pub fn register_payload(listen_url: &String) -> (p: String)
    ensures
        p@ == listen_url@ + "/Carla"@,
{
    listen_url.clone().concat("/Carla")
}

impl<H: CarlaPluginHandler> CarlaOSC<H> {
    /// Well-formedness: the registry's indices are well formed and every
    /// handler index they record names one of the registered handlers.
    pub open spec fn wf(&self) -> bool {
        &&& self.registry.wf()
        &&& indices_bounded(self.registry@, self.plugin_handlers@.len() as int)
    }

    /// A fresh bridge: no handlers, nothing registered, no live instances.
    pub fn new(listen_ip: Option<String>) -> (r: Self)
        ensures
            r.wf(),
            r.listen_ip == listen_ip,
            !r.registered_udp,
            !r.registered_tcp,
            r.plugin_handlers@.len() == 0,
            r.registry@.urls == Map::<Seq<char>, Seq<usize>>::empty(),
            r.registry@.ids == Map::<i32, Seq<usize>>::empty(),
    {
        let r = CarlaOSC {
            listen_ip,
            registered_udp: false,
            registered_tcp: false,
            registry: Registry::new(),
            plugin_handlers: Vec::new(),
        };
        proof {
            assert forall|u: Seq<char>, j: int|
                #![trigger url_fanout(r.registry@, u)[j]]
                0 <= j < url_fanout(r.registry@, u).len() implies url_fanout(r.registry@, u)[j]
                < r.plugin_handlers@.len() as int by {
                assert(!r.registry@.urls.dom().contains(u));
            }
            assert forall|k: i32, j: int|
                #![trigger id_fanout(r.registry@, k)[j]]
                0 <= j < id_fanout(r.registry@, k).len() implies id_fanout(r.registry@, k)[j]
                < r.plugin_handlers@.len() as int by {
                assert(!r.registry@.ids.dom().contains(k));
            }
        }
        r
    }

    /// A fresh bridge with no listen IP recorded yet.
    pub fn default() -> (r: Self)
        ensures
            r.wf(),
            r.listen_ip is None,
            !r.registered_udp,
            !r.registered_tcp,
            r.plugin_handlers@.len() == 0,
            r.registry@.urls == Map::<Seq<char>, Seq<usize>>::empty(),
            r.registry@.ids == Map::<i32, Seq<usize>>::empty(),
    {
        Self::new(None)
    }

    /// Register one handler at configuration time: record its interest in
    /// each of its declared urls and append it to the handler list. Handlers
    /// cannot be added or removed once the bridge is running.
    pub fn with(self, plugin_handler: H) -> (r: Self)
        requires
            self.wf(),
            forall|i: int, j: int|
                0 <= i < j < plugin_handler.spec_plugin_urls().len()
                    ==> plugin_handler.spec_plugin_urls()[i] != plugin_handler.spec_plugin_urls()[j],
        ensures
            r.wf(),
            r.plugin_handlers@ == self.plugin_handlers@.push(plugin_handler),
            r.listen_ip == self.listen_ip,
            r.registered_udp == self.registered_udp,
            r.registered_tcp == self.registered_tcp,
            r.registry@.ids == self.registry@.ids,
            forall|u: Seq<char>|
                #![trigger url_fanout(r.registry@, u)]
                url_fanout(r.registry@, u) == (if plugin_handler.spec_plugin_urls().contains(u) {
                    url_fanout(self.registry@, u).push(self.plugin_handlers@.len() as usize)
                } else {
                    url_fanout(self.registry@, u)
                }),
    {
        let mut this = self;
        let plugin_idx = this.plugin_handlers.len();
        let urls = plugin_handler.get_plugin_urls();
        proof {
            assert(forall|i: int|
                0 <= i < urls@.len() ==> urls@[i]@ == plugin_handler.spec_plugin_urls()[i]);
            assert forall|i: int, j: int| 0 <= i < j < urls@.len() implies urls@[i]@
                != urls@[j]@ by {
                assert(plugin_handler.spec_plugin_urls()[i] != plugin_handler.spec_plugin_urls()[j]);
            }
        }
        this.registry.register_handler_urls(plugin_idx, &urls);
        this.plugin_handlers.push(plugin_handler);
        proof {
            let n0 = self.plugin_handlers@.len() as int;
            assert forall|u: Seq<char>, j: int|
                #![trigger url_fanout(this.registry@, u)[j]]
                0 <= j < url_fanout(this.registry@, u).len() implies url_fanout(this.registry@, u)[j]
                < n0 + 1 by {
                assert(url_fanout(this.registry@, u) == (if url_listed(urls@, u) {
                    url_fanout(self.registry@, u).push(plugin_idx)
                } else {
                    url_fanout(self.registry@, u)
                }));
                if j < url_fanout(self.registry@, u).len() {
                    assert(url_fanout(self.registry@, u)[j] < n0);
                }
            }
            assert forall|k: i32, j: int|
                #![trigger id_fanout(this.registry@, k)[j]]
                0 <= j < id_fanout(this.registry@, k).len() implies id_fanout(this.registry@, k)[j]
                < n0 + 1 by {
                assert(this.registry@.ids == self.registry@.ids);
                assert(id_fanout(this.registry@, k) == id_fanout(self.registry@, k));
            }
        }
        proof {
            assert forall|u: Seq<char>|
                url_listed(urls@, u) == plugin_handler.spec_plugin_urls().contains(u) by {
                if url_listed(urls@, u) {
                    let w = choose|w: int| 0 <= w < urls@.len() && urls@[w]@ == u;
                    assert(plugin_handler.spec_plugin_urls()[w] == u);
                }
                if plugin_handler.spec_plugin_urls().contains(u) {
                    let w = choose|w: int|
                        0 <= w < plugin_handler.spec_plugin_urls().len()
                            && plugin_handler.spec_plugin_urls()[w] == u;
                    assert(urls@[w]@ == u);
                }
            }
        }
        this
    }

    /// Dispatch an added event: record and invoke the handlers interested in
    /// the url, in registration order, and aggregate their effects. An
    /// unknown url dispatches to nobody, changes nothing and succeeds.
    pub fn on_plugin_added(&mut self, id: i32, url: &String) -> (r: Result<
        Option<Aggregate<H::Effect>>,
        H::Error,
    >)
        requires
            old(self).wf(),
        ensures
            final(self).wf(),
            final(self).listen_ip == old(self).listen_ip,
            final(self).registered_udp == old(self).registered_udp,
            final(self).registered_tcp == old(self).registered_tcp,
            final(self).plugin_handlers@.len() == old(self).plugin_handlers@.len(),
            final(self).registry@ == spec_added(old(self).registry@, id, url@),
            url_fanout(old(self).registry@, url@).len() == 0 ==> (r matches Ok(a) && a is None)
                && final(self).registry == old(self).registry && final(self).plugin_handlers
                == old(self).plugin_handlers,
    {
        let handler_idxs = self.registry.on_added(id, url);
        proof {
            lemma_added_bounded(
                old(self).registry@,
                id,
                url@,
                old(self).plugin_handlers@.len() as int,
            );
        }
        let mut filters: Vec<H::Effect> = Vec::new();
        let mut k: usize = 0;
        while k < handler_idxs.len()
            invariant
                self.wf(),
                self.registry@ == spec_added(old(self).registry@, id, url@),
                forall|j: int|
                    0 <= j < handler_idxs@.len() ==> handler_idxs@[j]
                        < self.plugin_handlers@.len(),
                self.listen_ip == old(self).listen_ip,
                self.registered_udp == old(self).registered_udp,
                self.registered_tcp == old(self).registered_tcp,
                self.plugin_handlers@.len() == old(self).plugin_handlers@.len(),
                handler_idxs@ == url_fanout(old(self).registry@, url@),
                handler_idxs@.len() == 0 ==> self.registry == old(self).registry
                    && self.plugin_handlers == old(self).plugin_handlers,
                k <= handler_idxs@.len(),
                handler_idxs@.len() == 0 ==> filters@.len() == 0,
            decreases handler_idxs@.len() - k,
        {
            let idx = handler_idxs[k];
            let h = vec_index_mut(&mut self.plugin_handlers, idx);
            match h.on_plugin_added(id, url) {
                Ok(Some(f)) => filters.push(f),
                Ok(None) => {},
                Err(e) => {
                    return Err(e);
                },
            }
            k = k + 1;
        }
        Ok(as_filter_chain(filters))
    }

    /// Dispatch a removed event: invoke the handlers recorded for the
    /// instance and delete its entry, so a later instance reusing the id
    /// sees no stale fan-out. An unknown id dispatches to nobody and
    /// succeeds.
    pub fn on_plugin_removed(&mut self, id: i32) -> (r: Result<
        Option<Aggregate<H::Effect>>,
        H::Error,
    >)
        requires
            old(self).wf(),
        ensures
            final(self).wf(),
            final(self).listen_ip == old(self).listen_ip,
            final(self).registered_udp == old(self).registered_udp,
            final(self).registered_tcp == old(self).registered_tcp,
            final(self).plugin_handlers@.len() == old(self).plugin_handlers@.len(),
            final(self).registry@ == spec_removed(old(self).registry@, id),
            id_fanout(old(self).registry@, id).len() == 0 ==> (r matches Ok(a) && a is None)
                && final(self).registry == old(self).registry && final(self).plugin_handlers
                == old(self).plugin_handlers,
    {
        let handler_idxs = self.registry.on_removed(id);
        proof {
            lemma_removed_bounded(old(self).registry@, id, old(self).plugin_handlers@.len() as int);
        }
        let mut filters: Vec<H::Effect> = Vec::new();
        let mut k: usize = 0;
        while k < handler_idxs.len()
            invariant
                self.wf(),
                self.registry@ == spec_removed(old(self).registry@, id),
                forall|j: int|
                    0 <= j < handler_idxs@.len() ==> handler_idxs@[j]
                        < self.plugin_handlers@.len(),
                handler_idxs@.len() == 0 ==> self.registry == old(self).registry
                    && self.plugin_handlers == old(self).plugin_handlers,
                self.listen_ip == old(self).listen_ip,
                self.registered_udp == old(self).registered_udp,
                self.registered_tcp == old(self).registered_tcp,
                self.plugin_handlers@.len() == old(self).plugin_handlers@.len(),
                handler_idxs@ == id_fanout(old(self).registry@, id),
                k <= handler_idxs@.len(),
                handler_idxs@.len() == 0 ==> filters@.len() == 0,
            decreases handler_idxs@.len() - k,
        {
            let idx = handler_idxs[k];
            let h = vec_index_mut(&mut self.plugin_handlers, idx);
            match h.on_plugin_removed(id) {
                Ok(Some(f)) => filters.push(f),
                Ok(None) => {},
                Err(e) => {
                    return Err(e);
                },
            }
            k = k + 1;
        }
        Ok(as_filter_chain(filters))
    }

    /// Dispatch a parameter-changed event to the handlers recorded for the
    /// instance, read-only. An id never seen in an added event dispatches to
    /// zero handlers, produces no result and succeeds.
    pub fn on_param_changed(&mut self, id: i32, param: i32, value: u32) -> (r: Result<
        Option<Aggregate<H::Effect>>,
        H::Error,
    >)
        requires
            old(self).wf(),
        ensures
            final(self).wf(),
            final(self).listen_ip == old(self).listen_ip,
            final(self).registered_udp == old(self).registered_udp,
            final(self).registered_tcp == old(self).registered_tcp,
            final(self).plugin_handlers@.len() == old(self).plugin_handlers@.len(),
            final(self).registry == old(self).registry,
            id_fanout(old(self).registry@, id).len() == 0 ==> (r matches Ok(a) && a is None)
                && final(self).plugin_handlers == old(self).plugin_handlers,
    {
        let handler_idxs = self.registry.on_param_or_value(id);
        let mut filters: Vec<H::Effect> = Vec::new();
        let mut k: usize = 0;
        while k < handler_idxs.len()
            invariant
                self.wf(),
                self.registry == old(self).registry,
                self.listen_ip == old(self).listen_ip,
                self.registered_udp == old(self).registered_udp,
                self.registered_tcp == old(self).registered_tcp,
                self.plugin_handlers@.len() == old(self).plugin_handlers@.len(),
                handler_idxs@ == id_fanout(old(self).registry@, id),
                forall|j: int|
                    0 <= j < handler_idxs@.len() ==> handler_idxs@[j]
                        < self.plugin_handlers@.len(),
                handler_idxs@.len() == 0 ==> self.plugin_handlers == old(self).plugin_handlers,
                k <= handler_idxs@.len(),
                handler_idxs@.len() == 0 ==> filters@.len() == 0,
            decreases handler_idxs@.len() - k,
        {
            let idx = handler_idxs[k];
            let h = vec_index_mut(&mut self.plugin_handlers, idx);
            match h.on_param_changed(id, param, value) {
                Ok(Some(f)) => filters.push(f),
                Ok(None) => {},
                Err(e) => {
                    return Err(e);
                },
            }
            k = k + 1;
        }
        Ok(as_filter_chain(filters))
    }

    /// Dispatch a value-changed event to the handlers recorded for the
    /// instance, read-only. An id never seen in an added event dispatches to
    /// zero handlers, produces no result and succeeds.
    pub fn on_value_changed(&mut self, id: i32, param: i32, value: u32) -> (r: Result<
        Option<Aggregate<H::Effect>>,
        H::Error,
    >)
        requires
            old(self).wf(),
        ensures
            final(self).wf(),
            final(self).listen_ip == old(self).listen_ip,
            final(self).registered_udp == old(self).registered_udp,
            final(self).registered_tcp == old(self).registered_tcp,
            final(self).plugin_handlers@.len() == old(self).plugin_handlers@.len(),
            final(self).registry == old(self).registry,
            id_fanout(old(self).registry@, id).len() == 0 ==> (r matches Ok(a) && a is None)
                && final(self).plugin_handlers == old(self).plugin_handlers,
    {
        let handler_idxs = self.registry.on_param_or_value(id);
        let mut filters: Vec<H::Effect> = Vec::new();
        let mut k: usize = 0;
        while k < handler_idxs.len()
            invariant
                self.wf(),
                self.registry == old(self).registry,
                self.listen_ip == old(self).listen_ip,
                self.registered_udp == old(self).registered_udp,
                self.registered_tcp == old(self).registered_tcp,
                self.plugin_handlers@.len() == old(self).plugin_handlers@.len(),
                handler_idxs@ == id_fanout(old(self).registry@, id),
                forall|j: int|
                    0 <= j < handler_idxs@.len() ==> handler_idxs@[j]
                        < self.plugin_handlers@.len(),
                handler_idxs@.len() == 0 ==> self.plugin_handlers == old(self).plugin_handlers,
                k <= handler_idxs@.len(),
                handler_idxs@.len() == 0 ==> filters@.len() == 0,
            decreases handler_idxs@.len() - k,
        {
            let idx = handler_idxs[k];
            let h = vec_index_mut(&mut self.plugin_handlers, idx);
            match h.on_value_changed(id, param, value) {
                Ok(Some(f)) => filters.push(f),
                Ok(None) => {},
                Err(e) => {
                    return Err(e);
                },
            }
            k = k + 1;
        }
        Ok(as_filter_chain(filters))
    }

    /// Classify one decoded message and dispatch the resulting event. An
    /// unrecognized message is silently dropped: it dispatches to nobody,
    /// changes nothing and succeeds.
    pub fn on_osc_message(&mut self, message: &OscMsg) -> (r: Result<
        Option<Aggregate<H::Effect>>,
        H::Error,
    >)
        requires
            old(self).wf(),
        ensures
            final(self).wf(),
            final(self).listen_ip == old(self).listen_ip,
            final(self).registered_udp == old(self).registered_udp,
            final(self).registered_tcp == old(self).registered_tcp,
            final(self).plugin_handlers@.len() == old(self).plugin_handlers@.len(),
            final(self).registry@ == step_model(old(self).registry@, spec_classify(message@)),
            !event_dispatches(old(self).registry@, spec_classify(message@)) ==> (r matches Ok(a)
                && a is None) && final(self).registry == old(self).registry
                && final(self).plugin_handlers == old(self).plugin_handlers,
    {
        match classify(message) {
            Event::PluginAdded { id, url } => self.on_plugin_added(id, &url),
            Event::ParamChanged { id, param, value } => self.on_param_changed(id, param, value),
            Event::ValueChanged { id, param, value } => self.on_value_changed(id, param, value),
            Event::PluginRemoved { id } => self.on_plugin_removed(id),
            Event::Unrecognized => Ok(None),
        }
    }

    /// One poll cycle over everything the transport had queued: classify and
    /// dispatch every message, in order, and aggregate all side effects of
    /// the whole drain into one composite. A handler failure aborts the rest
    /// of the drain and propagates.
    pub fn run(&mut self, messages: Vec<OscMsg>) -> (r: Result<
        Option<Aggregate<H::Effect>>,
        H::Error,
    >)
        requires
            old(self).wf(),
        ensures
            final(self).wf(),
            final(self).listen_ip == old(self).listen_ip,
            final(self).registered_udp == old(self).registered_udp,
            final(self).registered_tcp == old(self).registered_tcp,
            final(self).plugin_handlers@.len() == old(self).plugin_handlers@.len(),
            r is Ok ==> final(self).registry@ == run_model(
                old(self).registry@,
                drained_views(messages@),
            ),
            messages@.len() == 0 ==> (r matches Ok(a) && a is None),
            !drain_dispatches(old(self).registry@, drained_views(messages@)) ==> (r matches Ok(a)
                && a is None) && final(self).registry == old(self).registry
                && final(self).plugin_handlers == old(self).plugin_handlers,
            r is Err ==> exists|j: int|
                #![trigger drained_views(messages@).take(j)]
                0 <= j <= messages@.len() && final(self).registry@ == run_model(
                    old(self).registry@,
                    drained_views(messages@).take(j),
                ),
    {
        let ghost msgs = drained_views(messages@);
        proof {
            assert(msgs.take(0) =~= Seq::<OscMsgView>::empty());
            assert(msgs.skip(0) =~= msgs);
        }
        let mut filters: Vec<H::Effect> = Vec::new();
        let mut k: usize = 0;
        while k < messages.len()
            invariant
                self.wf(),
                self.listen_ip == old(self).listen_ip,
                self.registered_udp == old(self).registered_udp,
                self.registered_tcp == old(self).registered_tcp,
                self.plugin_handlers@.len() == old(self).plugin_handlers@.len(),
                k <= messages@.len(),
                msgs == drained_views(messages@),
                self.registry@ == run_model(old(self).registry@, msgs.take(k as int)),
                !drain_dispatches(old(self).registry@, msgs) ==> self.registry
                    == old(self).registry && self.plugin_handlers == old(self).plugin_handlers
                    && filters@.len() == 0 && !drain_dispatches(
                    self.registry@,
                    msgs.skip(k as int),
                ),
            decreases messages@.len() - k,
        {
            proof {
                if !drain_dispatches(old(self).registry@, msgs) {
                    assert(msgs.skip(k as int)[0] == msgs[k as int]);
                    assert(!event_dispatches(self.registry@, spec_classify(msgs[k as int])));
                }
            }
            let ghost before = self.registry@;
            let step = self.on_osc_message(&messages[k]);
            proof {
                assert(msgs[k as int] == messages@[k as int]@);
                assert(msgs.take(k as int + 1) =~= msgs.take(k as int).push(msgs[k as int]));
                lemma_run_model_push(old(self).registry@, msgs.take(k as int), msgs[k as int]);
                assert(self.registry@ == run_model(old(self).registry@, msgs.take(k as int + 1)));
                if !drain_dispatches(old(self).registry@, msgs) {
                    assert(msgs.skip(k as int).drop_first() =~= msgs.skip(k as int + 1));
                    assert(step_model(before, spec_classify(msgs[k as int])) == before);
                    assert(!drain_dispatches(self.registry@, msgs.skip(k as int + 1)));
                }
            }
            match step {
                Ok(produced) => append_effects(&mut filters, produced),
                Err(e) => {
                    proof {
                        assert(0 <= k as int + 1 <= messages@.len());
                    }
                    return Err(e);
                },
            }
            k = k + 1;
        }
        proof {
            assert(msgs.take(messages@.len() as int) =~= msgs);
        }
        Ok(as_filter_chain(filters))
    }

    /// Record the outcome of one `/register` send over one transport.
    pub fn apply_register_outcome(&mut self, tcp: bool, recipients: usize)
        ensures
            final(self).registry == old(self).registry,
            final(self).plugin_handlers == old(self).plugin_handlers,
            final(self).listen_ip == old(self).listen_ip,
            final(self).registered_tcp == (if tcp {
                registered_after_register(old(self).registered_tcp, recipients)
            } else {
                old(self).registered_tcp
            }),
            final(self).registered_udp == (if tcp {
                old(self).registered_udp
            } else {
                registered_after_register(old(self).registered_udp, recipients)
            }),
    {
        if recipients > 0 {
            if tcp {
                self.registered_tcp = true;
            } else {
                self.registered_udp = true;
            }
        }
    }

    /// Whether an `/unregister` is owed for a transport at shutdown: only
    /// when the listen IP is known and that transport registered.
    pub fn should_unregister(&self, tcp: bool) -> (r: bool)
        ensures
            r == (self.listen_ip is Some && (if tcp {
                self.registered_tcp
            } else {
                self.registered_udp
            })),
    {
        if self.listen_ip.is_some() {
            if tcp {
                self.registered_tcp
            } else {
                self.registered_udp
            }
        } else {
            false
        }
    }

    /// The payload of an `/unregister` control message: the bare listen IP
    /// (no scheme, no port, no path), which is what the host's
    /// unregistration contract expects, unlike the registration payload.
    pub fn unregister_payload(&self) -> (p: Option<String>)
        ensures
            p is Some <==> self.listen_ip is Some,
            p matches Some(s) ==> (self.listen_ip matches Some(t) && s@ == t@),
    {
        match &self.listen_ip {
            Some(ip) => Some(ip.clone()),
            None => None,
        }
    }

    /// Record the outcome of one `/unregister` send over one transport.
    pub fn apply_unregister_outcome(&mut self, tcp: bool, recipients: usize)
        ensures
            final(self).registry == old(self).registry,
            final(self).plugin_handlers == old(self).plugin_handlers,
            final(self).listen_ip == old(self).listen_ip,
            final(self).registered_tcp == (if tcp {
                registered_after_unregister(old(self).registered_tcp, recipients)
            } else {
                old(self).registered_tcp
            }),
            final(self).registered_udp == (if tcp {
                old(self).registered_udp
            } else {
                registered_after_unregister(old(self).registered_udp, recipients)
            }),
    {
        if recipients > 0 {
            if tcp {
                self.registered_tcp = false;
            } else {
                self.registered_udp = false;
            }
        }
    }
}

/// Registration independence: each transport's flag follows its own send
/// outcome alone, so a send that reaches the host registers that transport
/// while a send that reaches nobody leaves the other unregistered, and at
/// shutdown an unregister is owed exactly for the transports whose flag is
/// set.
pub proof fn lemma_registration_independence(tcp_recipients: usize, udp_recipients: usize)
    requires
        tcp_recipients > 0,
        udp_recipients == 0,
    ensures
        registered_after_register(false, tcp_recipients),
        !registered_after_register(false, udp_recipients),
        registered_after_unregister(
            registered_after_register(false, tcp_recipients),
            udp_recipients,
        ),
{
}

} // verus!
