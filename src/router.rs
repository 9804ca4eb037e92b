use vstd::prelude::*;
use vstd::string::StringExecFns;

use crate::client::{
    after_connect, after_disconnect, connect_action, connect_request, fails_on, is_up,
    publish_request, strings, Action, ClientEvent, ConnState,
};
use crate::model::{Event, ProtocolError, Route, ServiceInfo, StreamInfo};
use crate::service::{
    dispatch_spec, fresh_stream, keys, remove_key, service_action, service_next, unique_keys,
    upsert, Service, ServiceView, StreamView,
};

verus! {

/// No two services share a name, and each keeps its streams' sensor ids apart.
pub open spec fn valid(v: Seq<ServiceView>) -> bool {
    &&& forall|i: int, j: int|
        0 <= i < v.len() && 0 <= j < v.len() && i != j ==> v[i].name != v[j].name
    &&& forall|i: int| 0 <= i < v.len() ==> unique_keys(#[trigger] v[i].streams)
}

pub open spec fn has_service(v: Seq<ServiceView>, name: Seq<char>) -> bool {
    exists|i: int| 0 <= i < v.len() && v[i].name == name
}

/// Position of the service called `name`, where there is one.
pub open spec fn service_index(v: Seq<ServiceView>, name: Seq<char>) -> int {
    choose|i: int| 0 <= i < v.len() && v[i].name == name
}

/// The service names, in the order the services were added.
pub open spec fn names(v: Seq<ServiceView>) -> Seq<Seq<char>> {
    v.map_values(|s: ServiceView| s.name)
}

/// The view of a service just built from `info`.
pub open spec fn fresh_service(info: ServiceInfo) -> ServiceView {
    ServiceView {
        name: info.name@,
        pub_topic: info.protocol.pub_topic@,
        sub_topics: strings(info.protocol.sub_topics@),
        streams: Seq::empty(),
        client: (ConnState::Disconnected, 0),
    }
}

/// Registers a service built from `info`, unless one of that name exists.
pub open spec fn add_service_spec(v: Seq<ServiceView>, info: ServiceInfo) -> Seq<ServiceView> {
    if has_service(v, info.name@) {
        v
    } else {
        v.push(fresh_service(info))
    }
}

/// Replaces the streams of the service called `name`, where there is one.
pub open spec fn with_streams(
    v: Seq<ServiceView>,
    name: Seq<char>,
    streams: Seq<StreamView>,
) -> Seq<ServiceView> {
    if has_service(v, name) {
        v.update(
            service_index(v, name),
            ServiceView { streams, ..v[service_index(v, name)] },
        )
    } else {
        v
    }
}

/// Adds a stream built from `info` to the service called `name`.
pub open spec fn add_route_spec(v: Seq<ServiceView>, name: Seq<char>, info: StreamInfo) -> Seq<
    ServiceView,
> {
    with_streams(v, name, upsert(v[service_index(v, name)].streams, fresh_stream(info)))
}

/// Removes the stream keyed by `key` from the service called `name`.
pub open spec fn remove_route_spec(v: Seq<ServiceView>, name: Seq<char>, key: Seq<char>) -> Seq<
    ServiceView,
> {
    with_streams(v, name, remove_key(v[service_index(v, name)].streams, key))
}

/// Number of streams over all services.
pub open spec fn total_routes(v: Seq<ServiceView>) -> nat
    decreases v.len(),
{
    if v.len() == 0 {
        0
    } else {
        total_routes(v.drop_last()) + v.last().streams.len()
    }
}

/// The name of a route: service name, underscore, sensor id.
pub open spec fn route_name(service: Seq<char>, key: Seq<char>) -> Seq<char> {
    service + seq!['_'] + key
}

/// Route names of one service, in the order of its streams.
pub open spec fn service_route_names(s: ServiceView) -> Seq<Seq<char>> {
    keys(s.streams).map_values(|k: Seq<char>| route_name(s.name, k))
}

/// Route names over all services, service by service.
pub open spec fn route_names(v: Seq<ServiceView>) -> Seq<Seq<char>>
    decreases v.len(),
{
    if v.len() == 0 {
        Seq::empty()
    } else {
        route_names(v.drop_last()) + service_route_names(v.last())
    }
}

/// `n`, held to what a `usize` can count.
pub open spec fn capped(n: nat) -> nat {
    if n <= usize::MAX {
        n
    } else {
        usize::MAX as nat
    }
}

proof fn lemma_total_push(v: Seq<ServiceView>, i: int)
    requires
        0 <= i < v.len(),
    ensures
        total_routes(v.take(i + 1)) == total_routes(v.take(i)) + v[i].streams.len(),
{
    assert(v.take(i + 1).drop_last() =~= v.take(i));
}

proof fn lemma_route_names_push(v: Seq<ServiceView>, i: int)
    requires
        0 <= i < v.len(),
    ensures
        route_names(v.take(i + 1)) == route_names(v.take(i)) + service_route_names(v[i]),
{
    assert(v.take(i + 1).drop_last() =~= v.take(i));
}

/// Adding a service under a name already registered changes nothing, so a
/// service added twice is registered once.
pub proof fn lemma_add_service_once(v: Seq<ServiceView>, info: ServiceInfo)
    ensures
        add_service_spec(add_service_spec(v, info), info) == add_service_spec(v, info),
        add_service_spec(v, info).len() == v.len() + if has_service(v, info.name@) {
            0int
        } else {
            1int
        },
{
    if !has_service(v, info.name@) {
        let w = v.push(fresh_service(info));
        assert(w[v.len() as int].name == info.name@);
        assert(has_service(w, info.name@));
    }
}

proof fn lemma_total_update(v: Seq<ServiceView>, i: int, x: ServiceView)
    requires
        0 <= i < v.len(),
    ensures
        total_routes(v.update(i, x)) + v[i].streams.len() == total_routes(v) + x.streams.len(),
    decreases v.len(),
{
    let w = v.update(i, x);
    if i == v.len() - 1 {
        assert(w.drop_last() =~= v.drop_last());
    } else {
        assert(w.drop_last() =~= v.drop_last().update(i, x));
        lemma_total_update(v.drop_last(), i, x);
    }
}

/// Adding a stream under a new sensor id to a registered service adds one
/// route, and removing that stream by its sensor id takes the count back.
pub proof fn lemma_route_count(v: Seq<ServiceView>, name: Seq<char>, info: StreamInfo)
    requires
        valid(v),
        has_service(v, name),
        !crate::service::has_key(v[service_index(v, name)].streams, info.sensor_id@),
    ensures
        total_routes(add_route_spec(v, name, info)) == total_routes(v) + 1,
        total_routes(remove_route_spec(add_route_spec(v, name, info), name, info.sensor_id@))
            == total_routes(v),
{
    let i = service_index(v, name);
    let old_streams = v[i].streams;
    let grown = old_streams.push(fresh_stream(info));
    assert(upsert(old_streams, fresh_stream(info)) == grown);
    let w = add_route_spec(v, name, info);
    assert(w == v.update(i, ServiceView { streams: grown, ..v[i] }));
    lemma_total_update(v, i, ServiceView { streams: grown, ..v[i] });
    // the service keeps its place in the grown router
    assert(w[i].name == name);
    assert(has_service(w, name));
    let j = service_index(w, name);
    assert(0 <= j < w.len() && w[j].name == name);
    if j != i {
        assert(v[j].name == w[j].name);
        assert(v[j].name != v[i].name);
    }
    // the new stream is the last one of that service
    let last = old_streams.len() as int;
    assert(grown[last].sensor_id == info.sensor_id@);
    assert(crate::service::has_key(grown, info.sensor_id@));
    let k = crate::service::key_index(grown, info.sensor_id@);
    assert(0 <= k < grown.len() && grown[k].sensor_id == info.sensor_id@);
    if k != last {
        assert(old_streams[k].sensor_id == info.sensor_id@);
    }
    assert(grown.remove(last) =~= old_streams);
    assert(remove_key(grown, info.sensor_id@) == old_streams);
    let u = remove_route_spec(w, name, info.sensor_id@);
    assert(u == w.update(i, ServiceView { streams: old_streams, ..w[i] }));
    lemma_total_update(w, i, ServiceView { streams: old_streams, ..w[i] });
}

/// The services of one process, by name.
pub struct Router {
    services: Vec<Service>,
}

impl View for Router {
    type V = Seq<ServiceView>;

    closed spec fn view(&self) -> Seq<ServiceView> {
        self.services@.map_values(|s: Service| s@)
    }
}

impl Router {
    pub open spec fn wf(&self) -> bool {
        valid(self@)
    }

    pub fn new() -> (r: Router)
        ensures
            r@ == Seq::<ServiceView>::empty(),
            r.wf(),
    {
        let r = Router { services: Vec::new() };
        proof {
            assert(r@ =~= Seq::<ServiceView>::empty());
        }
        r
    }

    /// Position of the service called `name`.
    fn find(&self, name: &str) -> (r: Option<usize>)
        requires
            self.wf(),
        ensures
            r matches Some(i) ==> i < self@.len() && self@[i as int].name == name@ && i
                == service_index(self@, name@),
            r is None ==> !has_service(self@, name@),
    {
        let k = name.to_string();
        let n = self.services.len();
        let mut i: usize = 0;
        while i < n
            invariant
                self.wf(),
                n == self@.len(),
                i <= n,
                k@ == name@,
                forall|j: int| 0 <= j < i ==> self@[j].name != name@,
            decreases n - i,
        {
            proof {
                assert(self@[i as int] == self.services@[i as int]@);
            }
            if self.services[i].get_name().eq(&k) {
                proof {
                    let v = self@;
                    assert(v[i as int].name == name@);
                    let c = service_index(v, name@);
                    assert(0 <= c < v.len() && v[c].name == name@);
                    if c != i {
                        assert(v[c].name != v[i as int].name);
                    }
                }
                return Some(i);
            }
            i += 1;
        }
        None
    }

    /// Registers a service built from `service_info` under its name. A
    /// name already registered keeps its service and nothing changes.
    pub fn add_service(&mut self, service_info: ServiceInfo)
        requires
            old(self).wf(),
        ensures
            final(self).wf(),
            final(self)@ == add_service_spec(old(self)@, service_info),
    {
        let ghost info = service_info;
        let ghost before = self@;
        if self.find(service_info.name.as_str()).is_none() {
            let key = service_info.name.clone();
            let service = Service::new(key, service_info);
            self.services.push(service);
            proof {
                assert(self@ =~= before.push(fresh_service(info)));
                assert(fresh_service(info).streams =~= Seq::<StreamView>::empty());
            }
        }
    }

    /// Removes the service called `service_name`; a no-op when there is none.
    pub fn remove_service(&mut self, service_name: &str)
        requires
            old(self).wf(),
        ensures
            final(self).wf(),
            has_service(old(self)@, service_name@) ==> final(self)@ == old(self)@.remove(
                service_index(old(self)@, service_name@),
            ),
            !has_service(old(self)@, service_name@) ==> final(self)@ == old(self)@,
    {
        let ghost before = self@;
        if let Some(i) = self.find(service_name) {
            let _ = self.services.remove(i);
            proof {
                assert(self@ =~= before.remove(i as int));
            }
        }
    }

    pub fn num_services(&self) -> (r: usize)
        ensures
            r == self@.len(),
    {
        self.services.len()
    }

    /// The service names, in the order the services were added.
    pub fn get_service_names(&self) -> (r: Vec<String>)
        ensures
            r@.map_values(|s: String| s@) == names(self@),
    {
        let mut out: Vec<String> = Vec::new();
        let n = self.services.len();
        let mut i: usize = 0;
        while i < n
            invariant
                n == self@.len(),
                i <= n,
                out@.map_values(|s: String| s@) == names(self@).take(i as int),
            decreases n - i,
        {
            proof {
                assert(self@[i as int] == self.services@[i as int]@);
            }
            let name = self.services[i].get_name().clone();
            let ghost prior = out@;
            out.push(name);
            proof {
                assert(out@.map_values(|s: String| s@) =~= prior.map_values(|s: String| s@).push(
                    self@[i as int].name,
                ));
                assert(names(self@).take(i + 1) =~= names(self@).take(i as int).push(
                    self@[i as int].name,
                ));
            }
            i += 1;
        }
        proof {
            assert(names(self@).take(n as int) =~= names(self@));
        }
        out
    }

    /// Adds a stream to the service called `service_name`; `None` when there
    /// is no such service.
    pub fn add_route(&mut self, service_name: &str, stream_info: StreamInfo) -> (r: Option<Route>)
        requires
            old(self).wf(),
        ensures
            final(self).wf(),
            r is Some <==> has_service(old(self)@, service_name@),
            r matches Some(route) ==> route.service_name@ == service_name@ && route.stream_name@
                == stream_info.name@,
            has_service(old(self)@, service_name@) ==> final(self)@ == add_route_spec(
                old(self)@,
                service_name@,
                stream_info,
            ),
            !has_service(old(self)@, service_name@) ==> final(self)@ == old(self)@,
    {
        let ghost before = self@;
        match self.find(service_name) {
            Some(i) => {
                proof {
                    assert(before[i as int] == self.services@[i as int]@);
                }
                let stream_name = stream_info.name.clone();
                let _ = self.services[i].add_stream(stream_info);
                proof {
                    assert(self@ =~= before.update(i as int, self.services@[i as int]@));
                    assert(self.services@[i as int]@ == (ServiceView {
                        streams: self.services@[i as int]@.streams,
                        ..before[i as int]
                    }));
                }
                Some(Route { service_name: service_name.to_string(), stream_name })
            },
            None => None,
        }
    }

    /// Removes the stream keyed by `stream_name` (its sensor id) from the
    /// service called `service_name`; `None` when there is no such service.
    pub fn remove_route(&mut self, service_name: &str, stream_name: &str) -> (r: Option<Route>)
        requires
            old(self).wf(),
        ensures
            final(self).wf(),
            r is Some <==> has_service(old(self)@, service_name@),
            r matches Some(route) ==> route.service_name@ == service_name@ && route.stream_name@
                == stream_name@,
            has_service(old(self)@, service_name@) ==> final(self)@ == remove_route_spec(
                old(self)@,
                service_name@,
                stream_name@,
            ),
            !has_service(old(self)@, service_name@) ==> final(self)@ == old(self)@,
    {
        let ghost before = self@;
        match self.find(service_name) {
            Some(i) => {
                proof {
                    assert(before[i as int] == self.services@[i as int]@);
                }
                let _ = self.services[i].remove_stream(stream_name);
                proof {
                    assert(self@ =~= before.update(i as int, self.services@[i as int]@));
                    assert(self.services@[i as int]@ == (ServiceView {
                        streams: self.services@[i as int]@.streams,
                        ..before[i as int]
                    }));
                }
                Some(Route { service_name: service_name.to_string(), stream_name: stream_name.to_string() })
            },
            None => None,
        }
    }

    /// Appends `events` to the stream keyed by `sensor_id` of the service
    /// called `service_name`. Returns whether both were found.
    pub fn dispatch(&mut self, service_name: &str, sensor_id: &str, events: Vec<Event>) -> (r: bool)
        requires
            old(self).wf(),
        ensures
            final(self).wf(),
            r == (has_service(old(self)@, service_name@) && crate::service::has_key(
                old(self)@[service_index(old(self)@, service_name@)].streams,
                sensor_id@,
            )),
            final(self)@ == with_streams(
                old(self)@,
                service_name@,
                dispatch_spec(
                    old(self)@[service_index(old(self)@, service_name@)].streams,
                    sensor_id@,
                    events@,
                ),
            ),
    {
        let ghost before = self@;
        match self.find(service_name) {
            Some(i) => {
                proof {
                    assert(before[i as int] == self.services@[i as int]@);
                }
                let found = self.services[i].dispatch(sensor_id, events);
                proof {
                    assert(self@ =~= before.update(i as int, self.services@[i as int]@));
                    assert(self.services@[i as int]@ == (ServiceView {
                        streams: self.services@[i as int]@.streams,
                        ..before[i as int]
                    }));
                }
                found
            },
            None => false,
        }
    }

    /// Number of streams over all services.
    pub fn num_routes(&self) -> (r: usize)
        ensures
            r == capped(total_routes(self@)),
    {
        let n = self.services.len();
        let mut total: usize = 0;
        let mut i: usize = 0;
        while i < n
            invariant
                n == self@.len(),
                i <= n,
                total == capped(total_routes(self@.take(i as int))),
            decreases n - i,
        {
            proof {
                assert(self@[i as int] == self.services@[i as int]@);
                lemma_total_push(self@, i as int);
            }
            let count = match self.services[i].num_streams() {
                Ok(c) => c,
                Err(_) => 0,
            };
            if total > usize::MAX - count {
                total = usize::MAX;
            } else {
                total = total + count;
            }
            i += 1;
        }
        proof {
            assert(self@.take(n as int) =~= self@);
        }
        total
    }

    /// One name per stream: the service's name, an underscore and the
    /// stream's sensor id, service by service.
    pub fn get_route_names(&self) -> (r: Vec<String>)
        ensures
            r@.map_values(|s: String| s@) == route_names(self@),
    {
        let mut out: Vec<String> = Vec::new();
        let n = self.services.len();
        let mut i: usize = 0;
        proof {
            assert(self@.take(0) =~= Seq::<ServiceView>::empty());
            assert(out@.map_values(|s: String| s@) =~= Seq::<Seq<char>>::empty());
        }
        while i < n
            invariant
                n == self@.len(),
                i <= n,
                out@.map_values(|s: String| s@) == route_names(self@.take(i as int)),
            decreases n - i,
        {
            proof {
                assert(self@[i as int] == self.services@[i as int]@);
                lemma_route_names_push(self@, i as int);
                reveal_strlit("_");
            }
            let service = &self.services[i];
            let keys_vec = match service.get_stream_names() {
                Ok(v) => v,
                Err(_) => Vec::new(),
            };
            let ghost start = out@.map_values(|s: String| s@);
            let ghost own = service_route_names(self@[i as int]);
            let m = keys_vec.len();
            let mut j: usize = 0;
            while j < m
                invariant
                    m == keys_vec@.len(),
                    j <= m,
                    keys_vec@.map_values(|s: String| s@) == keys(self@[i as int].streams),
                    own == service_route_names(self@[i as int]),
                    service@ == self@[i as int],
                    "_"@ == seq!['_'],
                    out@.map_values(|s: String| s@) == start + own.take(j as int),
                decreases m - j,
            {
                let mut name = String::new();
                name.append(service.get_name().as_str());
                name.append("_");
                name.append(keys_vec[j].as_str());
                let ghost prior = out@;
                proof {
                    assert(keys_vec@[j as int]@ == keys(self@[i as int].streams)[j as int]);
                    assert(name@ =~= own[j as int]);
                }
                out.push(name);
                proof {
                    assert(out@.map_values(|s: String| s@) =~= prior.map_values(|s: String| s@).push(
                        own[j as int],
                    ));
                    assert(own.take(j + 1) =~= own.take(j as int).push(own[j as int]));
                }
                j += 1;
            }
            proof {
                assert(own.take(m as int) =~= own);
            }
            i += 1;
        }
        proof {
            assert(self@.take(n as int) =~= self@);
        }
        out
    }

    /// Asks every service to connect, in the order of `get_service_names`;
    /// each service decides on its own.
    pub fn start(&mut self) -> (r: Vec<Action>)
        requires
            old(self).wf(),
        ensures
            final(self).wf(),
            final(self)@.len() == old(self)@.len(),
            r@.len() == old(self)@.len(),
            forall|i: int|
                0 <= i < old(self)@.len() ==> #[trigger] final(self)@[i] == (ServiceView {
                    client: after_connect(old(self)@[i].client),
                    ..old(self)@[i]
                }) && connect_action(old(self)@[i].client, r@[i], old(self)@[i].pub_topic),
    {
        let ghost before = self@;
        let mut actions: Vec<Action> = Vec::new();
        let n = self.services.len();
        let mut i: usize = 0;
        while i < n
            invariant
                self.wf(),
                n == self@.len() == before.len(),
                i <= n,
                actions@.len() == i,
                forall|j: int|
                    0 <= j < i ==> #[trigger] self@[j] == (ServiceView {
                        client: after_connect(before[j].client),
                        ..before[j]
                    }) && connect_action(before[j].client, actions@[j], before[j].pub_topic),
                forall|j: int| i <= j < n ==> #[trigger] self@[j] == before[j],
            decreases n - i,
        {
            let ghost mid = self@;
            proof {
                assert(mid[i as int] == self.services@[i as int]@);
            }
            let action = self.services[i].start();
            actions.push(action);
            proof {
                assert(self@ =~= mid.update(i as int, self.services@[i as int]@));
            }
            i += 1;
        }
        actions
    }

    /// Asks the service called `service_name` to publish `payload` on
    /// `topic`. With no such service nothing is asked.
    pub fn send_msg(&self, service_name: &str, topic: &str, payload: &str) -> (r: Result<Action, ProtocolError>)
        requires
            self.wf(),
        ensures
            !has_service(self@, service_name@) ==> r == Ok::<Action, ProtocolError>(Action::Nothing),
            has_service(self@, service_name@) && is_up(self@[service_index(self@, service_name@)].client.0)
                ==> (r matches Ok(a) && publish_request(a, topic@, payload@)),
            has_service(self@, service_name@) && !is_up(self@[service_index(self@, service_name@)].client.0)
                ==> (r matches Err(e) && e.kind == crate::model::ErrorKind::Mqtt),
    {
        match self.find(service_name) {
            Some(i) => {
                proof {
                    assert(self@[i as int] == self.services@[i as int]@);
                }
                self.services[i].send_msg(Some(topic), payload)
            },
            None => Ok(Action::Nothing),
        }
    }

    /// Hands a transport report to the service called `service_name`;
    /// `None` when there is no such service.
    pub fn handle(&mut self, service_name: &str, ev: ClientEvent) -> (r: Option<(Action, Result<(), ProtocolError>)>)
        requires
            old(self).wf(),
        ensures
            final(self).wf(),
            r is Some <==> has_service(old(self)@, service_name@),
            has_service(old(self)@, service_name@) ==> {
                let i = service_index(old(self)@, service_name@);
                &&& final(self)@ == old(self)@.update(
                    i,
                    ServiceView { client: service_next(old(self)@[i].client, ev), ..old(self)@[i] },
                )
                &&& r matches Some(out) && service_action(
                    old(self)@[i].client,
                    ev,
                    out.0,
                    old(self)@[i].sub_topics,
                ) && (out.1 is Err <==> fails_on(old(self)@[i].client, ev)) && (fails_on(
                    old(self)@[i].client,
                    ev,
                ) ==> (out.1 matches Err(e) && e.kind == crate::model::ErrorKind::Mqtt))
            },
            !has_service(old(self)@, service_name@) ==> final(self)@ == old(self)@,
    {
        let ghost before = self@;
        match self.find(service_name) {
            Some(i) => {
                proof {
                    assert(before[i as int] == self.services@[i as int]@);
                }
                let out = self.services[i].handle(ev);
                proof {
                    assert(self@ =~= before.update(i as int, self.services@[i as int]@));
                }
                Some(out)
            },
            None => None,
        }
    }

    /// Asks the service called `service_name` to release its transport;
    /// `None` when there is no such service.
    pub fn stop_service(&mut self, service_name: &str) -> (r: Option<Action>)
        requires
            old(self).wf(),
        ensures
            final(self).wf(),
            r is Some <==> has_service(old(self)@, service_name@),
            has_service(old(self)@, service_name@) ==> {
                let i = service_index(old(self)@, service_name@);
                &&& final(self)@ == old(self)@.update(
                    i,
                    ServiceView { client: after_disconnect(old(self)@[i].client), ..old(self)@[i] },
                )
                &&& is_up(old(self)@[i].client.0) ==> r == Some(Action::Disconnect)
                &&& !is_up(old(self)@[i].client.0) ==> r == Some(Action::Nothing)
            },
            !has_service(old(self)@, service_name@) ==> final(self)@ == old(self)@,
    {
        let ghost before = self@;
        match self.find(service_name) {
            Some(i) => {
                proof {
                    assert(before[i as int] == self.services@[i as int]@);
                }
                let action = self.services[i].stop();
                proof {
                    assert(self@ =~= before.update(i as int, self.services@[i as int]@));
                }
                Some(action)
            },
            None => None,
        }
    }

    /// Stops then starts the service called `service_name` in one call: the
    /// transport calls to make, in order. `None` when there is no such service.
    pub fn restart_service(&mut self, service_name: &str) -> (r: Option<(Action, Action)>)
        requires
            old(self).wf(),
        ensures
            final(self).wf(),
            r is Some <==> has_service(old(self)@, service_name@),
            has_service(old(self)@, service_name@) ==> {
                let i = service_index(old(self)@, service_name@);
                &&& final(self)@ == old(self)@.update(
                    i,
                    ServiceView { client: (ConnState::Connecting, 0), ..old(self)@[i] },
                )
                &&& r matches Some(pair) && connect_request(pair.1, old(self)@[i].pub_topic) && (
                is_up(old(self)@[i].client.0) ==> pair.0 == Action::Disconnect) && (!is_up(
                    old(self)@[i].client.0,
                ) ==> pair.0 == Action::Nothing)
            },
            !has_service(old(self)@, service_name@) ==> final(self)@ == old(self)@,
    {
        let ghost before = self@;
        match self.find(service_name) {
            Some(i) => {
                proof {
                    assert(before[i as int] == self.services@[i as int]@);
                }
                let actions = self.services[i].restart();
                proof {
                    assert(self@ =~= before.update(i as int, self.services@[i as int]@));
                }
                Some(actions)
            },
            None => None,
        }
    }
}

} // verus!
