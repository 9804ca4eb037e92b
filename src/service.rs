use vstd::prelude::*;

use crate::client::{
    after_connect, after_disconnect, connect_action, connect_request, event_action, fails_on,
    is_down, is_up, next, publish_request, strings, subscribe_request, Action, Client,
    ClientEvent, ConnState,
};
use crate::model::{Event, ProtocolError, ServiceInfo, StoreType, StreamInfo};
use crate::store::{merge_desc, sort_desc, InMemory, Store};

verus! {

/// A per-sensor channel and the store of its events.
pub struct Stream {
    pub name: String,
    pub sensor_id: String,
    pub store_type: StoreType,
    pub store: InMemory,
}

/// What a stream holds, as plain values.
pub struct StreamView {
    pub name: Seq<char>,
    pub sensor_id: Seq<char>,
    pub store_type: StoreType,
    pub events: Seq<Event>,
}

impl View for Stream {
    type V = StreamView;

    open spec fn view(&self) -> StreamView {
        StreamView {
            name: self.name@,
            sensor_id: self.sensor_id@,
            store_type: self.store_type,
            events: self.store@,
        }
    }
}

/// The view of a fresh stream built from `info`.
pub open spec fn fresh_stream(info: StreamInfo) -> StreamView {
    StreamView {
        name: info.name@,
        sensor_id: info.sensor_id@,
        store_type: info.store_type,
        events: Seq::empty(),
    }
}

/// No two streams share a sensor id.
pub open spec fn unique_keys(s: Seq<StreamView>) -> bool {
    forall|i: int, j: int|
        0 <= i < s.len() && 0 <= j < s.len() && i != j ==> s[i].sensor_id != s[j].sensor_id
}

pub open spec fn has_key(s: Seq<StreamView>, key: Seq<char>) -> bool {
    exists|i: int| 0 <= i < s.len() && s[i].sensor_id == key
}

/// Position of the stream keyed by `key`, where there is one.
pub open spec fn key_index(s: Seq<StreamView>, key: Seq<char>) -> int {
    choose|i: int| 0 <= i < s.len() && s[i].sensor_id == key
}

/// The sensor ids, in the order the streams were added.
pub open spec fn keys(s: Seq<StreamView>) -> Seq<Seq<char>> {
    s.map_values(|v: StreamView| v.sensor_id)
}

/// Adds `v`, or replaces the stream that has its sensor id.
pub open spec fn upsert(s: Seq<StreamView>, v: StreamView) -> Seq<StreamView> {
    if has_key(s, v.sensor_id) {
        s.update(key_index(s, v.sensor_id), v)
    } else {
        s.push(v)
    }
}

/// Takes out the stream keyed by `key`, where there is one.
pub open spec fn remove_key(s: Seq<StreamView>, key: Seq<char>) -> Seq<StreamView> {
    if has_key(s, key) {
        s.remove(key_index(s, key))
    } else {
        s
    }
}

/// Appends `events` to the stream keyed by `key`, where there is one.
pub open spec fn dispatch_spec(s: Seq<StreamView>, key: Seq<char>, events: Seq<Event>) -> Seq<
    StreamView,
> {
    if has_key(s, key) {
        s.update(
            key_index(s, key),
            StreamView {
                events: merge_desc(s[key_index(s, key)].events, sort_desc(events)),
                ..s[key_index(s, key)]
            },
        )
    } else {
        s
    }
}

/// Client state after a service takes in `ev`: once connected it subscribes.
pub open spec fn service_next(c: (ConnState, nat), ev: ClientEvent) -> (ConnState, nat) {
    if next(c, ev).0 == ConnState::Connected {
        (ConnState::Subscribing, next(c, ev).1)
    } else {
        next(c, ev)
    }
}

/// `a` is the transport call a service subscribed to `topics` asks for
/// when it takes in `ev`.
pub open spec fn service_action(
    c: (ConnState, nat),
    ev: ClientEvent,
    a: Action,
    topics: Seq<Seq<char>>,
) -> bool {
    if next(c, ev).0 == ConnState::Connected {
        subscribe_request(a, topics)
    } else {
        event_action(c, ev, a)
    }
}

/// What a service holds, as plain values.
pub struct ServiceView {
    pub name: Seq<char>,
    pub pub_topic: Seq<char>,
    pub sub_topics: Seq<Seq<char>>,
    pub streams: Seq<StreamView>,
    pub client: (ConnState, nat),
}

/// One broker connection and the streams that its messages feed.
pub struct Service {
    name: String,
    service_info: ServiceInfo,
    streams: Vec<Stream>,
    client: Client,
}

impl View for Service {
    type V = ServiceView;

    closed spec fn view(&self) -> ServiceView {
        ServiceView {
            name: self.name@,
            pub_topic: self.service_info.protocol.pub_topic@,
            sub_topics: strings(self.service_info.protocol.sub_topics@),
            streams: self.streams@.map_values(|s: Stream| s@),
            client: self.client@,
        }
    }
}

impl Service {
    /// No two streams of the service share a sensor id.
    pub open spec fn wf(&self) -> bool {
        unique_keys(self@.streams)
    }

    pub fn new(name: String, service_info: ServiceInfo) -> (r: Service)
        ensures
            r@.name == name@,
            r@.pub_topic == service_info.protocol.pub_topic@,
            r@.sub_topics == strings(service_info.protocol.sub_topics@),
            r@.streams == Seq::<StreamView>::empty(),
            r@.client == (ConnState::Disconnected, 0nat),
            r.wf(),
    {
        let r = Service { name, service_info, streams: Vec::new(), client: Client::new() };
        proof {
            assert(r@.streams =~= Seq::<StreamView>::empty());
        }
        r
    }

    pub fn get_name(&self) -> (r: &String)
        ensures
            r@ == self@.name,
    {
        &self.name
    }

    pub fn client(&self) -> (r: &Client)
        ensures
            r@ == self@.client,
    {
        &self.client
    }

    pub fn is_connected(&self) -> (r: bool)
        ensures
            r == is_up(self@.client.0),
    {
        self.client.is_connected()
    }

    /// Position of the stream keyed by `key`.
    fn find(&self, key: &str) -> (r: Option<usize>)
        requires
            self.wf(),
        ensures
            r matches Some(i) ==> i < self@.streams.len() && self@.streams[i as int].sensor_id
                == key@ && i == key_index(self@.streams, key@),
            r is None ==> !has_key(self@.streams, key@),
    {
        let k = key.to_string();
        let n = self.streams.len();
        let mut i: usize = 0;
        while i < n
            invariant
                self.wf(),
                n == self@.streams.len(),
                i <= n,
                k@ == key@,
                forall|j: int| 0 <= j < i ==> self@.streams[j].sensor_id != key@,
            decreases n - i,
        {
            if self.streams[i].sensor_id == k {
                proof {
                    let s = self@.streams;
                    assert(s[i as int].sensor_id == key@);
                    assert(has_key(s, key@));
                    let c = key_index(s, key@);
                    assert(0 <= c < s.len() && s[c].sensor_id == key@);
                    if c != i {
                        assert(s[c].sensor_id != s[i as int].sensor_id);
                    }
                }
                return Some(i);
            }
            i += 1;
        }
        None
    }

    /// Adds a stream keyed by its sensor id. A stream already keyed by that
    /// id is replaced by the new, empty one.
    pub fn add_stream(&mut self, stream_info: StreamInfo) -> (r: Result<(), ProtocolError>)
        requires
            old(self).wf(),
        ensures
            r is Ok,
            final(self)@.streams == upsert(old(self)@.streams, fresh_stream(stream_info)),
            final(self)@.name == old(self)@.name,
            final(self)@.pub_topic == old(self)@.pub_topic,
            final(self)@.sub_topics == old(self)@.sub_topics,
            final(self)@.client == old(self)@.client,
            final(self).wf(),
    {
        let ghost info = stream_info;
        let found = self.find(stream_info.sensor_id.as_str());
        let stream = Stream {
            name: stream_info.name,
            sensor_id: stream_info.sensor_id,
            store_type: stream_info.store_type,
            store: InMemory::new(),
        };
        let ghost old_streams = self.streams@;
        match found {
            Some(i) => {
                self.streams[i] = stream;
                proof {
                    assert(self.streams@.map_values(|s: Stream| s@) =~= old_streams.map_values(
                        |s: Stream| s@,
                    ).update(i as int, fresh_stream(info)));
                }
            },
            None => {
                self.streams.push(stream);
                proof {
                    assert(self.streams@.map_values(|s: Stream| s@) =~= old_streams.map_values(
                        |s: Stream| s@,
                    ).push(fresh_stream(info)));
                }
            },
        }
        Ok(())
    }

    /// Removes the stream keyed by `key`; a no-op when there is none.
    pub fn remove_stream(&mut self, key: &str) -> (r: Result<(), ProtocolError>)
        requires
            old(self).wf(),
        ensures
            r is Ok,
            final(self)@.streams == remove_key(old(self)@.streams, key@),
            final(self)@.name == old(self)@.name,
            final(self)@.pub_topic == old(self)@.pub_topic,
            final(self)@.sub_topics == old(self)@.sub_topics,
            final(self)@.client == old(self)@.client,
            final(self).wf(),
    {
        let ghost old_streams = self.streams@;
        if let Some(i) = self.find(key) {
            let _ = self.streams.remove(i);
            proof {
                assert(self.streams@.map_values(|s: Stream| s@) =~= old_streams.map_values(
                    |s: Stream| s@,
                ).remove(i as int));
            }
        }
        Ok(())
    }

    /// Removes every stream.
    pub fn remove_all_stream(&mut self) -> (r: Result<(), ProtocolError>)
        ensures
            r is Ok,
            final(self)@.streams == Seq::<StreamView>::empty(),
            final(self)@.name == old(self)@.name,
            final(self)@.pub_topic == old(self)@.pub_topic,
            final(self)@.sub_topics == old(self)@.sub_topics,
            final(self)@.client == old(self)@.client,
            final(self).wf(),
    {
        self.streams.clear();
        proof {
            assert(self.streams@.map_values(|s: Stream| s@) =~= Seq::<StreamView>::empty());
        }
        Ok(())
    }

    /// The sensor ids of the streams, in the order they were added.
    pub fn get_stream_names(&self) -> (r: Result<Vec<String>, ProtocolError>)
        ensures
            r matches Ok(v) && v@.map_values(|s: String| s@) == keys(self@.streams),
    {
        let mut names: Vec<String> = Vec::new();
        let n = self.streams.len();
        let mut i: usize = 0;
        while i < n
            invariant
                n == self@.streams.len(),
                i <= n,
                names@.map_values(|s: String| s@) == keys(self@.streams).take(i as int),
            decreases n - i,
        {
            let name = self.streams[i].sensor_id.clone();
            let ghost before = names@;
            names.push(name);
            proof {
                assert(names@.map_values(|s: String| s@) =~= before.map_values(|s: String| s@).push(
                    self@.streams[i as int].sensor_id,
                ));
                assert(keys(self@.streams).take(i + 1) =~= keys(self@.streams).take(i as int).push(
                    self@.streams[i as int].sensor_id,
                ));
            }
            i += 1;
        }
        proof {
            assert(keys(self@.streams).take(n as int) =~= keys(self@.streams));
        }
        Ok(names)
    }

    pub fn num_streams(&self) -> (r: Result<usize, ProtocolError>)
        ensures
            r matches Ok(n) && n == self@.streams.len(),
    {
        Ok(self.streams.len())
    }

    /// Appends `events` to the store of the stream keyed by `sensor_id`.
    /// Without such a stream the events are dropped and nothing changes.
    pub fn dispatch(&mut self, sensor_id: &str, events: Vec<Event>) -> (r: bool)
        requires
            old(self).wf(),
        ensures
            r == has_key(old(self)@.streams, sensor_id@),
            final(self)@.streams == dispatch_spec(old(self)@.streams, sensor_id@, events@),
            final(self)@.name == old(self)@.name,
            final(self)@.pub_topic == old(self)@.pub_topic,
            final(self)@.sub_topics == old(self)@.sub_topics,
            final(self)@.client == old(self)@.client,
            final(self).wf(),
    {
        let ghost old_streams = self.streams@;
        match self.find(sensor_id) {
            Some(i) => {
                self.streams[i].store.add_events(events);
                proof {
                    assert(self.streams@.map_values(|s: Stream| s@) =~= old_streams.map_values(
                        |s: Stream| s@,
                    ).update(i as int, self.streams@[i as int]@));
                }
                true
            },
            None => false,
        }
    }

    /// Asks the client to connect; see `Client::connect`.
    pub fn start(&mut self) -> (r: Action)
        requires
            old(self).wf(),
        ensures
            final(self)@ == (ServiceView { client: final(self)@.client, ..old(self)@ }),
            final(self).wf(),
            final(self)@.client == after_connect(old(self)@.client),
            connect_action(old(self)@.client, r, old(self)@.pub_topic),
    {
        self.client.connect(self.service_info.protocol.pub_topic.as_str())
    }

    /// Takes in a transport report for the client. Once the connection is
    /// (re)established the service subscribes to its topics.
    pub fn handle(&mut self, ev: ClientEvent) -> (r: (Action, Result<(), ProtocolError>))
        requires
            old(self).wf(),
        ensures
            final(self)@ == (ServiceView { client: final(self)@.client, ..old(self)@ }),
            final(self).wf(),
            final(self)@.client == service_next(old(self)@.client, ev),
            service_action(old(self)@.client, ev, r.0, old(self)@.sub_topics),
            r.1 is Err <==> fails_on(old(self)@.client, ev),
            fails_on(old(self)@.client, ev) ==> (r.1 matches Err(e) && e.kind
                == crate::model::ErrorKind::Mqtt),
    {
        let (action, result) = self.client.handle(ev);
        if self.client.state() == ConnState::Connected {
            match self.client.start_subscriber(&self.service_info.protocol.sub_topics) {
                Ok(subscribe) => (subscribe, result),
                Err(e) => (action, Err(e)),
            }
        } else {
            (action, result)
        }
    }

    /// Asks the client to release the transport; see `Client::disconnect`.
    pub fn stop(&mut self) -> (r: Action)
        requires
            old(self).wf(),
        ensures
            final(self)@ == (ServiceView { client: final(self)@.client, ..old(self)@ }),
            final(self).wf(),
            final(self)@.client == after_disconnect(old(self)@.client),
            is_up(old(self)@.client.0) ==> r == Action::Disconnect,
            !is_up(old(self)@.client.0) ==> r == Action::Nothing,
    {
        self.client.disconnect()
    }

    /// `stop` then `start` in one call: the transport calls to make, in order.
    pub fn restart(&mut self) -> (r: (Action, Action))
        requires
            old(self).wf(),
        ensures
            final(self)@ == (ServiceView { client: final(self)@.client, ..old(self)@ }),
            final(self).wf(),
            final(self)@.client == (ConnState::Connecting, 0nat),
            connect_request(r.1, old(self)@.pub_topic),
            is_up(old(self)@.client.0) ==> r.0 == Action::Disconnect,
            !is_up(old(self)@.client.0) ==> r.0 == Action::Nothing,
    {
        let stopping = self.stop();
        let starting = self.start();
        (stopping, starting)
    }

    /// Asks to publish `payload` on `topic`, or on the configured publish
    /// topic when none is given.
    pub fn send_msg(&self, topic: Option<&str>, payload: &str) -> (r: Result<Action, ProtocolError>)
        ensures
            is_up(self@.client.0) ==> (r matches Ok(a) && publish_request(
                a,
                match topic {
                    Some(given) => given@,
                    None => self@.pub_topic,
                },
                payload@,
            )),
            !is_up(self@.client.0) ==> (r matches Err(e) && e.kind
                == crate::model::ErrorKind::Mqtt),
    {
        match topic {
            Some(given) => self.client.send_msg(given, payload),
            None => self.client.send_msg(self.service_info.protocol.pub_topic.as_str(), payload),
        }
    }
}

} // verus!
