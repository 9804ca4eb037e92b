use vstd::prelude::*;

use crate::model::Event;

verus! {

/// What the dispatch path reads of an envelope's payload. The float samples
/// stay with the wire form; the library routes by ids and times alone.
#[derive(Clone, Debug)]
pub enum Payload {
    SimpleData,
    /// Samples described by the ids of the sensors that took them.
    DescriptiveData { ids: Vec<String> },
    /// Samples taken at the given times, in milliseconds since the Unix epoch.
    WindowData { timestamps: Vec<i64> },
    Other { value: String },
}

/// A decoded envelope: its time in milliseconds since the Unix epoch, its
/// version and its payload.
#[derive(Clone, Debug)]
pub struct Envelope {
    pub timestamp: i64,
    pub version: String,
    pub data: Payload,
}

impl Envelope {
    /// The streams this envelope feeds, by sensor id, in the order of the
    /// ids. Each id of descriptive data names a sensor that gets one event
    /// at the envelope's time; the other payloads carry no sensor id and
    /// feed no stream.
    pub fn sensor_events(&self) -> (r: Vec<(String, Vec<Event>)>)
        ensures
            self.data matches Payload::DescriptiveData { ids } ==> {
                &&& r@.len() == ids@.len()
                &&& forall|i: int|
                    0 <= i < r@.len() ==> #[trigger] r@[i].0@ == ids@[i]@ && r@[i].1@ == seq![
                        Event { timestamp: self.timestamp },
                    ]
            },
            !(self.data is DescriptiveData) ==> r@.len() == 0,
    {
        let mut out: Vec<(String, Vec<Event>)> = Vec::new();
        match &self.data {
            Payload::DescriptiveData { ids } => {
                let n = ids.len();
                let mut i: usize = 0;
                while i < n
                    invariant
                        self.data matches Payload::DescriptiveData { ids: d } && d == ids,
                        n == ids@.len(),
                        i <= n,
                        out@.len() == i,
                        forall|j: int|
                            0 <= j < i ==> #[trigger] out@[j].0@ == ids@[j]@ && out@[j].1@
                                == seq![Event { timestamp: self.timestamp }],
                    decreases n - i,
                {
                    out.push((ids[i].clone(), vec![Event { timestamp: self.timestamp }]));
                    i += 1;
                }
            },
            _ => {},
        }
        out
    }
}

} // verus!
