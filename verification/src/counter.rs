//! The counter actor: one named counter per instance, incremented and
//! decremented over HTTP-shaped requests, serially executed.

use crate::routes::HttpMethod;
use crate::strutil::{spec_ends_with, str_ends_with};
use vstd::prelude::*;

verus! {

/// The counter's persisted values.
#[derive(Clone, Copy, PartialEq, Eq, Structural, Debug)]
pub struct CounterData {
    pub count: i32,
    pub last_updated: u64,
}

/// What the counter actor answers.
pub enum CounterReply {
    /// The counter's current values (after any change this request made).
    State(CounterData),
    /// The counter was reset.
    Reset,
    /// A write to a path that is neither increment nor decrement.
    InvalidPath,
    /// A method the actor does not serve.
    MethodNotAllowed,
}

/// A counter instance: reads report the current values, `/increment` and
/// `/decrement` writes move the count and stamp the write time, a delete
/// resets both values to zero.
pub struct CounterObject {
    data: CounterData,
}

impl CounterObject {
    /// The counter's current values.
    pub closed spec fn data(&self) -> CounterData {
        self.data
    }

    /// Creates a counter with no recorded writes: everything reads as zero.
    pub fn new() -> (r: CounterObject)
        ensures
            r.data() == (CounterData { count: 0, last_updated: 0 }),
    {
        CounterObject { data: CounterData { count: 0, last_updated: 0 } }
    }

    /// Serves one request at instant `now`.
    ///
    /// A read reports the values and changes nothing. A post to a path
    /// ending in `/increment` or `/decrement` moves the count by one and
    /// stamps the write; any other posted path changes nothing. A delete
    /// resets the counter. Any other method is refused.
    pub fn fetch(&mut self, method: HttpMethod, path: &str, now: u64) -> (r: CounterReply)
        requires
            method == HttpMethod::Post && spec_ends_with(path@, "/increment"@) ==> old(
                self,
            ).data().count < i32::MAX,
            method == HttpMethod::Post && spec_ends_with(path@, "/decrement"@) && !spec_ends_with(
                path@,
                "/increment"@,
            ) ==> old(self).data().count > i32::MIN,
        ensures
            match method {
                HttpMethod::Get => {
                    &&& final(self).data() == old(self).data()
                    &&& r matches CounterReply::State(d) && d == old(self).data()
                },
                HttpMethod::Post => {
                    if spec_ends_with(path@, "/increment"@) {
                        &&& final(self).data() == (CounterData {
                            count: (old(self).data().count + 1) as i32,
                            last_updated: now,
                        })
                        &&& r matches CounterReply::State(d) && d == final(self).data()
                    } else if spec_ends_with(path@, "/decrement"@) {
                        &&& final(self).data() == (CounterData {
                            count: (old(self).data().count - 1) as i32,
                            last_updated: now,
                        })
                        &&& r matches CounterReply::State(d) && d == final(self).data()
                    } else {
                        &&& final(self).data() == old(self).data()
                        &&& r is InvalidPath
                    }
                },
                HttpMethod::Delete => final(self).data() == (CounterData {
                    count: 0,
                    last_updated: 0,
                }) && r is Reset,
                _ => final(self).data() == old(self).data() && r is MethodNotAllowed,
            },
    {
        match method {
            HttpMethod::Get => CounterReply::State(self.data),
            HttpMethod::Post => {
                if str_ends_with(path, "/increment") {
                    self.data.count = self.data.count + 1;
                    self.data.last_updated = now;
                    CounterReply::State(self.data)
                } else if str_ends_with(path, "/decrement") {
                    self.data.count = self.data.count - 1;
                    self.data.last_updated = now;
                    CounterReply::State(self.data)
                } else {
                    CounterReply::InvalidPath
                }
            },
            HttpMethod::Delete => {
                self.data = CounterData { count: 0, last_updated: 0 };
                CounterReply::Reset
            },
            _ => CounterReply::MethodNotAllowed,
        }
    }
}

} // verus!
