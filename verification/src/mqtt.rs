//! What travels over the messaging fabric: requests that come in, and where
//! updates go out.

use vstd::prelude::*;
use vstd::string::StringExecFns;

verus! {

/// A request that came in over the fabric.
#[derive(Debug, Clone, PartialEq, Eq)]
pub struct Request {
    pub action: String,
}

/// The quality of service of a request subscription and of an
/// identification.
pub const QOS_AT_LEAST_ONCE: u8 = 1;

/// The quality of service of a weather update.
pub const QOS_AT_MOST_ONCE: u8 = 0;

/// The topic on which the station with this identity takes requests.
pub open spec fn request_topic_of(id: Seq<char>) -> Seq<char> {
    "/station/request/"@ + id
}

/// The topic on which the station with this identity identifies itself.
pub open spec fn info_topic_of(id: Seq<char>) -> Seq<char> {
    "/station/info/"@ + id
}

/// The topic of the station's weather updates: the rapid ones have a topic
/// of their own.
pub open spec fn update_topic_of(id: Seq<char>, rapid: bool) -> Seq<char> {
    if rapid {
        "/station/rapid-weather/"@ + id
    } else {
        "/station/weather/"@ + id
    }
}

/// The station's place on the fabric: its identity, which every topic ends
/// in.
pub struct Mqtt {
    id: String,
}

impl View for Mqtt {
    type V = Seq<char>;

    closed spec fn view(&self) -> Seq<char> {
        self.id@
    }
}

impl Mqtt {
    /// The place of the station with this identity.
    pub fn new(id: String) -> (res: Self)
        ensures
            res@ == id@,
    {
        Mqtt { id }
    }

    /// The station's identity.
    pub fn id(&self) -> (res: &String)
        ensures
            res@ == self@,
    {
        &self.id
    }

    /// The topic to subscribe to for requests, and the quality of service to
    /// ask for.
    pub fn subscribe_requests(&self) -> (res: (String, u8))
        ensures
            res.0@ == request_topic_of(self@),
            res.1 == QOS_AT_LEAST_ONCE,
    {
        (String::from_str("/station/request/").concat(self.id.as_str()), QOS_AT_LEAST_ONCE)
    }

    /// Whether a message on `topic` is a request to this station.
    pub fn listen(&self, topic: &str) -> (res: bool)
        ensures
            res == (topic@ == request_topic_of(self@)),
    {
        let own = String::from_str("/station/request/").concat(self.id.as_str());
        let got = String::from_str(topic);
        own == got
    }

    /// The topic on which to publish a weather update, and its quality of
    /// service.
    pub fn publish_update(&self, rapid: bool) -> (res: (String, u8))
        ensures
            res.0@ == update_topic_of(self@, rapid),
            res.1 == QOS_AT_MOST_ONCE,
    {
        let head = if rapid {
            String::from_str("/station/rapid-weather/")
        } else {
            String::from_str("/station/weather/")
        };
        (head.concat(self.id.as_str()), QOS_AT_MOST_ONCE)
    }

    /// The topic on which to publish the station's identification, and its
    /// quality of service.
    pub fn publish_info(&self) -> (res: (String, u8))
        ensures
            res.0@ == info_topic_of(self@),
            res.1 == QOS_AT_LEAST_ONCE,
    {
        (String::from_str("/station/info/").concat(self.id.as_str()), QOS_AT_LEAST_ONCE)
    }
}

} // verus!
