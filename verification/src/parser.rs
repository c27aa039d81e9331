//! The service's start-up configuration.

use vstd::prelude::*;

verus! {

/// Where the message broker is, and which topics to listen on.
#[derive(Debug)]
pub struct Config {
    pub ip: String,
    pub port: u32,
    pub topics: Vec<String>,
}

impl Default for Config {
    /// A broker on this machine, on the usual port, and one topic.
    fn default() -> (config: Config)
        ensures
            config.ip@ == "127.0.0.1"@,
            config.port == 1883,
            config.topics@.len() == 1,
            config.topics@[0]@ == "topic1"@,
    {
        let mut topics: Vec<String> = Vec::new();
        topics.push("topic1".to_owned());
        Config { ip: "127.0.0.1".to_owned(), port: 1883, topics }
    }
}

} // verus!
