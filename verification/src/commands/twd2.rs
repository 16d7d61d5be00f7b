//! Handler for the `/feedtwd2` command.

use vstd::prelude::*;
use vstd::string::*;

use crate::commands::{Command, FileWrite, Reply};
use crate::decimal::spec_u64_text;
use crate::services::counter::{loaded_value, stored_view, CounterService};
use crate::utils::MessageContext;

verus! {

/// The reply to a feeding: the counter's new value framed by the flavor
/// message.
pub open spec fn spec_twd2_reply_text(value: u64) -> Seq<char> {
    "二老师投喂计数器："@ + spec_u64_text(value as nat) + "\n向二老师投喂酥酥万呆粒一枚~"@
}

/// Handler for the `/feedtwd2` command.
pub struct Twd2CommandHandler {
    service: CounterService,
}

impl Twd2CommandHandler {
    /// The counter the handler feeds.
    pub closed spec fn spec_service(&self) -> CounterService {
        self.service
    }

    /// Create the handler around the twd2 counter backed by the file at
    /// `path`, whose text was read as `stored` (`None` where reading failed).
    pub fn new(path: String, stored: Option<&str>) -> (r: Twd2CommandHandler)
        ensures
            r.spec_service().spec_path() == path@,
            r.spec_service().spec_value() == loaded_value(stored_view(stored)),
    {
        Twd2CommandHandler { service: CounterService::new(path, stored) }
    }

    /// The counter's current value.
    pub fn counter_value(&self) -> (r: u64)
        ensures
            r == self.spec_service().spec_value(),
    {
        self.service.value()
    }

    /// Whether this handler answers the given command.
    pub fn accept(&self, cmd: &Command) -> (r: bool)
        ensures
            r == (*cmd is FeedTwd2),
    {
        match cmd {
            Command::FeedTwd2 => true,
            _ => false,
        }
    }

    /// Feed the counter: reply with the increased count inside the flavor
    /// message, and ask the caller to mirror the new value into the backing
    /// file.
    pub fn handle(&mut self, _cmd: &Command, _ctx: &MessageContext) -> (r: Option<Reply>)
        requires
            old(self).spec_service().spec_value() < u64::MAX,
        ensures
            final(self).spec_service().spec_value() == old(self).spec_service().spec_value() + 1,
            final(self).spec_service().spec_path() == old(self).spec_service().spec_path(),
            ({
                &&& r matches Some(rep)
                &&& rep.text@ == spec_twd2_reply_text(final(self).spec_service().spec_value())
                &&& rep.file_write matches Some(fw)
                &&& fw.path@ == final(self).spec_service().spec_path()
                &&& fw.contents@ == spec_u64_text(final(self).spec_service().spec_value() as nat)
            }),
    {
        let counter = self.service.increase();
        let counter_text = crate::decimal::u64_to_text(counter);
        let mut text = String::from_str("二老师投喂计数器：");
        text.append(counter_text.as_str());
        text.append("\n向二老师投喂酥酥万呆粒一枚~");
        let file_write = FileWrite {
            path: self.service.path().clone(),
            contents: self.service.persist_text(),
        };
        Some(Reply { text, file_write: Some(file_write) })
    }
}

} // verus!
