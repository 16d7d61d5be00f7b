//! Handler for the `/feedmeow` and the `/feedmeowwd40` commands.

use vstd::prelude::*;
use vstd::string::*;

use crate::commands::{Command, FileWrite, Reply};
use crate::decimal::spec_u64_text;
use crate::services::counter::{loaded_value, stored_view, CounterService};
use crate::utils::MessageContext;

verus! {

/// The reply to a feeding: the counter's new value framed by a flavor
/// message that varies with the command sub-variant.
pub open spec fn spec_meow_reply_text(cmd: Command, value: u64) -> Seq<char>
    recommends
        cmd is FeedMeow || cmd is FeedMeowWd40,
{
    if cmd is FeedMeow {
        "Meow~~~\n猫咪投喂计数器："@ + spec_u64_text(value as nat) + "\n呼呼喵喵zzz"@
    } else {
        "Meow~~~\n猫咪投喂计数器："@ + spec_u64_text(value as nat) + "\n精神喵喵！！！"@
    }
}

/// Handler for the `/feedmeow` and the `/feedmeowwd40` commands.
pub struct MeowCommandHandler {
    service: CounterService,
}

impl MeowCommandHandler {
    /// The counter the handler feeds.
    pub closed spec fn spec_service(&self) -> CounterService {
        self.service
    }

    /// Create the handler around the meow counter backed by the file at
    /// `path`, whose text was read as `stored` (`None` where reading failed).
    pub fn new(path: String, stored: Option<&str>) -> (r: MeowCommandHandler)
        ensures
            r.spec_service().spec_path() == path@,
            r.spec_service().spec_value() == loaded_value(stored_view(stored)),
    {
        MeowCommandHandler { service: CounterService::new(path, stored) }
    }

    /// The counter's current value.
    pub fn counter_value(&self) -> (r: u64)
        ensures
            r == self.spec_service().spec_value(),
    {
        self.service.value()
    }

    /// Whether this handler answers the given command.
    pub fn accept(&self, cmd: &Command) -> (r: bool)
        ensures
            r == (*cmd is FeedMeow || *cmd is FeedMeowWd40),
    {
        match cmd {
            Command::FeedMeow | Command::FeedMeowWd40 => true,
            _ => false,
        }
    }

    /// Feed the counter: reply with the increased count inside the flavor
    /// message of the commanded sub-variant, and ask the caller to mirror the
    /// new value into the backing file.
    pub fn handle(&mut self, cmd: &Command, _ctx: &MessageContext) -> (r: Option<Reply>)
        requires
            *cmd is FeedMeow || *cmd is FeedMeowWd40,
            old(self).spec_service().spec_value() < u64::MAX,
        ensures
            final(self).spec_service().spec_value() == old(self).spec_service().spec_value() + 1,
            final(self).spec_service().spec_path() == old(self).spec_service().spec_path(),
            ({
                &&& r matches Some(rep)
                &&& rep.text@ == spec_meow_reply_text(
                    *cmd,
                    final(self).spec_service().spec_value(),
                )
                &&& rep.file_write matches Some(fw)
                &&& fw.path@ == final(self).spec_service().spec_path()
                &&& fw.contents@ == spec_u64_text(final(self).spec_service().spec_value() as nat)
            }),
    {
        let counter = self.service.increase();
        let counter_text = crate::decimal::u64_to_text(counter);
        let mut text = String::from_str("Meow~~~\n猫咪投喂计数器：");
        text.append(counter_text.as_str());
        match cmd {
            Command::FeedMeow => text.append("\n呼呼喵喵zzz"),
            _ => text.append("\n精神喵喵！！！"),
        }
        let file_write = FileWrite {
            path: self.service.path().clone(),
            contents: self.service.persist_text(),
        };
        Some(Reply { text, file_write: Some(file_write) })
    }
}

} // verus!
