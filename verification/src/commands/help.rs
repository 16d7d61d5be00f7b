//! Handler of the `/start` and the `/help` commands.

use vstd::prelude::*;
use vstd::string::*;

use crate::commands::{all_command_descriptors, spec_command_catalog, Command, Reply};
use crate::utils::MessageContext;

verus! {

/// One rendered line of the help message.
pub open spec fn spec_help_line(name: Seq<char>, description: Seq<char>) -> Seq<char> {
    "\n/"@ + name + " — "@ + description
}

/// The rendered lines of the first `n` catalog entries, in catalog order.
pub open spec fn spec_help_lines(catalog: Seq<(Seq<char>, Seq<char>)>, n: int) -> Seq<char>
    recommends
        0 <= n <= catalog.len(),
    decreases n,
{
    if n <= 0 {
        Seq::empty()
    } else {
        spec_help_lines(catalog, n - 1) + spec_help_line(catalog[n - 1].0, catalog[n - 1].1)
    }
}

/// The full help message: a header followed by one line per command.
pub open spec fn spec_help_text() -> Seq<char> {
    "支持的命令："@ + spec_help_lines(spec_command_catalog(), spec_command_catalog().len() as int)
}

/// Handler of the `/start` and the `/help` commands.
pub struct HelpCommandHandler {
    help_text: String,
}

impl HelpCommandHandler {
    /// The pre-rendered help message.
    pub closed spec fn spec_help(&self) -> Seq<char> {
        self.help_text@
    }

    /// The help message was rendered from the command catalog.
    pub open spec fn wf(&self) -> bool {
        self.spec_help() == spec_help_text()
    }

    /// Create the handler, rendering the help message once from the command
    /// catalog.
    pub fn new() -> (r: HelpCommandHandler)
        ensures
            r.wf(),
    {
        let catalog = all_command_descriptors();
        let mut text = String::from_str("支持的命令：");
        let n = catalog.len();
        let mut i: usize = 0;
        while i < n
            invariant
                0 <= i <= n,
                n == spec_command_catalog().len(),
                catalog@.len() == n,
                forall|k: int|
                    0 <= k < n ==> #[trigger] catalog@[k].command@ == spec_command_catalog()[k].0
                        && catalog@[k].description@ == spec_command_catalog()[k].1,
                text@ == "支持的命令："@ + spec_help_lines(spec_command_catalog(), i as int),
            decreases n - i,
        {
            text.append("\n/");
            text.append(catalog[i].command.as_str());
            text.append(" — ");
            text.append(catalog[i].description.as_str());
            i = i + 1;
        }
        HelpCommandHandler { help_text: text }
    }

    /// Whether this handler answers the given command.
    pub fn accept(&self, cmd: &Command) -> (r: bool)
        ensures
            r == (*cmd is Help || *cmd is Start),
    {
        match cmd {
            Command::Help | Command::Start => true,
            _ => false,
        }
    }

    /// Reply with the pre-rendered description of all commands.
    pub fn handle(&self, _cmd: &Command, _ctx: &MessageContext) -> (r: Option<Reply>)
        requires
            self.wf(),
        ensures
            r matches Some(rep) && rep.text@ == spec_help_text() && rep.file_write is None,
    {
        Some(Reply { text: self.help_text.clone(), file_write: None })
    }
}

} // verus!
