//! Commands and their dispatch.
//!
//! A `Command` is one inbound operation, already parsed by the transport
//! layer. A `CommandRepl` owns an ordered list of handlers and dispatches
//! each command to the first handler that accepts it; a command that no
//! handler accepts is silently ignored.

pub mod canteen;
pub mod drink;
pub mod help;
pub mod meow;
pub mod twd2;

use vstd::prelude::*;
use vstd::string::*;

use crate::commands::canteen::CanteenCommandHandler;
use crate::commands::drink::DrinkCommandHandler;
use crate::commands::help::HelpCommandHandler;
use crate::commands::meow::MeowCommandHandler;
use crate::commands::twd2::Twd2CommandHandler;
use crate::config::Config;
use crate::utils::MessageContext;

verus! {

/// The supported commands.
pub enum Command {
    /// Start interacting and show the help message.
    Start,
    /// Show the help message.
    Help,
    /// Randomly choose a canteen.
    Canteen,
    /// Pour a virtual milk tea.
    Milktea,
    /// Pour a virtual cappuccino.
    Cappuccino,
    /// Pour a virtual drink named in the command.
    ProduceDrink { drink_name: String },
    /// Feed the cat and count the feeding.
    FeedMeow,
    /// Feed the cat with extra spirit and count the feeding.
    FeedMeowWd40,
    /// Feed twd2 and count the feeding.
    FeedTwd2,
}

/// One entry of the command menu: the command's name and its description.
pub struct CommandDescriptor {
    /// The name of the command, without the leading slash.
    pub command: String,
    /// A short description of the command.
    pub description: String,
}

/// A request to mirror a new counter value into its backing file.
pub struct FileWrite {
    /// Path of the backing file.
    pub path: String,
    /// The exact text the file must hold afterwards.
    pub contents: String,
}

/// A handler's answer to a command: the reply text to send back, and the
/// backing-file write the caller must perform best-effort, if any.
pub struct Reply {
    /// The reply text.
    pub text: String,
    /// The backing-file write that mirrors a counter change, if one happened.
    pub file_write: Option<FileWrite>,
}

/// A configuration that cannot serve: construction must fail instead of
/// producing an unusable dispatcher.
#[derive(Debug)]
pub enum ConfigError {
    /// The canteens list is empty.
    NoCanteens,
    /// A canteen has weight 0, which could never be chosen.
    ZeroWeightCanteen,
    /// The canteen weights add up to more than a 64-bit total.
    WeightOverflow,
}

/// The commands published to the transport layer, with their descriptions.
pub open spec fn spec_command_catalog() -> Seq<(Seq<char>, Seq<char>)> {
    seq![
        ("start"@, "开始交互并显示帮助信息"@),
        ("help"@, "显示帮助信息"@),
        ("canteen"@, "随机选择一个餐厅"@),
        ("milktea"@, "线上喝奶茶"@),
        ("cappuccino"@, "线上喝卡布奇诺"@),
        ("producedrink"@, "线上生产饮品"@),
    ]
}

/// All the commands provided by the bot, for registering the command menu
/// and for rendering the help message.
pub fn all_command_descriptors() -> (r: Vec<CommandDescriptor>)
    ensures
        r@.len() == spec_command_catalog().len(),
        forall|i: int|
            0 <= i < r@.len() ==> #[trigger] r@[i].command@ == spec_command_catalog()[i].0
                && r@[i].description@ == spec_command_catalog()[i].1,
{
    let mut r: Vec<CommandDescriptor> = Vec::new();
    r.push(
        CommandDescriptor {
            command: String::from_str("start"),
            description: String::from_str("开始交互并显示帮助信息"),
        },
    );
    r.push(
        CommandDescriptor {
            command: String::from_str("help"),
            description: String::from_str("显示帮助信息"),
        },
    );
    r.push(
        CommandDescriptor {
            command: String::from_str("canteen"),
            description: String::from_str("随机选择一个餐厅"),
        },
    );
    r.push(
        CommandDescriptor {
            command: String::from_str("milktea"),
            description: String::from_str("线上喝奶茶"),
        },
    );
    r.push(
        CommandDescriptor {
            command: String::from_str("cappuccino"),
            description: String::from_str("线上喝卡布奇诺"),
        },
    );
    r.push(
        CommandDescriptor {
            command: String::from_str("producedrink"),
            description: String::from_str("线上生产饮品"),
        },
    );
    r
}

/// One registered command handler.
pub enum Handler {
    /// Answers `/canteen`.
    Canteen(CanteenCommandHandler),
    /// Answers `/milktea`, `/cappuccino` and `/producedrink`.
    Drink(DrinkCommandHandler),
    /// Answers `/start` and `/help`.
    Help(HelpCommandHandler),
    /// Answers `/feedmeow` and `/feedmeowwd40`.
    Meow(MeowCommandHandler),
    /// Answers `/feedtwd2`.
    Twd2(Twd2CommandHandler),
}

impl Handler {
    /// Whether the handler accepts the command.
    pub open spec fn spec_accepts(&self, cmd: Command) -> bool {
        match self {
            Handler::Canteen(_) => cmd is Canteen,
            Handler::Drink(_) => cmd is Milktea || cmd is Cappuccino || cmd is ProduceDrink,
            Handler::Help(_) => cmd is Help || cmd is Start,
            Handler::Meow(_) => cmd is FeedMeow || cmd is FeedMeowWd40,
            Handler::Twd2(_) => cmd is FeedTwd2,
        }
    }

    /// The handler's own invariant.
    pub open spec fn wf(&self) -> bool {
        match self {
            Handler::Canteen(h) => h.wf(),
            Handler::Drink(_) => true,
            Handler::Help(h) => h.wf(),
            Handler::Meow(_) => true,
            Handler::Twd2(_) => true,
        }
    }

    /// The handler's counter, if it owns one, has room to count once more.
    pub open spec fn headroom(&self) -> bool {
        match self {
            Handler::Meow(h) => h.spec_service().spec_value() < u64::MAX,
            Handler::Twd2(h) => h.spec_service().spec_value() < u64::MAX,
            _ => true,
        }
    }

    /// What handling a command does: how the handler after the call and the
    /// reply relate to the handler before it, the command and the context.
    pub open spec fn handle_post(
        pre: Handler,
        post: Handler,
        cmd: Command,
        ctx: MessageContext,
        r: Option<Reply>,
    ) -> bool {
        match pre {
            Handler::Canteen(h) => {
                &&& post == pre
                &&& r matches Some(rep)
                &&& rep.file_write is None
                &&& h.spec_replied(rep.text@)
            },
            Handler::Drink(_) => {
                &&& post == pre
                &&& match drink::spec_drink_reply(cmd, ctx) {
                    Some(text) => r matches Some(rep) && rep.file_write is None && rep.text@
                        == text,
                    None => r is None,
                }
            },
            Handler::Help(_) => {
                &&& post == pre
                &&& r matches Some(rep)
                &&& rep.file_write is None
                &&& rep.text@ == help::spec_help_text()
            },
            Handler::Meow(h) => {
                &&& post matches Handler::Meow(hp)
                &&& hp.spec_service().spec_value() == h.spec_service().spec_value() + 1
                &&& hp.spec_service().spec_path() == h.spec_service().spec_path()
                &&& r matches Some(rep)
                &&& rep.text@ == meow::spec_meow_reply_text(cmd, hp.spec_service().spec_value())
                &&& rep.file_write matches Some(fw)
                &&& fw.path@ == hp.spec_service().spec_path()
                &&& fw.contents@ == crate::decimal::spec_u64_text(
                    hp.spec_service().spec_value() as nat,
                )
            },
            Handler::Twd2(h) => {
                &&& post matches Handler::Twd2(hp)
                &&& hp.spec_service().spec_value() == h.spec_service().spec_value() + 1
                &&& hp.spec_service().spec_path() == h.spec_service().spec_path()
                &&& r matches Some(rep)
                &&& rep.text@ == twd2::spec_twd2_reply_text(hp.spec_service().spec_value())
                &&& rep.file_write matches Some(fw)
                &&& fw.path@ == hp.spec_service().spec_path()
                &&& fw.contents@ == crate::decimal::spec_u64_text(
                    hp.spec_service().spec_value() as nat,
                )
            },
        }
    }

    /// Whether the handler accepts the command.
    pub fn accept(&self, cmd: &Command) -> (r: bool)
        ensures
            r == self.spec_accepts(*cmd),
    {
        match self {
            Handler::Canteen(h) => h.accept(cmd),
            Handler::Drink(h) => h.accept(cmd),
            Handler::Help(h) => h.accept(cmd),
            Handler::Meow(h) => h.accept(cmd),
            Handler::Twd2(h) => h.accept(cmd),
        }
    }

    /// Handle an accepted command.
    pub fn handle(&mut self, cmd: &Command, ctx: &MessageContext) -> (r: Option<Reply>)
        requires
            old(self).spec_accepts(*cmd),
            old(self).wf(),
            old(self).headroom(),
        ensures
            Handler::handle_post(*old(self), *final(self), *cmd, *ctx, r),
            final(self).wf(),
    {
        match self {
            Handler::Canteen(h) => h.handle(cmd, ctx),
            Handler::Drink(h) => h.handle(cmd, ctx),
            Handler::Help(h) => h.handle(cmd, ctx),
            Handler::Meow(h) => h.handle(cmd, ctx),
            Handler::Twd2(h) => h.handle(cmd, ctx),
        }
    }
}

/// The position of the first handler that accepts the command, if any: the
/// dispatch policy is that the first match wins.
pub open spec fn first_match(hs: Seq<Handler>, cmd: Command) -> Option<int>
    decreases hs.len(),
{
    if hs.len() == 0 {
        None
    } else if hs[0].spec_accepts(cmd) {
        Some(0int)
    } else {
        match first_match(hs.drop_first(), cmd) {
            Some(i) => Some(i + 1),
            None => None,
        }
    }
}

/// What `first_match` finds: an accepting handler before which no handler
/// accepts, or the fact that no handler accepts at all.
pub proof fn lemma_first_match_characterization(hs: Seq<Handler>, cmd: Command)
    ensures
        match first_match(hs, cmd) {
            Some(i) => 0 <= i < hs.len() && hs[i].spec_accepts(cmd) && forall|j: int|
                0 <= j < i ==> !(#[trigger] hs[j]).spec_accepts(cmd),
            None => forall|j: int| 0 <= j < hs.len() ==> !(#[trigger] hs[j]).spec_accepts(cmd),
        },
    decreases hs.len(),
{
    if hs.len() > 0 && !hs[0].spec_accepts(cmd) {
        let rest = hs.drop_first();
        lemma_first_match_characterization(rest, cmd);
        match first_match(rest, cmd) {
            Some(i) => {
                assert(rest[i] == hs[i + 1]);
                assert forall|j: int| 0 <= j < i + 1 implies !(#[trigger] hs[j]).spec_accepts(
                    cmd,
                ) by {
                    if j > 0 {
                        assert(rest[j - 1] == hs[j]);
                        assert(!rest[j - 1].spec_accepts(cmd));
                    }
                }
            },
            None => {
                assert forall|j: int| 0 <= j < hs.len() implies !(#[trigger] hs[j]).spec_accepts(
                    cmd,
                ) by {
                    if j > 0 {
                        assert(rest[j - 1] == hs[j]);
                        assert(!rest[j - 1].spec_accepts(cmd));
                    }
                }
            },
        }
    }
}

/// First match wins: whatever accepting handlers stand later in the list,
/// the first accepting one is the one dispatched to, and no other.
pub proof fn lemma_first_match_wins(hs: Seq<Handler>, cmd: Command, i: int)
    requires
        0 <= i < hs.len(),
        hs[i].spec_accepts(cmd),
        forall|j: int| 0 <= j < i ==> !(#[trigger] hs[j]).spec_accepts(cmd),
    ensures
        first_match(hs, cmd) == Some(i),
    decreases hs.len(),
{
    if i > 0 {
        assert forall|j: int| 0 <= j < i - 1 implies !(#[trigger] hs.drop_first()[j]).spec_accepts(
            cmd,
        ) by {
            assert(hs.drop_first()[j] == hs[j + 1]);
        }
        assert(hs.drop_first()[i - 1] == hs[i]);
        lemma_first_match_wins(hs.drop_first(), cmd, i - 1);
    }
}

/// A command that no registered handler accepts matches nothing: dispatching
/// it is a silent no-op.
pub proof fn lemma_no_match(hs: Seq<Handler>, cmd: Command)
    requires
        forall|j: int| 0 <= j < hs.len() ==> !(#[trigger] hs[j]).spec_accepts(cmd),
    ensures
        first_match(hs, cmd) is None,
{
    lemma_first_match_characterization(hs, cmd);
}

/// A command REPL that serves the bot commands: an ordered registry of
/// handlers, dispatching each inbound command to the first handler that
/// accepts it.
pub struct CommandRepl {
    handlers: Vec<Handler>,
}

impl Default for CommandRepl {
    /// A command REPL with no handlers registered.
    fn default() -> (r: CommandRepl)
        ensures
            r.spec_handlers() =~= Seq::<Handler>::empty(),
    {
        CommandRepl { handlers: Vec::new() }
    }
}

impl CommandRepl {
    /// The registered handlers, in registration order.
    pub closed spec fn spec_handlers(&self) -> Seq<Handler> {
        self.handlers@
    }

    /// Every registered handler is well-formed.
    pub open spec fn wf(&self) -> bool {
        forall|i: int|
            0 <= i < self.spec_handlers().len() ==> (#[trigger] self.spec_handlers()[i]).wf()
    }

    /// Every registered counter has room to count once more.
    pub open spec fn headroom(&self) -> bool {
        forall|i: int|
            0 <= i < self.spec_handlers().len() ==> (#[trigger] self.spec_handlers()[i]).headroom()
    }

    /// Create a command REPL with no handlers registered.
    pub fn new() -> (r: CommandRepl)
        ensures
            r.spec_handlers() =~= Seq::<Handler>::empty(),
            r.wf(),
    {
        CommandRepl { handlers: Vec::new() }
    }

    /// Register a handler after all those registered so far.
    ///
    /// Registration order is load-bearing: an earlier handler shadows every
    /// later one on the commands both accept.
    pub fn register(&mut self, handler: Handler)
        requires
            handler.wf(),
        ensures
            final(self).spec_handlers() == old(self).spec_handlers().push(handler),
            old(self).wf() ==> final(self).wf(),
    {
        let ghost g = handler;
        self.handlers.push(handler);
        proof {
            if old(self).wf() {
                assert forall|i: int| 0 <= i < self.handlers@.len() implies (
                #[trigger] self.handlers@[i]).wf() by {
                    if i < old(self).handlers@.len() {
                        assert(self.handlers@[i] == old(self).spec_handlers()[i]);
                    } else {
                        assert(self.handlers@[i] == g);
                    }
                }
            }
        }
    }

    /// Create a new `CommandRepl` from the given application configuration,
    /// registering the canteen handler and then the help handler.
    pub fn from_config(config: &Config) -> (r: Result<CommandRepl, ConfigError>)
        ensures
            match r {
                Ok(repl) => {
                    &&& repl.wf()
                    &&& repl.headroom()
                    &&& repl.spec_handlers().len() == 2
                    &&& repl.spec_handlers()[0] matches Handler::Canteen(h) && h.spec_picker()
                        .spec_canteens().len() == config.canteens@.len() && forall|i: int|
                        0 <= i < config.canteens@.len()
                            ==> #[trigger] h.spec_picker().spec_canteens()[i].name@
                            == config.canteens@[i].name@ && h.spec_picker().spec_canteens()[i].weight
                            == config.canteens@[i].weight
                    &&& repl.spec_handlers()[1] is Help
                },
                Err(ConfigError::NoCanteens) => config.canteens@.len() == 0,
                Err(ConfigError::ZeroWeightCanteen) => config.canteens@.len() > 0
                    && !crate::canteen::all_weights_positive(
                    crate::config::config_weights(config.canteens@),
                ),
                Err(ConfigError::WeightOverflow) => config.canteens@.len() > 0
                    && crate::canteen::all_weights_positive(
                    crate::config::config_weights(config.canteens@),
                ) && crate::canteen::prefix_weight(
                    crate::config::config_weights(config.canteens@),
                    config.canteens@.len() as int,
                ) > u64::MAX,
            },
    {
        let canteen_handler = match CanteenCommandHandler::new(config) {
            Ok(h) => h,
            Err(e) => {
                return Err(e);
            },
        };
        let mut repl = CommandRepl::new();
        repl.register(Handler::Canteen(canteen_handler));
        repl.register(Handler::Help(HelpCommandHandler::new()));
        Ok(repl)
    }

    /// Dispatch one inbound command.
    ///
    /// The handlers are consulted in registration order; the first one that
    /// accepts the command handles it, and the rest are never consulted. A
    /// command that no handler accepts is silently ignored: no reply, no
    /// error, no handler touched.
    pub fn dispatch(&mut self, cmd: &Command, ctx: &MessageContext) -> (r: Option<Reply>)
        requires
            old(self).wf(),
            old(self).headroom(),
        ensures
            final(self).wf(),
            final(self).spec_handlers().len() == old(self).spec_handlers().len(),
            match first_match(old(self).spec_handlers(), *cmd) {
                None => r is None && final(self).spec_handlers() == old(self).spec_handlers(),
                Some(i) => Handler::handle_post(
                    old(self).spec_handlers()[i],
                    final(self).spec_handlers()[i],
                    *cmd,
                    *ctx,
                    r,
                ) && forall|k: int|
                    0 <= k < old(self).spec_handlers().len() && k != i
                        ==> final(self).spec_handlers()[k] == old(self).spec_handlers()[k],
            },
    {
        let ghost hs = self.handlers@;
        let n = self.handlers.len();
        let mut i: usize = 0;
        while i < n
            invariant
                0 <= i <= n,
                n == hs.len(),
                hs == old(self).spec_handlers(),
                self.handlers@ == hs,
                self.wf(),
                self.headroom(),
                forall|j: int| 0 <= j < i ==> !(#[trigger] hs[j]).spec_accepts(*cmd),
            decreases n - i,
        {
            if self.handlers[i].accept(cmd) {
                proof {
                    lemma_first_match_wins(hs, *cmd, i as int);
                    assert(hs[i as int] == self.spec_handlers()[i as int]);
                    assert(self.spec_handlers()[i as int].wf());
                    assert(self.spec_handlers()[i as int].headroom());
                }
                let mut handler = self.handlers.remove(i);
                let r = handler.handle(cmd, ctx);
                let ghost hpost = handler;
                self.handlers.insert(i, handler);
                proof {
                    assert(self.handlers@ =~= hs.update(i as int, hpost));
                    assert forall|k: int| 0 <= k < self.handlers@.len() implies (
                    #[trigger] self.handlers@[k]).wf() by {
                        if k != i as int {
                            assert(self.handlers@[k] == hs[k]);
                            assert(hs[k].wf());
                        } else {
                            assert(self.handlers@[k] == hpost);
                        }
                    }
                    assert(first_match(hs, *cmd) == Some(i as int));
                    assert(self.spec_handlers()[i as int] == hpost);
                    assert(Handler::handle_post(hs[i as int], hpost, *cmd, *ctx, r));
                    assert forall|k: int|
                        0 <= k < hs.len() && k != i as int implies self.spec_handlers()[k] == hs[k] by {
                        assert(self.handlers@[k] == hs.update(i as int, hpost)[k]);
                    }
                }
                return r;
            }
            i = i + 1;
        }
        proof {
            lemma_no_match(hs, *cmd);
        }
        None
    }
}

} // verus!
