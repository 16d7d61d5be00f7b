//! Handler of the `/milktea`, the `/cappuccino` and the `/producedrink`
//! commands.

use vstd::prelude::*;
use vstd::string::*;

use crate::commands::{Command, Reply};
use crate::utils::{get_user_display_name, spec_display_name, MessageContext, UserInfo};

verus! {

/// The drink label a command asks to pour.
pub open spec fn spec_drink_label(cmd: Command) -> Seq<char>
    recommends
        cmd is Milktea || cmd is Cappuccino || cmd is ProduceDrink,
{
    match cmd {
        Command::Milktea => "奶茶"@,
        Command::Cappuccino => "卡布奇诺"@,
        Command::ProduceDrink { drink_name } => drink_name@,
        _ => ""@,
    }
}

/// The emoji appended after the drink a command asks to pour.
pub open spec fn spec_drink_emoji(cmd: Command) -> Seq<char>
    recommends
        cmd is Milktea || cmd is Cappuccino || cmd is ProduceDrink,
{
    match cmd {
        Command::Milktea => "🧋"@,
        Command::Cappuccino => "☕️"@,
        _ => ""@,
    }
}

/// The gift message for a drink: the two-party phrasing names sender and
/// target; when there is no reply target, or the target's display name equals
/// the sender's, the reflexive phrasing is used instead.
pub open spec fn spec_give_drink_message(
    from: UserInfo,
    to: Option<UserInfo>,
    drink_name: Seq<char>,
    drink_emoji: Seq<char>,
) -> Seq<char> {
    let from_name = spec_display_name(from);
    match to {
        Some(u) => if spec_display_name(u) != from_name {
            from_name + " 给 "@ + spec_display_name(u) + " 倒了一杯"@ + drink_name + "！"@
                + drink_emoji
        } else {
            from_name + " 给自己倒了一杯"@ + drink_name + "！"@ + drink_emoji
        },
        None => from_name + " 给自己倒了一杯"@ + drink_name + "！"@ + drink_emoji,
    }
}

/// The reply to a drink command: nothing when the sender identity is absent
/// (a channel-origin message), the gift message otherwise.
pub open spec fn spec_drink_reply(cmd: Command, ctx: MessageContext) -> Option<Seq<char>> {
    match ctx.sender {
        Some(from) => Some(
            spec_give_drink_message(
                from,
                ctx.replied_to_sender,
                spec_drink_label(cmd),
                spec_drink_emoji(cmd),
            ),
        ),
        None => None,
    }
}

/// Gift-message self-case: when there is no reply target, or the computed
/// target display name equals the sender's display name, the gift message is
/// exactly the reflexive phrasing — never the two-party phrasing.
pub proof fn lemma_gift_self_case(
    from: UserInfo,
    to: Option<UserInfo>,
    drink_name: Seq<char>,
    drink_emoji: Seq<char>,
)
    requires
        match to {
            Some(u) => spec_display_name(u) == spec_display_name(from),
            None => true,
        },
    ensures
        spec_give_drink_message(from, to, drink_name, drink_emoji) == spec_display_name(from)
            + " 给自己倒了一杯"@ + drink_name + "！"@ + drink_emoji,
{
}

/// Handler of the `/milktea`, the `/cappuccino` and the `/producedrink`
/// commands.
pub struct DrinkCommandHandler;

impl DrinkCommandHandler {
    /// Create the handler.
    pub fn new() -> (r: DrinkCommandHandler) {
        DrinkCommandHandler
    }

    /// Format the gift message naming sender, target and drink, with the
    /// reflexive phrasing when there is no target distinct from the sender.
    pub fn format_give_drink_message(
        from: &UserInfo,
        to: Option<&UserInfo>,
        drink_name: &str,
        drink_emoji: &str,
    ) -> (r: String)
        ensures
            r@ == spec_give_drink_message(
                *from,
                match to {
                    Some(u) => Some(*u),
                    None => None,
                },
                drink_name@,
                drink_emoji@,
            ),
    {
        let from_name = get_user_display_name(from);
        let two_party_target: Option<String> = match to {
            Some(u) => {
                let to_name = get_user_display_name(u);
                if !to_name.eq(&from_name) {
                    Some(to_name)
                } else {
                    None
                }
            },
            None => None,
        };
        match two_party_target {
            Some(to_name) => {
                let mut s = from_name;
                s.append(" 给 ");
                s.append(to_name.as_str());
                s.append(" 倒了一杯");
                s.append(drink_name);
                s.append("！");
                s.append(drink_emoji);
                s
            },
            None => {
                let mut s = from_name;
                s.append(" 给自己倒了一杯");
                s.append(drink_name);
                s.append("！");
                s.append(drink_emoji);
                s
            },
        }
    }

    /// Build the reply for a drink gift in the given context: none for a
    /// channel-origin message, the gift message otherwise.
    fn give_drinks(ctx: &MessageContext, drink_name: &str, drink_emoji: &str) -> (r: Option<Reply>)
        ensures
            match ctx.sender {
                Some(from) => r matches Some(rep) && rep.file_write is None && rep.text@
                    == spec_give_drink_message(
                    from,
                    ctx.replied_to_sender,
                    drink_name@,
                    drink_emoji@,
                ),
                None => r is None,
            },
    {
        let from = match &ctx.sender {
            Some(user) => user,
            None => {
                return None;
            },
        };
        let to = ctx.replied_to_sender.as_ref();
        let text = Self::format_give_drink_message(from, to, drink_name, drink_emoji);
        Some(Reply { text, file_write: None })
    }

    /// Whether this handler answers the given command.
    pub fn accept(&self, cmd: &Command) -> (r: bool)
        ensures
            r == (*cmd is Milktea || *cmd is Cappuccino || *cmd is ProduceDrink),
    {
        match cmd {
            Command::Milktea | Command::Cappuccino | Command::ProduceDrink { .. } => true,
            _ => false,
        }
    }

    /// Reply with the gift message for the commanded drink, or with nothing
    /// when the sender identity is absent.
    pub fn handle(&self, cmd: &Command, ctx: &MessageContext) -> (r: Option<Reply>)
        requires
            *cmd is Milktea || *cmd is Cappuccino || *cmd is ProduceDrink,
        ensures
            match spec_drink_reply(*cmd, *ctx) {
                Some(text) => r matches Some(rep) && rep.file_write is None && rep.text@ == text,
                None => r is None,
            },
    {
        match cmd {
            Command::Milktea => Self::give_drinks(ctx, "奶茶", "🧋"),
            Command::Cappuccino => Self::give_drinks(ctx, "卡布奇诺", "☕️"),
            Command::ProduceDrink { drink_name } => Self::give_drinks(ctx, drink_name.as_str(), ""),
            _ => None,
        }
    }
}

} // verus!
