use thufood::commands::drink::DrinkCommandHandler;
use thufood::commands::{Command, CommandRepl, Handler};
use thufood::utils::{get_message_sender, get_user_display_name, MessageContext, UserInfo};

fn user(id: i64, username: Option<&str>, first_name: &str, last_name: Option<&str>) -> UserInfo {
    UserInfo {
        id,
        username: username.map(String::from),
        first_name: String::from(first_name),
        last_name: last_name.map(String::from),
    }
}

#[test]
fn display_name_prefers_the_platform_handle() {
    let u = user(1, Some("lancern"), "Sirui", Some("Mu"));
    assert_eq!(get_user_display_name(&u), "@lancern");
}

#[test]
fn display_name_falls_back_to_first_and_last_name() {
    let u = user(1, None, "Sirui", Some("Mu"));
    assert_eq!(get_user_display_name(&u), "Sirui Mu");
}

#[test]
fn display_name_falls_back_to_first_name_alone() {
    let u = user(1, None, "Sirui", None);
    assert_eq!(get_user_display_name(&u), "Sirui");
}

#[test]
fn message_sender_is_absent_for_channel_messages() {
    let ctx = MessageContext {
        sender: None,
        replied_to_sender: None,
    };
    assert!(get_message_sender(&ctx).is_none());
    let ctx = MessageContext {
        sender: Some(user(1, None, "A", None)),
        replied_to_sender: None,
    };
    assert_eq!(get_message_sender(&ctx).unwrap().first_name, "A");
}

#[test]
fn two_party_gift_message_names_sender_and_target() {
    let from = user(1, Some("alice"), "Alice", None);
    let to = user(2, Some("bob"), "Bob", None);
    let text = DrinkCommandHandler::format_give_drink_message(&from, Some(&to), "奶茶", "🧋");
    assert_eq!(text, "@alice 给 @bob 倒了一杯奶茶！🧋");
}

#[test]
fn gift_without_reply_target_uses_the_reflexive_phrasing() {
    let from = user(1, Some("alice"), "Alice", None);
    let text = DrinkCommandHandler::format_give_drink_message(&from, None, "奶茶", "🧋");
    assert_eq!(text, "@alice 给自己倒了一杯奶茶！🧋");
}

#[test]
fn gift_to_same_display_name_uses_the_reflexive_phrasing() {
    let from = user(1, Some("alice"), "Alice", None);
    let to = user(2, Some("alice"), "Another", Some("Alice"));
    let text = DrinkCommandHandler::format_give_drink_message(&from, Some(&to), "卡布奇诺", "☕️");
    assert_eq!(text, "@alice 给自己倒了一杯卡布奇诺！☕️");
}

#[test]
fn gift_to_self_uses_the_reflexive_phrasing() {
    let from = user(1, None, "Alice", None);
    let to = user(1, None, "Alice", None);
    let text = DrinkCommandHandler::format_give_drink_message(&from, Some(&to), "奶茶", "");
    assert_eq!(text, "Alice 给自己倒了一杯奶茶！");
}

#[test]
fn drink_commands_reply_through_the_router() {
    let mut repl = CommandRepl::new();
    repl.register(Handler::Drink(DrinkCommandHandler::new()));
    let ctx = MessageContext {
        sender: Some(user(1, Some("alice"), "Alice", None)),
        replied_to_sender: Some(user(2, None, "Bob", Some("Smith"))),
    };
    let reply = repl.dispatch(&Command::Milktea, &ctx).unwrap();
    assert_eq!(reply.text, "@alice 给 Bob Smith 倒了一杯奶茶！🧋");
    assert!(reply.file_write.is_none());
    let reply = repl.dispatch(&Command::Cappuccino, &ctx).unwrap();
    assert_eq!(reply.text, "@alice 给 Bob Smith 倒了一杯卡布奇诺！☕️");
    let reply = repl
        .dispatch(
            &Command::ProduceDrink {
                drink_name: String::from("白开水"),
            },
            &ctx,
        )
        .unwrap();
    assert_eq!(reply.text, "@alice 给 Bob Smith 倒了一杯白开水！");
}

#[test]
fn drink_command_from_a_channel_gets_no_reply() {
    let mut repl = CommandRepl::new();
    repl.register(Handler::Drink(DrinkCommandHandler::new()));
    let ctx = MessageContext {
        sender: None,
        replied_to_sender: None,
    };
    assert!(repl.dispatch(&Command::Milktea, &ctx).is_none());
}
