use thufood::commands::meow::MeowCommandHandler;
use thufood::commands::twd2::Twd2CommandHandler;
use thufood::commands::{Command, CommandRepl, ConfigError, Handler};
use thufood::config::{Canteen, Config};
use thufood::utils::MessageContext;

fn test_config(canteens: Vec<(&str, u64)>) -> Config {
    Config {
        canteens: canteens
            .into_iter()
            .map(|(name, weight)| Canteen {
                name: String::from(name),
                weight,
            })
            .collect(),
        meow_counter_file: String::from("meow.txt"),
        twd2_counter_file: String::from("twd2.txt"),
    }
}

fn no_user_context() -> MessageContext {
    MessageContext {
        sender: None,
        replied_to_sender: None,
    }
}

const HELP_TEXT: &str = "支持的命令：\n/start — 开始交互并显示帮助信息\n/help — 显示帮助信息\n/canteen — 随机选择一个餐厅\n/milktea — 线上喝奶茶\n/cappuccino — 线上喝卡布奇诺\n/producedrink — 线上生产饮品";

#[test]
fn from_config_requires_a_non_empty_catalog() {
    assert!(matches!(
        CommandRepl::from_config(&test_config(vec![])),
        Err(ConfigError::NoCanteens)
    ));
}

#[test]
fn from_config_rejects_zero_weights() {
    assert!(matches!(
        CommandRepl::from_config(&test_config(vec![("A", 1), ("B", 0)])),
        Err(ConfigError::ZeroWeightCanteen)
    ));
}

#[test]
fn from_config_rejects_overflowing_total_weight() {
    assert!(matches!(
        CommandRepl::from_config(&test_config(vec![("A", u64::MAX), ("B", 1)])),
        Err(ConfigError::WeightOverflow)
    ));
}

#[test]
fn help_and_start_reply_with_the_command_catalog() {
    let mut repl = CommandRepl::from_config(&test_config(vec![("紫荆园", 1)])).unwrap();
    let ctx = no_user_context();
    let help = repl.dispatch(&Command::Help, &ctx).unwrap();
    assert_eq!(help.text, HELP_TEXT);
    assert!(help.file_write.is_none());
    let start = repl.dispatch(&Command::Start, &ctx).unwrap();
    assert_eq!(start.text, HELP_TEXT);
}

#[test]
fn canteen_command_replies_with_a_catalog_name() {
    let mut repl =
        CommandRepl::from_config(&test_config(vec![("紫荆园", 2), ("桃李园", 1)])).unwrap();
    let ctx = no_user_context();
    for _ in 0..50 {
        let reply = repl.dispatch(&Command::Canteen, &ctx).unwrap();
        assert!(reply.text == "紫荆园" || reply.text == "桃李园");
        assert!(reply.file_write.is_none());
    }
}

#[test]
fn unrecognized_command_is_a_silent_no_op() {
    // The dispatcher built from configuration registers only the canteen and
    // the help handlers, so a feed command finds no handler.
    let mut repl = CommandRepl::from_config(&test_config(vec![("A", 1)])).unwrap();
    let ctx = no_user_context();
    assert!(repl.dispatch(&Command::FeedMeow, &ctx).is_none());
    assert!(repl.dispatch(&Command::FeedTwd2, &ctx).is_none());
    assert!(repl
        .dispatch(
            &Command::ProduceDrink {
                drink_name: String::from("水")
            },
            &ctx
        )
        .is_none());
}

#[test]
fn empty_router_ignores_every_command() {
    let mut repl = CommandRepl::new();
    let ctx = no_user_context();
    assert!(repl.dispatch(&Command::Help, &ctx).is_none());
    assert!(repl.dispatch(&Command::Canteen, &ctx).is_none());
}

#[test]
fn first_registered_handler_wins() {
    let mut repl = CommandRepl::new();
    repl.register(Handler::Meow(MeowCommandHandler::new(
        String::from("first.txt"),
        Some("5"),
    )));
    repl.register(Handler::Meow(MeowCommandHandler::new(
        String::from("second.txt"),
        Some("100"),
    )));
    let ctx = no_user_context();
    let reply = repl.dispatch(&Command::FeedMeow, &ctx).unwrap();
    // Only the first-registered handler may answer: its counter moves 5 -> 6.
    assert_eq!(reply.text, "Meow~~~\n猫咪投喂计数器：6\n呼呼喵喵zzz");
    let write = reply.file_write.unwrap();
    assert_eq!(write.path, "first.txt");
    assert_eq!(write.contents, "6");
    // A second dispatch still reaches only the first handler.
    let reply = repl.dispatch(&Command::FeedMeow, &ctx).unwrap();
    assert_eq!(reply.text, "Meow~~~\n猫咪投喂计数器：7\n呼呼喵喵zzz");
    assert_eq!(reply.file_write.unwrap().path, "first.txt");
}

#[test]
fn meow_handler_counts_and_mirrors_both_variants() {
    let mut repl = CommandRepl::new();
    repl.register(Handler::Meow(MeowCommandHandler::new(
        String::from("meow.txt"),
        Some("41"),
    )));
    let ctx = no_user_context();
    let reply = repl.dispatch(&Command::FeedMeow, &ctx).unwrap();
    assert_eq!(reply.text, "Meow~~~\n猫咪投喂计数器：42\n呼呼喵喵zzz");
    assert_eq!(reply.file_write.unwrap().contents, "42");
    let reply = repl.dispatch(&Command::FeedMeowWd40, &ctx).unwrap();
    assert_eq!(reply.text, "Meow~~~\n猫咪投喂计数器：43\n精神喵喵！！！");
    assert_eq!(reply.file_write.unwrap().contents, "43");
}

#[test]
fn twd2_handler_counts_and_mirrors() {
    let mut repl = CommandRepl::new();
    repl.register(Handler::Twd2(Twd2CommandHandler::new(
        String::from("twd2.txt"),
        None,
    )));
    let ctx = no_user_context();
    let reply = repl.dispatch(&Command::FeedTwd2, &ctx).unwrap();
    assert_eq!(reply.text, "二老师投喂计数器：1\n向二老师投喂酥酥万呆粒一枚~");
    let write = reply.file_write.unwrap();
    assert_eq!(write.path, "twd2.txt");
    assert_eq!(write.contents, "1");
}

#[test]
fn counter_handlers_expose_their_value() {
    let meow = MeowCommandHandler::new(String::from("meow.txt"), Some("41"));
    assert_eq!(meow.counter_value(), 41);
    let twd2 = Twd2CommandHandler::new(String::from("twd2.txt"), Some("oops"));
    assert_eq!(twd2.counter_value(), 0);
}
