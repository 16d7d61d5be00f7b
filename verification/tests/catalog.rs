use thufood::bot::Bot;
use thufood::canteen::{Canteen, CanteenPicker};
use thufood::commands::all_command_descriptors;

#[test]
fn command_catalog_lists_all_menu_commands() {
    let descriptors = all_command_descriptors();
    let commands: Vec<&str> = descriptors.iter().map(|d| d.command.as_str()).collect();
    assert_eq!(
        commands,
        vec!["start", "help", "canteen", "milktea", "cappuccino", "producedrink"]
    );
    assert_eq!(descriptors[0].description, "开始交互并显示帮助信息");
    assert_eq!(descriptors[2].description, "随机选择一个餐厅");
    assert_eq!(descriptors[5].description, "线上生产饮品");
}

#[test]
fn bot_holds_its_token_name_and_picker() {
    let picker = CanteenPicker::new(vec![Canteen {
        name: String::from("紫荆园"),
        weight: 1,
    }]);
    let bot = Bot::new(String::from("SECRET-REDACTED"), String::from("thufood_bot"), picker);
    assert_eq!(bot.token(), "SECRET-REDACTED");
    assert_eq!(bot.name(), "thufood_bot");
    assert_eq!(bot.picker().pick().name, "紫荆园");
}
