pub mod bot;
pub mod canteen;
pub mod commands;
pub mod config;
pub mod decimal;
pub mod services;
pub mod utils;
