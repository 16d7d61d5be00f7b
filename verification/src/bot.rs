//! `thufood` telegram bot.

use vstd::prelude::*;

use crate::canteen::CanteenPicker;

verus! {

/// `thufood` telegram bot: the bot's credentials and the canteen picker it
/// serves selections with. The transport loop around the library drives it.
pub struct Bot {
    token: String,
    name: String,
    picker: CanteenPicker,
}

impl Bot {
    /// The Telegram bot API token.
    pub closed spec fn spec_token(&self) -> Seq<char> {
        self.token@
    }

    /// The bot's name.
    pub closed spec fn spec_name(&self) -> Seq<char> {
        self.name@
    }

    /// The canteen picker the bot serves selections with.
    pub closed spec fn spec_picker(&self) -> CanteenPicker {
        self.picker
    }

    /// Create a new `Bot` object from the given Telegram bot API token, bot
    /// name and canteen picker.
    pub fn new(token: String, name: String, picker: CanteenPicker) -> (r: Bot)
        ensures
            r.spec_token() == token@,
            r.spec_name() == name@,
            r.spec_picker() == picker,
    {
        Bot { token, name, picker }
    }

    /// The bot's API token, for the transport loop.
    pub fn token(&self) -> (r: &String)
        ensures
            r@ == self.spec_token(),
    {
        &self.token
    }

    /// The bot's name, for the transport loop.
    pub fn name(&self) -> (r: &String)
        ensures
            r@ == self.spec_name(),
    {
        &self.name
    }

    /// The bot's canteen picker.
    pub fn picker(&self) -> (r: &CanteenPicker)
        ensures
            *r == self.spec_picker(),
    {
        &self.picker
    }
}

} // verus!
