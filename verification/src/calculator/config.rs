pub mod general_setting;
pub mod key_setting;
pub mod texts;

use vstd::prelude::*;

use general_setting::{GeneralSetting, Language};
use key_setting::{Keys, is_default_keys};
use texts::{TextKey, text_spec};

pub use texts::get_text;

verus! {

/// The settings of the calculator: key bindings and general settings.
#[derive(Clone, Copy, Debug)]
pub struct Config {
    pub kyes: Keys,
    pub general: GeneralSetting,
}

impl Default for Config {
    /// The default bindings and general settings.
    fn default() -> (c: Self)
        ensures
            c.general == (GeneralSetting {
                language: Language::Japanese,
                infinite: false,
                rotate_num: true,
            }),
            is_default_keys(c.kyes),
    {
        Config { kyes: Keys::default(), general: GeneralSetting::default() }
    }
}

impl Config {
    /// The text for `key` in the configured language.
    pub fn get_text(&self, key: TextKey) -> (s: &'static str)
        ensures
            s@ == text_spec(key, self.general.language),
    {
        texts::get_text(key, self.general.language)
    }
}

} // verus!
