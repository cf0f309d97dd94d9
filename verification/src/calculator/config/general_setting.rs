use vstd::prelude::*;

use super::Config;

verus! {

/// The interface language.
#[derive(Clone, Copy, PartialEq, Eq, Structural, Debug, Hash)]
pub enum Language {
    English,
    Japanese,
}

impl Language {
    /// Every language, in order.
    pub fn all() -> (v: Vec<Language>)
        ensures
            v@ == seq![Language::English, Language::Japanese],
    {
        let mut v = Vec::new();
        v.push(Language::English);
        v.push(Language::Japanese);
        v
    }
}

/// The general settings.
#[derive(Clone, Copy, PartialEq, Eq, Structural, Debug, Hash)]
pub struct GeneralSetting {
    pub language: Language,
    pub infinite: bool,
    pub rotate_num: bool,
}

impl Default for GeneralSetting {
    /// Japanese, discards not tracked, numbers rotated.
    fn default() -> (g: Self)
        ensures
            g == (GeneralSetting { language: Language::Japanese, infinite: false, rotate_num: true }),
    {
        GeneralSetting { language: Language::Japanese, infinite: false, rotate_num: true }
    }
}

/// What a settings window's controls report in one frame: the values they
/// now show, and whether cancel or apply was pressed.
pub struct SettingInput<T> {
    pub edited: T,
    pub cancel: bool,
    pub apply: bool,
}

/// The window that edits the general settings.
pub struct GeneralSettingWindow {
    general: GeneralSetting,
    opened: bool,
}

/// The settings being edited, and whether the window is open.
pub struct GeneralSettingWindowView {
    pub general: GeneralSetting,
    pub opened: bool,
}

impl View for GeneralSettingWindow {
    type V = GeneralSettingWindowView;

    closed spec fn view(&self) -> GeneralSettingWindowView {
        GeneralSettingWindowView { general: self.general, opened: self.opened }
    }
}

impl GeneralSettingWindow {
    /// A closed window editing `general`.
    pub fn new(general: GeneralSetting) -> (w: GeneralSettingWindow)
        ensures
            w@ == (GeneralSettingWindowView { general, opened: false }),
    {
        GeneralSettingWindow { opened: false, general: general }
    }

    /// Opens a closed window; asks an open one to close.
    pub fn switch(&mut self, config: &Config)
        ensures
            final(self)@.general == old(self)@.general,
            final(self)@.opened == (!old(self)@.opened || config.general != old(self)@.general),
    {
        if self.opened {
            self.try_close(config);
        } else {
            self.opened = true;
        }
    }

    /// Closes the window when the settings being edited are those in force.
    pub fn try_close(&mut self, config: &Config)
        ensures
            final(self)@.general == old(self)@.general,
            final(self)@.opened == (old(self)@.opened && config.general != old(self)@.general),
    {
        if config.general == self.general {
            self.close();
        }
    }

    pub fn close(&mut self)
        ensures
            final(self)@ == (GeneralSettingWindowView { opened: false, ..old(self)@ }),
    {
        self.opened = false;
    }

    /// One frame of the open window: the settings as the controls now show
    /// them, and whether cancel or apply was pressed. Gives whether the window
    /// should close and, on apply, the settings to put in force. A closed
    /// window takes no edits.
    pub fn show(&mut self, input: &SettingInput<GeneralSetting>) -> (r: (bool, Option<GeneralSetting>))
        ensures
            !old(self)@.opened ==> final(self)@ == old(self)@ && r == (false, None::<GeneralSetting>),
            old(self)@.opened ==> final(self)@ == (GeneralSettingWindowView {
                general: input.edited,
                opened: true,
            }) && r == (input.cancel || input.apply, if input.apply {
                Some(input.edited)
            } else {
                None
            }),
    {
        let mut result = (false, None);
        if !self.opened {
            return result;
        }
        self.general = input.edited;
        if input.cancel {
            result.0 = true;
        }
        if input.apply {
            result.0 = true;
            result.1 = Some(self.general);
        }
        result
    }

    /// The settings being edited.
    pub fn general(&self) -> (g: GeneralSetting)
        ensures
            g == self@.general,
    {
        self.general
    }

    /// Whether the window is open.
    pub fn is_opened(&self) -> (b: bool)
        ensures
            b == self@.opened,
    {
        self.opened
    }
}

} // verus!
