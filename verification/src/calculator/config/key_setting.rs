use vstd::prelude::*;

use super::general_setting::SettingInput;

verus! {

/// A keyboard key that can be bound.
#[derive(Clone, Copy, PartialEq, Eq, Structural, Debug, Hash)]
pub enum Key {
    Num0,
    Num1,
    Num2,
    Num3,
    Num4,
    Num5,
    Num6,
    Num7,
    Num8,
    Num9,
    A,
    B,
    C,
    D,
    E,
    F,
    G,
    H,
    I,
    J,
    K,
    L,
    M,
    N,
    O,
    P,
    Q,
    R,
    S,
    T,
    U,
    V,
    W,
    X,
    Y,
    Z,
    ArrowDown,
    ArrowLeft,
    ArrowRight,
    ArrowUp,
    Escape,
    Tab,
    Backspace,
    Enter,
    Space,
    Insert,
    Delete,
    Home,
    End,
    PageUp,
    PageDown,
}

/// The keys that can be bound, in the order they are offered.
pub open spec fn key_list_spec() -> Seq<Key> {
    seq![
        Key::Num0,
        Key::Num1,
        Key::Num2,
        Key::Num3,
        Key::Num4,
        Key::Num5,
        Key::Num6,
        Key::Num7,
        Key::Num8,
        Key::Num9,
        Key::A,
        Key::B,
        Key::C,
        Key::D,
        Key::E,
        Key::F,
        Key::G,
        Key::H,
        Key::I,
        Key::J,
        Key::K,
        Key::L,
        Key::M,
        Key::N,
        Key::O,
        Key::P,
        Key::Q,
        Key::R,
        Key::S,
        Key::T,
        Key::U,
        Key::V,
        Key::W,
        Key::X,
        Key::Y,
        Key::Z,
        Key::ArrowDown,
        Key::ArrowLeft,
        Key::ArrowRight,
        Key::ArrowUp,
        Key::Escape,
        Key::Tab,
        Key::Backspace,
        Key::Enter,
        Key::Space,
        Key::Insert,
        Key::Delete,
        Key::Home,
        Key::End,
        Key::PageUp,
        Key::PageDown,
    ]
}

/// The keys that can be bound, in the order they are offered.
pub fn key_list() -> (v: Vec<Key>)
    ensures
        v@ == key_list_spec(),
{
    let v = vec![
        Key::Num0,
        Key::Num1,
        Key::Num2,
        Key::Num3,
        Key::Num4,
        Key::Num5,
        Key::Num6,
        Key::Num7,
        Key::Num8,
        Key::Num9,
        Key::A,
        Key::B,
        Key::C,
        Key::D,
        Key::E,
        Key::F,
        Key::G,
        Key::H,
        Key::I,
        Key::J,
        Key::K,
        Key::L,
        Key::M,
        Key::N,
        Key::O,
        Key::P,
        Key::Q,
        Key::R,
        Key::S,
        Key::T,
        Key::U,
        Key::V,
        Key::W,
        Key::X,
        Key::Y,
        Key::Z,
        Key::ArrowDown,
        Key::ArrowLeft,
        Key::ArrowRight,
        Key::ArrowUp,
        Key::Escape,
        Key::Tab,
        Key::Backspace,
        Key::Enter,
        Key::Space,
        Key::Insert,
        Key::Delete,
        Key::Home,
        Key::End,
        Key::PageUp,
        Key::PageDown,
    ];
    assert(v@ =~= key_list_spec());
    v
}

/// The key bindings: one key per card rank (ace first), and the table
/// commands.
#[derive(Clone, Copy, Debug)]
pub struct Keys {
    pub card: [Key; 10],
    pub undo: Key,
    pub next: Key,
    pub reset: Key,
    pub split: Key,
    pub up: Key,
    pub down: Key,
    pub right: Key,
    pub left: Key,
}

/// The default bindings: the number row for the ranks (`1` for the ace, `0`
/// for the ten), `Z` to undo, Enter for the next round, `R` to reset, `S` to
/// split, the arrow keys to move.
pub open spec fn is_default_keys(k: Keys) -> bool {
    &&& k.card@ == seq![
        Key::Num1,
        Key::Num2,
        Key::Num3,
        Key::Num4,
        Key::Num5,
        Key::Num6,
        Key::Num7,
        Key::Num8,
        Key::Num9,
        Key::Num0,
    ]
    &&& k.undo == Key::Z
    &&& k.next == Key::Enter
    &&& k.reset == Key::R
    &&& k.split == Key::S
    &&& k.up == Key::ArrowUp
    &&& k.down == Key::ArrowDown
    &&& k.right == Key::ArrowRight
    &&& k.left == Key::ArrowLeft
}

impl Default for Keys {
    /// The default bindings (see `is_default_keys`).
    fn default() -> (k: Self)
        ensures
            is_default_keys(k),
    {
        let k = Keys {
            card: [
                Key::Num1,
                Key::Num2,
                Key::Num3,
                Key::Num4,
                Key::Num5,
                Key::Num6,
                Key::Num7,
                Key::Num8,
                Key::Num9,
                Key::Num0,
            ],
            undo: Key::Z,
            next: Key::Enter,
            reset: Key::R,
            split: Key::S,
            up: Key::ArrowUp,
            down: Key::ArrowDown,
            right: Key::ArrowRight,
            left: Key::ArrowLeft,
        };
        assert(k.card@ =~= seq![
            Key::Num1,
            Key::Num2,
            Key::Num3,
            Key::Num4,
            Key::Num5,
            Key::Num6,
            Key::Num7,
            Key::Num8,
            Key::Num9,
            Key::Num0,
        ]);
        k
    }
}

/// The window that edits the key bindings.
pub struct KeySettingWindow {
    keys: Keys,
    is_activated: bool,
}

impl KeySettingWindow {
    /// A window editing a copy of `keys`; in the trial version the changes
    /// are not kept.
    pub fn new(keys: &Keys, is_activated: bool) -> (w: Self)
        ensures
            w.keys() == *keys,
            w.is_activated() == is_activated,
    {
        KeySettingWindow { keys: *keys, is_activated }
    }

    /// The bindings being edited.
    pub closed spec fn keys(&self) -> Keys {
        self.keys
    }

    /// Whether the full version is active.
    pub closed spec fn is_activated(&self) -> bool {
        self.is_activated
    }

    /// One frame of the window: the bindings as the controls now show them,
    /// and whether cancel or apply was pressed. Gives whether the window
    /// should close and, on apply, the bindings to put in force.
    pub fn show(&mut self, input: &SettingInput<Keys>) -> (r: (bool, Option<Keys>))
        ensures
            final(self).keys() == input.edited,
            final(self).is_activated() == old(self).is_activated(),
            r.0 == (input.cancel || input.apply),
            r.1 == if input.apply {
                Some(input.edited)
            } else {
                None
            },
    {
        let mut result = (false, None);
        self.keys = input.edited;
        if input.cancel {
            result.0 = true;
        }
        if input.apply {
            result.0 = true;
            result.1 = Some(self.keys);
        }
        result
    }

    /// The bindings being edited.
    pub fn edited_keys(&self) -> (k: Keys)
        ensures
            k == self.keys(),
    {
        self.keys
    }

    /// Whether the full version is active.
    pub fn activated(&self) -> (b: bool)
        ensures
            b == self.is_activated(),
    {
        self.is_activated
    }
}

} // verus!
