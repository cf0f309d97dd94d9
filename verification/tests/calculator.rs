use blackjack::calculator::activator::{ActivationError, Activator};
use blackjack::calculator::history::{History, HISTORY_LIMIT};
use blackjack::calculator::buy_window::BuyWindow;
use blackjack::calculator::config::general_setting::{GeneralSetting, GeneralSettingWindow, Language, SettingInput};
use blackjack::calculator::config::key_setting::{key_list, Key, KeySettingWindow, Keys};
use blackjack::calculator::config::texts::{get_text, TextKey};
use blackjack::calculator::config::Config;
use blackjack::calculator::selected::{update_selected, Selected, SelectionInput, Stepper, StepperElements};
use blackjack::calculator::total_ev::{CalcState, EvCommand, EvController};

#[test]
fn lang_test() {
    let mut config = Config::default();
    config.general.language = Language::Japanese;
    let text = config.get_text(TextKey::BuyWindowName);
    println!("{text}");
}

#[test]
fn texts_follow_the_language() {
    let mut config = Config::default();
    assert_eq!(config.get_text(TextKey::BuyWindowName), "製品版について");
    config.general.language = Language::English;
    assert_eq!(config.get_text(TextKey::BuyWindowName), "About Full Version");
    assert_eq!(get_text(TextKey::GeneralSettingLanguage, Language::Japanese), "Language");
    assert_eq!(get_text(TextKey::KeySettingWindowButton, Language::English), "Key Config");
}

#[test]
fn it_works() {
    let result = 2 + 2;
    assert_eq!(result, 4);
}

#[test]
fn default_settings() {
    let g = GeneralSetting::default();
    assert_eq!(g, GeneralSetting { language: Language::Japanese, infinite: false, rotate_num: true });
    let k = Keys::default();
    assert_eq!(k.card[0], Key::Num1);
    assert_eq!(k.card[9], Key::Num0);
    assert_eq!(k.next, Key::Enter);
    assert_eq!(key_list().len(), 51);
    assert_eq!(Language::all(), vec![Language::English, Language::Japanese]);
    let w = KeySettingWindow::new(&k, false);
    assert!(!w.activated());
    assert_eq!(w.edited_keys().undo, Key::Z);
}

#[test]
fn general_window_opens_and_closes() {
    let config = Config::default();
    let mut w = GeneralSettingWindow::new(config.general);
    assert!(!w.is_opened());
    w.switch(&config);
    assert!(w.is_opened());
    w.switch(&config);
    assert!(!w.is_opened());
    let other = GeneralSetting { language: Language::English, ..config.general };
    let mut w2 = GeneralSettingWindow::new(other);
    w2.switch(&config);
    w2.switch(&config);
    assert!(w2.is_opened());
    w2.close();
    assert!(!w2.is_opened());
}

#[test]
fn selection_and_steps() {
    assert!(Selected::Player(2).is_player(2));
    assert!(!Selected::Player(2).is_player(1));
    assert!(!Selected::Dealer.is_player(0));

    let mut stepper = Stepper::default();
    assert_eq!(stepper.get(), Some(&StepperElements::DealToPlayerFromRight));
    assert_eq!(stepper.reset(3), Some(Selected::Player(2)));
    assert_eq!(stepper.get_entry(3, 1), Some(Selected::Dealer));
    assert_eq!(stepper.get_entry(3, 4), Some(Selected::Discard));
    assert_eq!(stepper.get_entry(3, 6), None);

    // Dealing to three players from the right, then to the dealer.
    let mut sel = Selected::Player(2);
    stepper.step(&mut sel, 3, false);
    assert_eq!(sel, Selected::Player(1));
    stepper.step(&mut sel, 3, false);
    stepper.step(&mut sel, 3, false);
    assert_eq!(sel, Selected::Dealer);
    stepper.step(&mut sel, 3, false);
    assert_eq!(sel, Selected::Player(2));
    stepper.step(&mut sel, 3, false);
    stepper.step(&mut sel, 3, false);
    stepper.step(&mut sel, 3, false);
    // Playing step: a dealt card does not move on.
    assert_eq!(stepper.get(), Some(&StepperElements::PlayerPlaysFromRight));
    stepper.step(&mut sel, 3, false);
    assert_eq!(sel, Selected::Player(2));
    stepper.step_force(&mut sel, 3, false);
    stepper.step_force(&mut sel, 3, false);
    stepper.step_force(&mut sel, 3, false);
    // Discards are skipped when not tracked.
    assert_eq!(stepper.get(), Some(&StepperElements::DealerPlays));
    assert_eq!(sel, Selected::Dealer);
    stepper.step_force(&mut sel, 3, false);
    assert_eq!(stepper.get(), None);

    let mut s2 = Stepper::default();
    let mut sel2 = Selected::Player(0);
    s2.reset(1);
    for _ in 0..4 {
        s2.step_force(&mut sel2, 1, true);
    }
    assert_eq!(s2.get(), Some(&StepperElements::DiscardIfExist));
    assert_eq!(sel2, Selected::Discard);
}

#[test]
fn selection_moves_with_the_keys() {
    let none = SelectionInput { right: false, left: false, up: false, down: false, dealer_held: false, discard_held: false };
    let mut base = Selected::Player(2);
    let mut cur = Selected::Dealer;
    update_selected(&mut base, &mut cur, 3, &SelectionInput { right: true, ..none });
    assert_eq!(base, Selected::Player(0));
    assert_eq!(cur, Selected::Player(0));
    update_selected(&mut base, &mut cur, 3, &SelectionInput { left: true, ..none });
    assert_eq!(base, Selected::Player(2));
    update_selected(&mut base, &mut cur, 3, &SelectionInput { up: true, ..none });
    assert_eq!(base, Selected::Dealer);
    update_selected(&mut base, &mut cur, 3, &SelectionInput { right: true, ..none });
    assert_eq!(base, Selected::Discard);
    update_selected(&mut base, &mut cur, 3, &SelectionInput { down: true, dealer_held: true, ..none });
    assert_eq!(base, Selected::Player(0));
    assert_eq!(cur, Selected::Dealer);
    update_selected(&mut base, &mut cur, 3, &SelectionInput { discard_held: true, ..none });
    assert_eq!(cur, Selected::Discard);
}

#[test]
fn activation_state() {
    let mut a = Activator::new(Some("code".to_string()), true);
    assert!(a.is_activated() && a.activated);
    assert!(!a.check_activated(false));
    assert!(a.check_activated(true));
    a.unactivate();
    assert!(!a.check_activated(true));
    assert!(!Activator::new(None, true).activated);

    let mut w = BuyWindow::new("pc".to_string());
    assert!(!w.opened);
    assert_eq!(w.activation_code(), "");
    w.set_activation_code("abc".to_string());
    assert_eq!(w.activation_code(), "abc");
    w.record_activation(Ok(()));
    w.record_activation(Err("bad".to_string()));
}

#[test]
fn setting_windows_report_cancel_and_apply() {
    let config = Config::default();
    let mut w = GeneralSettingWindow::new(config.general);
    let english = GeneralSetting { language: Language::English, ..config.general };
    let (close, new) = w.show(&SettingInput { edited: english, cancel: false, apply: true });
    assert!(!close && new.is_none());
    w.switch(&config);
    let (close, new) = w.show(&SettingInput { edited: english, cancel: false, apply: false });
    assert!(!close && new.is_none());
    assert_eq!(w.general(), english);
    let (close, new) = w.show(&SettingInput { edited: english, cancel: false, apply: true });
    assert!(close);
    assert_eq!(new, Some(english));
    let (close, new) = w.show(&SettingInput { edited: english, cancel: true, apply: false });
    assert!(close && new.is_none());

    let mut k = KeySettingWindow::new(&Keys::default(), true);
    let mut edited = Keys::default();
    edited.undo = Key::U;
    let (close, new) = k.show(&SettingInput { edited, cancel: false, apply: true });
    assert!(close);
    assert_eq!(new.unwrap().undo, Key::U);
    assert_eq!(k.edited_keys().undo, Key::U);
}

#[test]
fn selection_follows_added_and_removed_hands() {
    let mut s = Selected::Player(2);
    s.after_remove_back(2);
    assert_eq!(s, Selected::Player(1));
    let mut z = Selected::Player(0);
    z.after_remove_back(0);
    assert_eq!(z, Selected::Player(0));
    let mut f = Selected::Player(1);
    f.after_remove_front();
    assert_eq!(f, Selected::Player(0));
    f.after_remove_front();
    assert_eq!(f, Selected::Player(0));
    let mut b = Selected::Player(1);
    b.before_add_back(2);
    assert_eq!(b, Selected::Player(2));
    let mut c = Selected::Player(0);
    c.before_add_back(2);
    assert_eq!(c, Selected::Player(0));
    let mut a = Selected::Player(0);
    a.after_add_front(2);
    assert_eq!(a, Selected::Player(1));
    let mut d = Selected::Dealer;
    d.after_add_front(2);
    assert_eq!(d, Selected::Dealer);
}

#[test]
fn expected_value_controller() {
    let mut c = EvController::new();
    assert_eq!(c.on_frame(true, false, false), EvCommand::Nothing);
    assert_eq!(c.press_once(), EvCommand::Spawn);
    assert_eq!(c.state, CalcState::Once);
    c.on_result();
    assert_eq!(c.state, CalcState::Idle);
    assert!(!c.running);
    assert_eq!(c.press_endless(true), EvCommand::Nothing);
    assert_eq!(c.state, CalcState::Endless);
    assert_eq!(c.on_frame(false, false, false), EvCommand::Nothing);
    assert_eq!(c.on_frame(true, false, true), EvCommand::Nothing);
    assert_eq!(c.on_frame(false, true, false), EvCommand::Spawn);
    assert_eq!(c.on_frame(false, true, false), EvCommand::Nothing);
    assert_eq!(c.press_endless(true), EvCommand::Stop);
    assert_eq!(c.state, CalcState::Idle);
    assert_eq!(c.press_endless(false), EvCommand::Spawn);
    assert_eq!(c.reset(), EvCommand::Stop);
    assert_eq!(c.state, CalcState::Endless);
    assert!(!c.running);
}

#[test]
fn undo_history_is_capped() {
    let mut h: History<u32> = History::new();
    assert_eq!(h.undo(), None);
    for k in 0..150u32 {
        h.record(k);
    }
    assert_eq!(h.len(), HISTORY_LIMIT);
    assert_eq!(h.undo(), Some(149));
    assert_eq!(h.len(), HISTORY_LIMIT - 1);
    h.record(7);
    assert_eq!(h.undo(), Some(7));
}

#[test]
fn activation_attempts() {
    let mut a = Activator::new(None, false);
    assert_eq!(a.activate("bad".to_string(), false), Err(ActivationError::InvalidCode));
    assert!(!a.activated);
    assert_eq!(a.activate("good".to_string(), true), Ok(()));
    assert!(a.activated);
}

#[test]
fn selection_without_players() {
    let none = SelectionInput { right: false, left: false, up: false, down: false, dealer_held: false, discard_held: false };
    let mut base = Selected::Dealer;
    let mut cur = Selected::Dealer;
    // With no players the dealer and the discards still swap.
    update_selected(&mut base, &mut cur, 0, &SelectionInput { right: true, ..none });
    assert_eq!(base, Selected::Discard);
    let mut stepper = Stepper::default();
    assert_eq!(stepper.get_entry(0, 1), Some(Selected::Dealer));
    // One player: dealt, then the dealer, then the player again.
    let mut sel = stepper.reset(1).unwrap();
    assert_eq!(sel, Selected::Player(0));
    stepper.step_force(&mut sel, 1, false);
    assert_eq!(sel, Selected::Dealer);
    stepper.step_force(&mut sel, 1, false);
    assert_eq!(sel, Selected::Player(0));
}
