use vstd::prelude::*;

use super::general_setting::Language;

verus! {

/// The texts the interface shows, one key per place.
#[derive(Clone, Copy, PartialEq, Eq, Structural, Debug, Hash)]
pub enum TextKey {
    BuyWindowButton,
    BuyWindowName,
    BuyWindowH1,
    BuyWindowT1,
    BuyWindowH2,
    BuyWindowT2,
    PurchaseLink,
    BuyWindowUserID,
    BuyWindowActivationFormDescription,
    RuleSettingWindowButton,
    RuleSettingWindowName,
    TrialVersionKeySettingMessage,
    KeySettingWindowButton,
    KeySettingWindowName,
    TrialVersionRuleSettingMessage,
    GeneralSettingWindowName,
    GeneralSettingButton,
    GeneralSettingLanguage,
}

/// The text for `key` in `language`.
pub open spec fn text_spec(key: TextKey, language: Language) -> Seq<char> {
    match language {
        Language::English => match key {
            TextKey::BuyWindowButton => "Unlock Full Version"@,
            TextKey::BuyWindowName => "About Full Version"@,
            TextKey::BuyWindowH1 => "Difference between Trial Version and Full Version"@,
            TextKey::BuyWindowT1 => "In the Trial Version, table rules cannot be changed.\nIn the Full Version, you can change the table rules and calculate the optimal play and expected value based on the table rules."@,
            TextKey::BuyWindowH2 => "How to unlock Full Version"@,
            TextKey::BuyWindowT2 => "Please refer to that link"@,
            TextKey::PurchaseLink => "https://www.youtube.com/"@,
            TextKey::BuyWindowUserID => "user ID:"@,
            TextKey::BuyWindowActivationFormDescription => "Input activation code here."@,
            TextKey::RuleSettingWindowButton => "Rules Setting"@,
            TextKey::RuleSettingWindowName => "Rules Setting"@,
            TextKey::TrialVersionKeySettingMessage => "In the Trial Version,\nKey settings won't be saved."@,
            TextKey::KeySettingWindowButton => "Key Config"@,
            TextKey::KeySettingWindowName => "Key Config"@,
            TextKey::TrialVersionRuleSettingMessage => "In the Trial Version,\nyou cannot change table rules."@,
            TextKey::GeneralSettingWindowName => "General"@,
            TextKey::GeneralSettingButton => "General"@,
            TextKey::GeneralSettingLanguage => "Language"@,
        },
        Language::Japanese => match key {
            TextKey::BuyWindowButton => "製品版購入"@,
            TextKey::BuyWindowName => "製品版について"@,
            TextKey::BuyWindowH1 => "試用版と製品版の違い"@,
            TextKey::BuyWindowT1 => "試用版では、テーブルルールの変更が出来ません。\n製品版では、テーブルルールを変更し、テーブルルールに対応した最適手と期待値を計算することができます。"@,
            TextKey::BuyWindowH2 => "ご購入方法"@,
            TextKey::BuyWindowT2 => "こちらのwebサイトからご購入ください。"@,
            TextKey::PurchaseLink => "https://www.youtube.com/"@,
            TextKey::BuyWindowUserID => "ユーザーID:"@,
            TextKey::BuyWindowActivationFormDescription => "アクティベーションコードを入力してください。"@,
            TextKey::RuleSettingWindowButton => "ルール設定"@,
            TextKey::RuleSettingWindowName => "ルール設定"@,
            TextKey::TrialVersionKeySettingMessage => "試用版ではキー設定を変更しても\n再起動時にリセットされます！"@,
            TextKey::KeySettingWindowButton => "キー設定"@,
            TextKey::KeySettingWindowName => "キー設定"@,
            TextKey::TrialVersionRuleSettingMessage => "試用版ではルール設定の\n変更ができません！"@,
            TextKey::GeneralSettingWindowName => "設定"@,
            TextKey::GeneralSettingButton => "設定"@,
            TextKey::GeneralSettingLanguage => "Language"@,
        },
    }
}

/// The text for `key` in `language`.
pub fn get_text(key: TextKey, language: Language) -> (s: &'static str)
    ensures
        s@ == text_spec(key, language),
{
    match language {
        Language::English => match key {
            TextKey::BuyWindowButton => "Unlock Full Version",
            TextKey::BuyWindowName => "About Full Version",
            TextKey::BuyWindowH1 => "Difference between Trial Version and Full Version",
            TextKey::BuyWindowT1 => "In the Trial Version, table rules cannot be changed.\nIn the Full Version, you can change the table rules and calculate the optimal play and expected value based on the table rules.",
            TextKey::BuyWindowH2 => "How to unlock Full Version",
            TextKey::BuyWindowT2 => "Please refer to that link",
            TextKey::PurchaseLink => "https://www.youtube.com/",
            TextKey::BuyWindowUserID => "user ID:",
            TextKey::BuyWindowActivationFormDescription => "Input activation code here.",
            TextKey::RuleSettingWindowButton => "Rules Setting",
            TextKey::RuleSettingWindowName => "Rules Setting",
            TextKey::TrialVersionKeySettingMessage => "In the Trial Version,\nKey settings won't be saved.",
            TextKey::KeySettingWindowButton => "Key Config",
            TextKey::KeySettingWindowName => "Key Config",
            TextKey::TrialVersionRuleSettingMessage => "In the Trial Version,\nyou cannot change table rules.",
            TextKey::GeneralSettingWindowName => "General",
            TextKey::GeneralSettingButton => "General",
            TextKey::GeneralSettingLanguage => "Language",
        },
        Language::Japanese => match key {
            TextKey::BuyWindowButton => "製品版購入",
            TextKey::BuyWindowName => "製品版について",
            TextKey::BuyWindowH1 => "試用版と製品版の違い",
            TextKey::BuyWindowT1 => "試用版では、テーブルルールの変更が出来ません。\n製品版では、テーブルルールを変更し、テーブルルールに対応した最適手と期待値を計算することができます。",
            TextKey::BuyWindowH2 => "ご購入方法",
            TextKey::BuyWindowT2 => "こちらのwebサイトからご購入ください。",
            TextKey::PurchaseLink => "https://www.youtube.com/",
            TextKey::BuyWindowUserID => "ユーザーID:",
            TextKey::BuyWindowActivationFormDescription => "アクティベーションコードを入力してください。",
            TextKey::RuleSettingWindowButton => "ルール設定",
            TextKey::RuleSettingWindowName => "ルール設定",
            TextKey::TrialVersionKeySettingMessage => "試用版ではキー設定を変更しても\n再起動時にリセットされます！",
            TextKey::KeySettingWindowButton => "キー設定",
            TextKey::KeySettingWindowName => "キー設定",
            TextKey::TrialVersionRuleSettingMessage => "試用版ではルール設定の\n変更ができません！",
            TextKey::GeneralSettingWindowName => "設定",
            TextKey::GeneralSettingButton => "設定",
            TextKey::GeneralSettingLanguage => "Language",
        },
    }
}

} // verus!
