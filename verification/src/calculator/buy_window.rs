use vstd::prelude::*;

verus! {

/// The text shown after a successful activation.
pub open spec fn activation_success_text() -> Seq<char> {
    "Activation success"@
}

/// The window about the full version and its activation.
pub struct BuyWindow {
    pub opened: bool,
    pcid: String,
    activation_code: String,
    activation_text: Option<String>,
}

/// The user ID shown, the code typed so far and the last activation message.
pub struct BuyWindowView {
    pub opened: bool,
    pub pcid: Seq<char>,
    pub activation_code: Seq<char>,
    pub activation_text: Option<Seq<char>>,
}

impl View for BuyWindow {
    type V = BuyWindowView;

    closed spec fn view(&self) -> BuyWindowView {
        BuyWindowView {
            opened: self.opened,
            pcid: self.pcid@,
            activation_code: self.activation_code@,
            activation_text: match &self.activation_text {
                Some(t) => Some(t@),
                None => None,
            },
        }
    }
}

impl BuyWindow {
    /// A closed window showing the user ID `pcid`, with no code typed.
    pub fn new(pcid: String) -> (w: Self)
        ensures
            w@ == (BuyWindowView {
                opened: false,
                pcid: pcid@,
                activation_code: Seq::<char>::empty(),
                activation_text: None,
            }),
    {
        BuyWindow { opened: false, pcid, activation_code: String::new(), activation_text: None }
    }

    /// Shows the outcome of an activation attempt: a success message, or the
    /// error.
    pub fn record_activation(&mut self, result: Result<(), String>)
        ensures
            final(self)@.opened == old(self)@.opened,
            final(self)@.pcid == old(self)@.pcid,
            final(self)@.activation_code == old(self)@.activation_code,
            final(self)@.activation_text == Some(
                match result {
                    Ok(_) => activation_success_text(),
                    Err(e) => e@,
                },
            ),
    {
        match result {
            Ok(_) => { self.activation_text = Some("Activation success".to_owned()) },
            Err(e) => { self.activation_text = Some(e); },
        }
    }

    /// The code typed so far.
    pub fn activation_code(&self) -> (s: &String)
        ensures
            s@ == self@.activation_code,
    {
        &self.activation_code
    }

    /// Replaces the code typed so far.
    pub fn set_activation_code(&mut self, code: String)
        ensures
            final(self)@ == (BuyWindowView { activation_code: code@, ..old(self)@ }),
    {
        self.activation_code = code;
    }
}

} // verus!
