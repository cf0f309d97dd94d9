use vstd::prelude::*;

verus! {

/// Why an activation attempt failed: the code was refused, or (reported by
/// the caller that stores an accepted code) its file could not be created or
/// written.
#[derive(Clone, Copy, PartialEq, Eq, Structural, Debug)]
pub enum ActivationError {
    InvalidCode,
    FailedCreateFile,
    FailedSaveCode,
}

/// The activation state of the full version: the stored activation code, if
/// any, and whether it was found valid.
pub struct Activator {
    code: Option<String>,
    pub activated: bool,
}

/// The stored code and the activation flag.
pub struct ActivatorView {
    pub code: Option<Seq<char>>,
    pub activated: bool,
}

/// The view of an optional string.
pub open spec fn opt_view(s: Option<String>) -> Option<Seq<char>> {
    match s {
        Some(x) => Some(x@),
        None => None,
    }
}

impl View for Activator {
    type V = ActivatorView;

    closed spec fn view(&self) -> ActivatorView {
        ActivatorView { code: opt_view(self.code), activated: self.activated }
    }
}

impl Activator {
    /// The activation state for a stored code; `code_is_valid` is the
    /// verdict of the code validation on it.
    pub fn new(code: Option<String>, code_is_valid: bool) -> (a: Activator)
        ensures
            a@.code == opt_view(code),
            a@.activated == (code is Some && code_is_valid),
    {
        let mut a = Activator { code, activated: false };
        a.check_activated(code_is_valid);
        a
    }

    /// Records the verdict on the stored code: the full version is active when a
    /// code is stored and the verdict accepts it.
    pub fn check_activated(&mut self, code_is_valid: bool) -> (b: bool)
        ensures
            final(self)@.code == old(self)@.code,
            b == (old(self)@.code is Some && code_is_valid),
            final(self)@.activated == b,
    {
        let temp = self.code.is_some() && code_is_valid;
        self.activated = temp;
        temp
    }

    /// Takes a typed activation code; `code_is_valid` is the verdict of the
    /// code validation on it. The code is stored and activation follows the
    /// verdict; a refused code is reported. (Storing an accepted code in its
    /// file is the caller's part.)
    pub fn activate(&mut self, code: String, code_is_valid: bool) -> (r: Result<(), ActivationError>)
        ensures
            final(self)@ == (ActivatorView { code: Some(code@), activated: code_is_valid }),
            r == if code_is_valid {
                Ok::<(), ActivationError>(())
            } else {
                Err(ActivationError::InvalidCode)
            },
    {
        self.code = Some(code);
        self.check_activated(code_is_valid);
        if !self.activated {
            return Err(ActivationError::InvalidCode);
        }
        Ok(())
    }

    /// Forgets the code and deactivates.
    pub fn unactivate(&mut self)
        ensures
            final(self)@ == (ActivatorView { code: None, activated: false }),
    {
        self.code = None;
        self.activated = false;
    }

    /// Whether the full version is active.
    pub fn is_activated(&self) -> (b: bool)
        ensures
            b == self@.activated,
    {
        self.activated
    }
}

} // verus!
