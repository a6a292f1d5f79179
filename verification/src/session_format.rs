//! The forms in which a session is exchanged.
use vstd::prelude::*;
use crate::control::HttpControlError;
use crate::text::same_text;

verus! {

/// The form of a session document.
#[derive(Clone, Copy, Debug, PartialEq, Eq, Structural)]
pub enum SessionFormat {
    Json,
    Aria2,
}

impl Default for SessionFormat {
    fn default() -> (r: Self)
        ensures
            r == SessionFormat::Json,
    {
        SessionFormat::Json
    }
}

/// An error of a session document.
pub fn invalid(message: &'static str) -> (r: HttpControlError)
    ensures
        r == HttpControlError::InvalidParams(message),
{
    HttpControlError::InvalidParams(message)
}

impl SessionFormat {
    /// The form of a name.
    pub open spec fn named(name: Seq<char>) -> Option<SessionFormat> {
        if name == "json"@ {
            Some(SessionFormat::Json)
        } else if name == "aria2"@ {
            Some(SessionFormat::Aria2)
        } else {
            None
        }
    }

    /// The name of a form.
    pub open spec fn name(self) -> Seq<char> {
        match self {
            SessionFormat::Json => "json"@,
            SessionFormat::Aria2 => "aria2"@,
        }
    }

    pub fn as_str(self) -> (r: &'static str)
        ensures
            r@ == self.name(),
    {
        match self {
            SessionFormat::Json => "json",
            SessionFormat::Aria2 => "aria2",
        }
    }

    pub fn parse(value: &str) -> (r: Result<Self, HttpControlError>)
        ensures
            r == (match Self::named(value@) {
                Some(format) => Ok::<Self, HttpControlError>(format),
                None => Err::<Self, HttpControlError>(
                    HttpControlError::InvalidParams("session format must be json or aria2"),
                ),
            }),
    {
        if same_text(value, "json") {
            Ok(SessionFormat::Json)
        } else if same_text(value, "aria2") {
            Ok(SessionFormat::Aria2)
        } else {
            Err(invalid("session format must be json or aria2"))
        }
    }
}

/// Every form is read back from its name.
pub proof fn law_format_names_round_trip(format: SessionFormat)
    ensures
        SessionFormat::named(format.name()) == Some(format),
{
    reveal_strlit("json");
    reveal_strlit("aria2");
    assert("json"@[0] == 'j');
    assert("aria2"@[0] == 'a');
}

} // verus!
