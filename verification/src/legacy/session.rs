//! The three session kinds of the deadline timer.

use vstd::prelude::*;

verus! {

/// The kinds of session that make up a pomodoro round.
#[derive(Debug, Clone, Copy, PartialEq, Eq, Structural)]
pub enum SessionKind {
    Focus,
    ShortBreak,
    LongBreak,
}

impl SessionKind {
    pub fn is_focus(self) -> (r: bool)
        ensures
            r == (self == SessionKind::Focus),
    {
        match self {
            SessionKind::Focus => true,
            _ => false,
        }
    }

    /// The lower-case name shown to users.
    pub fn label(self) -> (r: &'static str)
        ensures
            r@ == spec_label(self)@,
    {
        match self {
            SessionKind::Focus => "focus",
            SessionKind::ShortBreak => "short break",
            SessionKind::LongBreak => "long break",
        }
    }

    /// The domain session kind with the same name.
    pub open spec fn to_domain(self) -> crate::model::SessionKind {
        match self {
            SessionKind::Focus => crate::model::SessionKind::Focus,
            SessionKind::ShortBreak => crate::model::SessionKind::ShortBreak,
            SessionKind::LongBreak => crate::model::SessionKind::LongBreak,
        }
    }
}

pub open spec fn spec_label(kind: SessionKind) -> &'static str {
    match kind {
        SessionKind::Focus => "focus",
        SessionKind::ShortBreak => "short break",
        SessionKind::LongBreak => "long break",
    }
}

impl From<SessionKind> for crate::model::SessionKind {
    fn from(kind: SessionKind) -> (r: Self)
        ensures
            r == kind.to_domain(),
    {
        match kind {
            SessionKind::Focus => crate::model::SessionKind::Focus,
            SessionKind::ShortBreak => crate::model::SessionKind::ShortBreak,
            SessionKind::LongBreak => crate::model::SessionKind::LongBreak,
        }
    }
}

impl vstd::std_specs::convert::FromSpecImpl<SessionKind> for crate::model::SessionKind {
    open spec fn obeys_from_spec() -> bool {
        true
    }

    open spec fn from_spec(v: SessionKind) -> crate::model::SessionKind {
        v.to_domain()
    }
}

} // verus!
