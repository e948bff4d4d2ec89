use vstd::prelude::*;

use crate::model::SessionKind;

verus! {

/// The longest configurable session, in seconds (one day).
pub const MAX_SESSION_SECONDS: u64 = 86_400;

/// Quick Start always lasts two minutes, independent of the settings.
pub const QUICK_START_SECONDS: u64 = 120;

/// Session lengths and the number of focus sessions before a long break.
#[derive(Debug, Clone, Copy, PartialEq, Eq, Structural)]
pub struct TimerConfig {
    focus_seconds: u64,
    short_break_seconds: u64,
    long_break_seconds: u64,
    focuses_before_long_break: u32,
}

/// Why a configuration is unusable; `field` names the offending setting.
#[derive(Debug, Clone, PartialEq, Eq)]
pub enum ConfigError {
    ZeroDuration { field: &'static str },
    DurationTooLong { field: &'static str, maximum_seconds: u64 },
    ZeroFocusesBeforeLongBreak,
}

/// The verdict on one duration field.
pub open spec fn duration_check(field: &'static str, seconds: u64) -> Result<(), ConfigError> {
    if seconds == 0 {
        Err(ConfigError::ZeroDuration { field })
    } else if seconds > MAX_SESSION_SECONDS {
        Err(ConfigError::DurationTooLong { field, maximum_seconds: MAX_SESSION_SECONDS })
    } else {
        Ok(())
    }
}

impl TimerConfig {
    pub closed spec fn spec_focus_seconds(self) -> u64 {
        self.focus_seconds
    }

    pub closed spec fn spec_short_break_seconds(self) -> u64 {
        self.short_break_seconds
    }

    pub closed spec fn spec_long_break_seconds(self) -> u64 {
        self.long_break_seconds
    }

    pub closed spec fn spec_focuses_before_long_break(self) -> u32 {
        self.focuses_before_long_break
    }

    /// The configuration with exactly these four values.
    pub closed spec fn with_values(focus: u64, short_break: u64, long_break: u64, focuses: u32) -> Self {
        TimerConfig {
            focus_seconds: focus,
            short_break_seconds: short_break,
            long_break_seconds: long_break,
            focuses_before_long_break: focuses,
        }
    }

    /// A configuration is determined by its four values.
    pub broadcast proof fn lemma_values_determine_config(self)
        ensures
            #[trigger] Self::with_values(
                self.spec_focus_seconds(),
                self.spec_short_break_seconds(),
                self.spec_long_break_seconds(),
                self.spec_focuses_before_long_break(),
            ) == self,
    {
    }

    /// The accessors read back what `with_values` stores.
    pub broadcast proof fn lemma_with_values_accessors(focus: u64, short_break: u64, long_break: u64, focuses: u32)
        ensures
            #![trigger Self::with_values(focus, short_break, long_break, focuses)]
            Self::with_values(focus, short_break, long_break, focuses).spec_focus_seconds() == focus,
            Self::with_values(focus, short_break, long_break, focuses).spec_short_break_seconds() == short_break,
            Self::with_values(focus, short_break, long_break, focuses).spec_long_break_seconds() == long_break,
            Self::with_values(focus, short_break, long_break, focuses).spec_focuses_before_long_break() == focuses,
    {
    }

    /// What `validate` returns: the first failing check, in field order.
    pub open spec fn validation(self) -> Result<(), ConfigError> {
        if duration_check("focus_seconds", self.spec_focus_seconds()) is Err {
            duration_check("focus_seconds", self.spec_focus_seconds())
        } else if duration_check("short_break_seconds", self.spec_short_break_seconds()) is Err {
            duration_check("short_break_seconds", self.spec_short_break_seconds())
        } else if duration_check("long_break_seconds", self.spec_long_break_seconds()) is Err {
            duration_check("long_break_seconds", self.spec_long_break_seconds())
        } else if self.spec_focuses_before_long_break() == 0 {
            Err(ConfigError::ZeroFocusesBeforeLongBreak)
        } else {
            Ok(())
        }
    }

    /// Every duration lies in 1..=86400 seconds and a round has at least one focus.
    pub open spec fn is_valid(self) -> bool {
        &&& 1 <= self.spec_focus_seconds() <= MAX_SESSION_SECONDS
        &&& 1 <= self.spec_short_break_seconds() <= MAX_SESSION_SECONDS
        &&& 1 <= self.spec_long_break_seconds() <= MAX_SESSION_SECONDS
        &&& self.spec_focuses_before_long_break() >= 1
    }

    /// The configured length of a session kind; Quick Start is fixed.
    pub open spec fn spec_duration_seconds(self, session: SessionKind) -> u64 {
        match session {
            SessionKind::Focus => self.spec_focus_seconds(),
            SessionKind::QuickStart => QUICK_START_SECONDS,
            SessionKind::ShortBreak => self.spec_short_break_seconds(),
            SessionKind::LongBreak => self.spec_long_break_seconds(),
        }
    }

    /// A validation result of `Ok` means exactly that the configuration is valid.
    pub proof fn lemma_validation_ok_iff_valid(self)
        ensures
            self.validation() is Ok <==> self.is_valid(),
    {
    }

    /// A configuration is accepted exactly when the focus, short break and
    /// long break each last from one second to one day (86 400 seconds) and a
    /// round has at least one focus. A refused configuration names its first
    /// bad value in the order focus, short break, long break, focuses per
    /// round: a zero length as zero, a longer one as too long for one day.
    /// Each session kind lasts its configured length; a Quick Start always two
    /// minutes.
    pub proof fn lemma_config_accepted(self)
        ensures
            self.validation() is Ok <==> {
                &&& 1 <= self.spec_focus_seconds() <= 86_400
                &&& 1 <= self.spec_short_break_seconds() <= 86_400
                &&& 1 <= self.spec_long_break_seconds() <= 86_400
                &&& self.spec_focuses_before_long_break() >= 1
            },
            self.spec_focus_seconds() == 0 ==> self.validation() == Err::<(), ConfigError>(
                ConfigError::ZeroDuration { field: "focus_seconds" },
            ),
            self.spec_focus_seconds() > 86_400 ==> self.validation() == Err::<(), ConfigError>(
                ConfigError::DurationTooLong { field: "focus_seconds", maximum_seconds: 86_400 },
            ),
            1 <= self.spec_focus_seconds() <= 86_400 ==> {
                &&& self.spec_short_break_seconds() == 0 ==> self.validation() == Err::<
                    (),
                    ConfigError,
                >(ConfigError::ZeroDuration { field: "short_break_seconds" })
                &&& self.spec_short_break_seconds() > 86_400 ==> self.validation() == Err::<
                    (),
                    ConfigError,
                >(
                    ConfigError::DurationTooLong {
                        field: "short_break_seconds",
                        maximum_seconds: 86_400,
                    },
                )
                &&& 1 <= self.spec_short_break_seconds() <= 86_400 ==> {
                    &&& self.spec_long_break_seconds() == 0 ==> self.validation() == Err::<
                        (),
                        ConfigError,
                    >(ConfigError::ZeroDuration { field: "long_break_seconds" })
                    &&& self.spec_long_break_seconds() > 86_400 ==> self.validation() == Err::<
                        (),
                        ConfigError,
                    >(
                        ConfigError::DurationTooLong {
                            field: "long_break_seconds",
                            maximum_seconds: 86_400,
                        },
                    )
                    &&& (1 <= self.spec_long_break_seconds() <= 86_400
                        && self.spec_focuses_before_long_break() == 0) ==> self.validation()
                        == Err::<(), ConfigError>(ConfigError::ZeroFocusesBeforeLongBreak)
                }
            },
            self.spec_duration_seconds(SessionKind::Focus) == self.spec_focus_seconds(),
            self.spec_duration_seconds(SessionKind::ShortBreak) == self.spec_short_break_seconds(),
            self.spec_duration_seconds(SessionKind::LongBreak) == self.spec_long_break_seconds(),
            self.spec_duration_seconds(SessionKind::QuickStart) == 120,
    {
    }

    /// Creates a validated configuration.
    pub fn new(
        focus_seconds: u64,
        short_break_seconds: u64,
        long_break_seconds: u64,
        focuses_before_long_break: u32,
    ) -> (result: Result<Self, ConfigError>)
        ensures
            ({
                let config = Self::with_values(
                    focus_seconds,
                    short_break_seconds,
                    long_break_seconds,
                    focuses_before_long_break,
                );
                match result {
                    Ok(c) => c == config && config.validation() is Ok,
                    Err(e) => config.validation() == Err::<(), ConfigError>(e),
                }
            }),
    {
        let config = TimerConfig {
            focus_seconds,
            short_break_seconds,
            long_break_seconds,
            focuses_before_long_break,
        };
        match config.validate() {
            Ok(()) => Ok(config),
            Err(e) => Err(e),
        }
    }

    /// Holds stored values as they were read, without validation; `validate`
    /// decides later whether they are usable.
    pub fn from_stored_values(
        focus_seconds: u64,
        short_break_seconds: u64,
        long_break_seconds: u64,
        focuses_before_long_break: u32,
    ) -> (r: Self)
        ensures
            r == Self::with_values(
                focus_seconds,
                short_break_seconds,
                long_break_seconds,
                focuses_before_long_break,
            ),
    {
        TimerConfig { focus_seconds, short_break_seconds, long_break_seconds, focuses_before_long_break }
    }

    /// Checks that every value is usable, including for configurations that
    /// were built from stored data.
    pub fn validate(&self) -> (result: Result<(), ConfigError>)
        ensures
            result == self.validation(),
    {
        let r = validate_duration("focus_seconds", self.focus_seconds);
        if r.is_err() {
            return r;
        }
        let r = validate_duration("short_break_seconds", self.short_break_seconds);
        if r.is_err() {
            return r;
        }
        let r = validate_duration("long_break_seconds", self.long_break_seconds);
        if r.is_err() {
            return r;
        }
        if self.focuses_before_long_break == 0 {
            return Err(ConfigError::ZeroFocusesBeforeLongBreak);
        }
        Ok(())
    }

    pub fn focus_seconds(&self) -> (r: u64)
        ensures
            r == self.spec_focus_seconds(),
    {
        self.focus_seconds
    }

    pub fn short_break_seconds(&self) -> (r: u64)
        ensures
            r == self.spec_short_break_seconds(),
    {
        self.short_break_seconds
    }

    pub fn long_break_seconds(&self) -> (r: u64)
        ensures
            r == self.spec_long_break_seconds(),
    {
        self.long_break_seconds
    }

    pub fn focuses_before_long_break(&self) -> (r: u32)
        ensures
            r == self.spec_focuses_before_long_break(),
    {
        self.focuses_before_long_break
    }

    pub fn duration_seconds(&self, session: SessionKind) -> (r: u64)
        ensures
            r == self.spec_duration_seconds(session),
    {
        match session {
            SessionKind::Focus => self.focus_seconds,
            SessionKind::QuickStart => QUICK_START_SECONDS,
            SessionKind::ShortBreak => self.short_break_seconds,
            SessionKind::LongBreak => self.long_break_seconds,
        }
    }

    /// The session length in milliseconds; it must fit (a valid configuration always does).
    pub fn duration_millis(&self, session: SessionKind) -> (r: u64)
        requires
            self.spec_duration_seconds(session) * 1000 <= u64::MAX,
        ensures
            r == self.spec_duration_seconds(session) * 1000,
    {
        self.duration_seconds(session) * 1000
    }
}

impl Default for TimerConfig {
    /// 25-minute focus, 5-minute short break, 15-minute long break, 4 focuses.
    fn default() -> (r: Self)
        ensures
            r == Self::with_values(1500, 300, 900, 4),
    {
        TimerConfig {
            focus_seconds: 1500,
            short_break_seconds: 300,
            long_break_seconds: 900,
            focuses_before_long_break: 4,
        }
    }
}

fn validate_duration(field: &'static str, seconds: u64) -> (r: Result<(), ConfigError>)
    ensures
        r == duration_check(field, seconds),
{
    if seconds == 0 {
        return Err(ConfigError::ZeroDuration { field });
    }
    if seconds > MAX_SESSION_SECONDS {
        return Err(ConfigError::DurationTooLong { field, maximum_seconds: MAX_SESSION_SECONDS });
    }
    Ok(())
}

} // verus!
