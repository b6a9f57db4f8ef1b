//! Reads the system light/dark mode, and refuses to guess when it cannot.
//!
//! The macOS, Windows and Linux readings come from `dark_light`; this crate
//! adds WSL, where none of them applies, and the third outcome: a mode that
//! could not be determined is an error carrying why, never a default.
//!
//! The process and file work is the caller's. Each function here takes what
//! that work produced and decides what it means.
use vstd::prelude::*;

pub mod std_calls;
pub mod text;
pub mod watch;
pub mod wsl;

verus! {

/// The system theme, once it is known.
///
/// There is no `Unspecified`. A mode that could not be determined is an
/// [`Undetectable`], so a caller holding a `Mode` holds an answer the system
/// actually gave.
#[derive(Debug, Clone, Copy, PartialEq, Eq, Structural)]
pub enum Mode {
    Dark,
    Light,
}

impl Mode {
    /// The one bare word a mode prints as.
    pub open spec fn word(self) -> Seq<char> {
        match self {
            Mode::Dark => "dark"@,
            Mode::Light => "light"@,
        }
    }

    /// The mode as one bare word: `dark` or `light`.
    pub fn to_string(&self) -> (s: String)
        ensures
            s@ == self.word(),
    {
        match self {
            Mode::Dark => String::from_str("dark"),
            Mode::Light => String::from_str("light"),
        }
    }

    /// The mode of a system theme. `Unspecified` is not rounded to light: it is
    /// the whole reason this conversion can fail.
    pub fn try_from(theme: SystemTheme) -> (r: Result<Mode, Undetectable>)
        ensures
            match theme {
                SystemTheme::Dark => r == Ok::<Mode, Undetectable>(Mode::Dark),
                SystemTheme::Light => r == Ok::<Mode, Undetectable>(Mode::Light),
                SystemTheme::Unspecified => r matches Err(Undetectable::Unspecified),
            },
    {
        match theme {
            SystemTheme::Dark => Ok(Mode::Dark),
            SystemTheme::Light => Ok(Mode::Light),
            SystemTheme::Unspecified => Err(Undetectable::Unspecified),
        }
    }
}

/// A mode prints as one bare word: the whole text is a single field, and the
/// two modes print differently.
pub proof fn lemma_a_mode_prints_as_one_bare_word(m: Mode)
    ensures
        text::fields(m.word()) == seq![m.word()],
        Mode::Dark.word() != Mode::Light.word(),
{
    reveal_strlit("dark");
    reveal_strlit("light");
    let w = m.word();
    assert forall|i: int| 0 <= i < w.len() implies !text::is_space(#[trigger] w[i]) by {
        assert(w =~= seq!['d', 'a', 'r', 'k'] || w =~= seq!['l', 'i', 'g', 'h', 't']);
    }
    text::lemma_fields_of_word(w);
    assert("dark"@.len() != "light"@.len());
}

/// What the platform reports of its theme, as `dark_light::Mode` has it.
#[derive(Debug, Clone, Copy, PartialEq, Eq, Structural)]
pub enum SystemTheme {
    Dark,
    Light,
    /// The platform answered that it has no preference.
    Unspecified,
}

/// Why the system theme could not be determined.
///
/// Every variant is a reason a caller can act on. None of them is a mode.
#[derive(Debug)]
pub enum Undetectable {
    /// The desktop answered, and its answer was that it has no preference. A
    /// headless host and a desktop set to neither are the same to us and
    /// neither is light.
    Unspecified,
    /// Detection ran and failed. Holds what the backend said it was doing
    /// when it did.
    Backend(String),
    /// Interop with Windows failed, on a host where that is the only way to ask.
    Wsl(wsl::Error),
}

impl Undetectable {
    /// The sentence that says what went wrong.
    pub open spec fn spec_message(&self) -> Seq<char> {
        match self {
            Undetectable::Unspecified => "the system reports no light or dark preference"@,
            Undetectable::Backend(why) => "could not read the system theme: "@ + why@,
            Undetectable::Wsl(e) => "could not read the Windows theme from WSL: "@
                + e.spec_message(),
        }
    }

    /// Says what went wrong, in one sentence.
    pub fn message(&self) -> (m: String)
        ensures
            m@ == self.spec_message(),
    {
        match self {
            Undetectable::Unspecified => String::from_str(
                "the system reports no light or dark preference",
            ),
            Undetectable::Backend(why) => {
                let mut m = String::from_str("could not read the system theme: ");
                m.append(why.as_str());
                m
            },
            Undetectable::Wsl(e) => {
                let mut m = String::from_str("could not read the Windows theme from WSL: ");
                let inner = e.message();
                m.append(inner.as_str());
                m
            },
        }
    }
}

/// Where the theme was read from, and what the reading gave.
#[derive(Debug)]
pub enum Reading {
    /// Under WSL: what [`wsl::detect`] gave.
    Wsl(Result<Mode, wsl::Error>),
    /// Elsewhere: what the platform backend gave, or what it said when it failed.
    System(Result<SystemTheme, String>),
}

/// The system theme that a reading gives.
///
/// Fails with [`Undetectable`] when the platform has no theme to report, or
/// when reading it failed.
pub fn detect(reading: Reading) -> (r: Result<Mode, Undetectable>)
    ensures
        match reading {
            Reading::Wsl(Ok(m)) => r == Ok::<Mode, Undetectable>(m),
            Reading::Wsl(Err(e)) => r == Err::<Mode, Undetectable>(Undetectable::Wsl(e)),
            Reading::System(Err(why)) => r == Err::<Mode, Undetectable>(
                Undetectable::Backend(why),
            ),
            Reading::System(Ok(SystemTheme::Dark)) => r == Ok::<Mode, Undetectable>(Mode::Dark),
            Reading::System(Ok(SystemTheme::Light)) => r == Ok::<Mode, Undetectable>(Mode::Light),
            Reading::System(Ok(SystemTheme::Unspecified)) => r matches Err(
                Undetectable::Unspecified,
            ),
        },
{
    match reading {
        Reading::Wsl(Ok(m)) => Ok(m),
        Reading::Wsl(Err(e)) => Err(Undetectable::Wsl(e)),
        Reading::System(Err(why)) => Err(Undetectable::Backend(why)),
        Reading::System(Ok(theme)) => Mode::try_from(theme),
    }
}

} // verus!
