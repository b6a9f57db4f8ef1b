//! Running a command now, and again whenever the system theme changes.
//!
//! The watcher keeps no record of which theme is applied. The command owns
//! that, and a second record of it would drift. Being called twice with the
//! same mode is harmless, so the command runs once at start rather than
//! waiting for a change that may already have happened while the machine was
//! asleep.
//!
//! The caller runs the loop: it reads, sleeps and spawns; the functions here
//! say what each reading means and what to do next.
use vstd::prelude::*;

use crate::wsl;
use crate::{Mode, SystemTheme, Undetectable};

verus! {

/// The shell the command is handed to, so that `&&` and the rest of it work.
pub const SHELL: &'static str = "sh";

/// What `$0` is inside the command, so a shell diagnostic names something
/// recognisable.
pub const ARGV0: &'static str = "heimdallr";

/// How often, in seconds, the Windows registry is re-read under WSL unless the
/// caller says otherwise.
pub const DEFAULT_INTERVAL_SECS: u64 = 30;

/// Why the watcher could not start, or could not go on.
#[derive(Debug)]
pub enum Error {
    /// There is nothing to watch on a host with no system theme.
    Undetectable(Undetectable),
    /// The platform watcher could not be subscribed to; says why.
    Backend(String),
    /// The platform watcher stopped sending changes.
    Stopped,
}

impl Error {
    /// The sentence that says what went wrong.
    pub open spec fn spec_message(&self) -> Seq<char> {
        match self {
            Error::Undetectable(u) => "nothing to watch: "@ + u.spec_message(),
            Error::Backend(why) => "could not watch for theme changes: "@ + why@,
            Error::Stopped => "the theme watcher stopped"@,
        }
    }

    /// Says what went wrong, in one sentence.
    pub fn message(&self) -> (m: String)
        ensures
            m@ == self.spec_message(),
    {
        match self {
            Error::Undetectable(u) => {
                let mut m = String::from_str("nothing to watch: ");
                let inner = u.message();
                m.append(inner.as_str());
                m
            },
            Error::Backend(why) => {
                let mut m = String::from_str("could not watch for theme changes: ");
                m.append(why.as_str());
                m
            },
            Error::Stopped => String::from_str("the theme watcher stopped"),
        }
    }
}

/// Why one run of the command did not succeed.
///
/// Reported and stepped over. A command that fails once is not a reason to
/// stop watching.
#[derive(Debug)]
pub enum Failure {
    /// The shell could not be started; says why.
    Unstartable(String),
    /// The command ran and exited unsuccessfully, with this status.
    Exited { status: String },
    /// A poll that answered nothing. Transient far more often than not, and
    /// dying would leave the theme unapplied until something restarts us into
    /// the same failure.
    Unreadable(wsl::Error),
}

impl Failure {
    /// The sentence that says what went wrong.
    pub open spec fn spec_message(&self) -> Seq<char> {
        match self {
            Failure::Unstartable(why) => "could not run `"@ + SHELL@ + "`: "@ + why@,
            Failure::Exited { status } => "the command exited with "@ + status@,
            Failure::Unreadable(e) => "could not re-read the Windows theme: "@ + e.spec_message(),
        }
    }

    /// Says what went wrong, in one sentence.
    pub fn message(&self) -> (m: String)
        ensures
            m@ == self.spec_message(),
    {
        match self {
            Failure::Unstartable(why) => {
                let mut m = String::from_str("could not run `");
                m.append(SHELL);
                m.append("`: ");
                m.append(why.as_str());
                m
            },
            Failure::Exited { status } => {
                let mut m = String::from_str("the command exited with ");
                m.append(status.as_str());
                m
            },
            Failure::Unreadable(e) => {
                let mut m = String::from_str("could not re-read the Windows theme: ");
                let inner = e.message();
                m.append(inner.as_str());
                m
            },
        }
    }
}

/// What one poll means.
#[derive(Debug)]
pub enum Tick {
    /// The mode read is the one already applied.
    Unchanged,
    /// The mode read differs from the one applied: run the command with it.
    Changed(Mode),
    /// Nothing could be read.
    Unreadable(wsl::Error),
}

/// What a poll that read `reading` means while `current` is applied.
pub open spec fn tick_of(current: Mode, reading: Result<Mode, wsl::Error>) -> Tick {
    match reading {
        Ok(next) => if next == current {
            Tick::Unchanged
        } else {
            Tick::Changed(next)
        },
        Err(why) => Tick::Unreadable(why),
    }
}

/// What one poll means. Split out from the polling loop so that "a change
/// runs the command once, not on every tick" is decidable without waiting on
/// a clock.
pub fn tick(current: Mode, reading: Result<Mode, wsl::Error>) -> (t: Tick)
    ensures
        t == tick_of(current, reading),
        reading matches Err(why) ==> t == Tick::Unreadable(why),
        reading matches Ok(next) ==> (next == current ==> t is Unchanged) && (next != current
            ==> t == Tick::Changed(next)),
{
    match reading {
        Ok(next) => if next == current {
            Tick::Unchanged
        } else {
            Tick::Changed(next)
        },
        Err(why) => Tick::Unreadable(why),
    }
}

/// The modes that the command runs with over a run of successful polls that
/// read `readings`, starting with `current` applied.
pub open spec fn fired(current: Mode, readings: Seq<Mode>) -> Seq<Mode>
    decreases readings.len(),
{
    if readings.len() == 0 {
        Seq::empty()
    } else {
        match tick_of(current, Ok(readings[0])) {
            Tick::Changed(next) => seq![next] + fired(next, readings.drop_first()),
            _ => fired(current, readings.drop_first()),
        }
    }
}

/// A poll that could not read is reported with its error and is never a
/// change: whatever mode is applied, `tick` answers `Unreadable` carrying
/// exactly the error it was given.
pub proof fn lemma_a_failed_read_is_never_a_change(current: Mode, why: wsl::Error)
    ensures
        tick_of(current, Err(why)) == Tick::Unreadable(why),
        !(tick_of(current, Err(why)) is Changed),
        !(tick_of(current, Err(why)) is Unchanged),
{
}

/// A poll is a change exactly when it read a mode other than the one applied,
/// and the change is to the mode read.
pub proof fn lemma_changes_come_from_readings(current: Mode, reading: Result<Mode, wsl::Error>)
    ensures
        tick_of(current, reading) matches Tick::Changed(next) ==> reading == Ok::<
            Mode,
            wsl::Error,
        >(next) && next != current,
        reading matches Ok(next) ==> (next != current ==> tick_of(current, reading)
            == Tick::Changed(next)),
{
}

/// A poll that reads the other mode is a change, and every later poll that
/// reads it back is not one.
pub proof fn lemma_a_change_is_seen_once(current: Mode, next: Mode)
    requires
        next != current,
    ensures
        tick_of(current, Ok(next)) == Tick::Changed(next),
        tick_of(next, Ok(next)) == Tick::Unchanged,
{
}

/// One change fires once, however many ticks follow: `k` polls that all read
/// the other mode run the command exactly once, with that mode.
pub proof fn lemma_one_change_fires_once(current: Mode, next: Mode, k: nat)
    requires
        next != current,
        k >= 1,
    ensures
        fired(current, Seq::new(k, |i: int| next)) == seq![next],
{
    let rs = Seq::new(k, |i: int| next);
    lemma_steady_fires_nothing(next, (k - 1) as nat);
    assert(rs.drop_first() =~= Seq::new((k - 1) as nat, |i: int| next));
    assert(fired(current, rs) =~= seq![next] + fired(next, rs.drop_first()));
}

/// Polls that keep reading the mode already applied never run the command.
pub proof fn lemma_steady_fires_nothing(current: Mode, k: nat)
    ensures
        fired(current, Seq::new(k, |i: int| current)) == Seq::<Mode>::empty(),
    decreases k,
{
    if k > 0 {
        let rs = Seq::new(k, |i: int| current);
        lemma_steady_fires_nothing(current, (k - 1) as nat);
        assert(rs.drop_first() =~= Seq::new((k - 1) as nat, |i: int| current));
    }
}

/// The command never runs twice in a row with the same mode, and never with
/// the mode already applied: each run follows a change.
pub proof fn lemma_runs_follow_changes(current: Mode, readings: Seq<Mode>)
    ensures
        fired(current, readings).len() > 0 ==> fired(current, readings)[0] != current,
        forall|i: int|
            0 <= i < fired(current, readings).len() - 1 ==> #[trigger] fired(current, readings)[i]
                != fired(current, readings)[i + 1],
    decreases readings.len(),
{
    if readings.len() > 0 {
        let rest = readings.drop_first();
        match tick_of(current, Ok(readings[0])) {
            Tick::Changed(next) => {
                lemma_runs_follow_changes(next, rest);
                let f = fired(current, readings);
                assert(f =~= seq![next] + fired(next, rest));
                assert forall|i: int| 0 <= i < f.len() - 1 implies #[trigger] f[i] != f[i + 1] by {
                    if i > 0 {
                        assert(f[i] == fired(next, rest)[i - 1]);
                        assert(f[i + 1] == fired(next, rest)[i]);
                    }
                }
            },
            _ => {
                lemma_runs_follow_changes(current, rest);
            },
        }
    }
}

/// The mode that a change sent by the platform watcher runs the command with,
/// while `current` is applied: none for `Unspecified`, which is not a mode,
/// nor for the mode already applied.
pub open spec fn notice_of(current: Mode, change: SystemTheme) -> Option<Mode> {
    match change {
        SystemTheme::Unspecified => None,
        SystemTheme::Dark => if current == Mode::Dark {
            None
        } else {
            Some(Mode::Dark)
        },
        SystemTheme::Light => if current == Mode::Light {
            None
        } else {
            Some(Mode::Light)
        },
    }
}

/// The modes that the command runs with over the changes `changes` that the
/// platform watcher sends, starting with `current` applied.
pub open spec fn noticed(current: Mode, changes: Seq<SystemTheme>) -> Seq<Mode>
    decreases changes.len(),
{
    if changes.len() == 0 {
        Seq::empty()
    } else {
        match notice_of(current, changes[0]) {
            Some(next) => seq![next] + noticed(next, changes.drop_first()),
            None => noticed(current, changes.drop_first()),
        }
    }
}

/// Over a subscription too, the command never runs twice in a row with the
/// same mode, nor with the mode already applied.
pub proof fn lemma_notices_follow_changes(current: Mode, changes: Seq<SystemTheme>)
    ensures
        noticed(current, changes).len() > 0 ==> noticed(current, changes)[0] != current,
        forall|i: int|
            0 <= i < noticed(current, changes).len() - 1 ==> #[trigger] noticed(current, changes)[i]
                != noticed(current, changes)[i + 1],
    decreases changes.len(),
{
    if changes.len() > 0 {
        let rest = changes.drop_first();
        match notice_of(current, changes[0]) {
            Some(next) => {
                lemma_notices_follow_changes(next, rest);
                let f = noticed(current, changes);
                assert(f =~= seq![next] + noticed(next, rest));
                assert forall|i: int| 0 <= i < f.len() - 1 implies #[trigger] f[i] != f[i + 1] by {
                    if i > 0 {
                        assert(f[i] == noticed(next, rest)[i - 1]);
                        assert(f[i + 1] == noticed(next, rest)[i]);
                    }
                }
            },
            None => {
                lemma_notices_follow_changes(current, rest);
            },
        }
    }
}

/// `Unspecified` changes run nothing: a subscription runs the command with
/// the same modes once every `Unspecified` change is taken out.
pub proof fn lemma_unspecified_changes_run_nothing(current: Mode, changes: Seq<SystemTheme>)
    ensures
        noticed(current, changes) == noticed(
            current,
            changes.filter(|c: SystemTheme| c != SystemTheme::Unspecified),
        ),
    decreases changes.len(),
{
    let keep = |c: SystemTheme| c != SystemTheme::Unspecified;
    if changes.len() > 0 {
        let rest = changes.drop_first();
        assert(changes =~= seq![changes[0]] + rest);
        rest.lemma_filter_prepend(changes[0], keep);
        match notice_of(current, changes[0]) {
            Some(next) => lemma_unspecified_changes_run_nothing(next, rest),
            None => lemma_unspecified_changes_run_nothing(current, rest),
        }
        let kept = changes.filter(keep);
        if changes[0] == SystemTheme::Unspecified {
            assert(kept =~= rest.filter(keep));
        } else {
            assert(kept =~= seq![changes[0]] + rest.filter(keep));
            assert(kept.drop_first() =~= rest.filter(keep));
            assert(kept[0] == changes[0]);
        }
    } else {
        reveal(Seq::filter);
        assert(changes.filter(keep) =~= changes);
    }
}

/// Why a subscription ends: `Backend` with why, when it was refused;
/// `Stopped` when it was taken and the watcher then stopped sending.
pub open spec fn ending(subscribed: Result<(), String>) -> Error {
    match subscribed {
        Ok(()) => Error::Stopped,
        Err(why) => Error::Backend(why),
    }
}

/// How a watch ends, if it does, given its first reading, whether it runs
/// under WSL, and how its subscription went: `Undetectable` before anything
/// is watched; never under WSL once it started, whatever the command does,
/// since the polls only run, report or wait; `Backend` or `Stopped` elsewhere.
pub open spec fn watch_end(
    first: Result<Mode, Undetectable>,
    on_wsl: bool,
    subscribed: Result<(), String>,
) -> Option<Error> {
    match first {
        Err(u) => Some(Error::Undetectable(u)),
        Ok(_) => if on_wsl {
            None
        } else {
            Some(ending(subscribed))
        },
    }
}

/// A watch never ends well: it ends with `Undetectable` exactly when the
/// first reading failed; under WSL, once started, it does not end; elsewhere
/// it ends with `Backend` or `Stopped`.
pub proof fn lemma_how_a_watch_ends(
    first: Result<Mode, Undetectable>,
    on_wsl: bool,
    subscribed: Result<(), String>,
)
    ensures
        first is Err <==> watch_end(first, on_wsl, subscribed) matches Some(Error::Undetectable(_)),
        first is Ok && on_wsl ==> watch_end(first, on_wsl, subscribed) is None,
        first is Ok && !on_wsl ==> (watch_end(first, on_wsl, subscribed) matches Some(
            Error::Backend(_),
        ) || watch_end(first, on_wsl, subscribed) matches Some(Error::Stopped)),
{
}

/// What the watcher does next.
#[derive(Debug)]
pub enum Action {
    /// Nothing: wait for the next reading.
    Wait,
    /// Run the command with this mode.
    Fire(Mode),
    /// Report this failure and carry on.
    Report(Failure),
}

/// The watcher's state: the mode the command last ran with.
#[derive(Debug)]
pub struct Watch {
    current: Mode,
}

impl View for Watch {
    type V = Mode;

    closed spec fn view(&self) -> Mode {
        self.current
    }
}

impl Watch {
    /// Starts watching from the first reading of the theme. Where there is one,
    /// the first thing to do is to run the command with it: nothing has
    /// applied the theme if the machine was off across the transition.
    pub fn start(first: Result<Mode, Undetectable>) -> (w: Result<(Watch, Action), Error>)
        ensures
            match first {
                Ok(m) => w matches Ok((watch, action)) && watch@ == m && action == Action::Fire(m),
                Err(u) => w == Err::<(Watch, Action), Error>(Error::Undetectable(u)),
            },
    {
        match first {
            Ok(m) => Ok((Watch { current: m }, Action::Fire(m))),
            Err(u) => Err(Error::Undetectable(u)),
        }
    }

    /// The mode the command last ran with.
    pub fn current(&self) -> (m: Mode)
        ensures
            m == self@,
    {
        self.current
    }

    /// Takes one poll of the Windows theme: a change runs the command and
    /// becomes the mode applied, a failure to read is reported.
    pub fn poll(&mut self, reading: Result<Mode, wsl::Error>) -> (a: Action)
        ensures
            match tick_of(old(self)@, reading) {
                Tick::Unchanged => a is Wait && final(self)@ == old(self)@,
                Tick::Changed(next) => a == Action::Fire(next) && final(self)@ == next,
                Tick::Unreadable(why) => a == Action::Report(Failure::Unreadable(why))
                    && final(self)@ == old(self)@,
            },
            reading matches Err(why) ==> a == Action::Report(Failure::Unreadable(why))
                && final(self)@ == old(self)@,
            reading matches Ok(next) ==> (next == old(self)@ ==> a is Wait && final(self)@
                == old(self)@) && (next != old(self)@ ==> a == Action::Fire(next) && final(self)@
                == next),
            a matches Action::Fire(m) ==> reading == Ok::<Mode, wsl::Error>(m) && m != old(self)@,
    {
        match tick(self.current, reading) {
            Tick::Unchanged => Action::Wait,
            Tick::Changed(next) => {
                self.current = next;
                Action::Fire(next)
            },
            Tick::Unreadable(why) => Action::Report(Failure::Unreadable(why)),
        }
    }

    /// Takes one change that the platform watcher sent: the mode to run the
    /// command with, if there is one. `Unspecified` is not a mode, and not a
    /// reason to run anything; neither is the mode already applied.
    pub fn notice(&mut self, change: SystemTheme) -> (fire: Option<Mode>)
        ensures
            fire == notice_of(old(self)@, change),
            final(self)@ == match fire {
                Some(next) => next,
                None => old(self)@,
            },
    {
        match Mode::try_from(change) {
            Err(_) => None,
            Ok(next) => {
                if next == self.current {
                    None
                } else {
                    self.current = next;
                    Some(next)
                }
            },
        }
    }
}

/// How the watcher learns of changes once the command has run at start.
#[derive(Debug, Clone, Copy, PartialEq, Eq, Structural)]
pub enum Follow {
    /// Re-read the theme at an interval, and take each reading with [`Watch::poll`].
    Poll,
    /// Subscribe to the platform watcher, and take each change it sends with
    /// [`Watch::notice`].
    Subscribe,
}

/// How to follow the theme: WSL is the one platform that polls, because
/// `reg.exe` has no notification to block on; every other platform says
/// when the theme changed.
pub fn follow(on_wsl: bool) -> (f: Follow)
    ensures
        f == (if on_wsl {
            Follow::Poll
        } else {
            Follow::Subscribe
        }),
{
    if on_wsl {
        Follow::Poll
    } else {
        Follow::Subscribe
    }
}

/// Why a subscription to the platform watcher ended: the subscription was
/// refused, with why; or it was taken and the watcher then stopped sending.
pub fn ended(subscribed: Result<(), String>) -> (e: Error)
    ensures
        e == ending(subscribed),
{
    match subscribed {
        Ok(()) => Error::Stopped,
        Err(why) => Error::Backend(why),
    }
}

/// How one run of the command ended.
#[derive(Debug)]
pub struct Exit {
    /// Whether it exited successfully.
    pub success: bool,
    /// How it exited, as the exit status describes itself.
    pub status: String,
}

/// What one run of the command leaves to report: nothing when it exited
/// successfully; `Exited` when it exited otherwise; `Unstartable` when the
/// shell could not be started.
pub fn fire(outcome: Result<Exit, String>) -> (report: Option<Failure>)
    ensures
        match outcome {
            Ok(exit) => if exit.success {
                report is None
            } else {
                report == Some(Failure::Exited { status: exit.status })
            },
            Err(why) => report == Some(Failure::Unstartable(why)),
        },
{
    match outcome {
        Ok(exit) => if exit.success {
            None
        } else {
            Some(Failure::Exited { status: exit.status })
        },
        Err(why) => Some(Failure::Unstartable(why)),
    }
}

/// A program and the arguments it is run with.
#[derive(Debug)]
pub struct Invocation {
    pub program: String,
    pub args: Vec<String>,
}

/// The shell invocation for one run: `sh -c <on_change> heimdallr <mode>`,
/// which is what puts the mode in `$1`. The command reaches the shell in one
/// piece.
pub fn command(on_change: &str, mode: Mode) -> (inv: Invocation)
    ensures
        inv.program@ == SHELL@,
        inv.args@.len() == 4,
        inv.args@[0]@ == "-c"@,
        inv.args@[1]@ == on_change@,
        inv.args@[2]@ == ARGV0@,
        inv.args@[3]@ == mode.word(),
{
    let mut args: Vec<String> = Vec::new();
    args.push(String::from_str("-c"));
    args.push(String::from_str(on_change));
    args.push(String::from_str(ARGV0));
    args.push(mode.to_string());
    Invocation { program: String::from_str(SHELL), args }
}

} // verus!
