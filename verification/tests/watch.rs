use heimdallr::watch::{
    command, ended, fire, follow, tick, Action, Error, Exit, Failure, Follow, Tick, Watch, ARGV0,
    SHELL,
};
use heimdallr::{wsl, Mode, SystemTheme, Undetectable};

fn argv(on_change: &str, mode: Mode) -> Vec<String> {
    command(on_change, mode).args
}

#[test]
fn the_mode_arrives_as_the_first_positional_argument() {
    assert_eq!(
        argv("echo \"$1\"", Mode::Dark),
        ["-c", "echo \"$1\"", ARGV0, "dark"]
    );
}

#[test]
fn the_command_goes_to_a_shell_unsplit() {
    let command = command("a && b", Mode::Light);
    assert_eq!(command.program, SHELL);
    assert_eq!(
        command.args.get(1).map(String::as_str),
        Some("a && b"),
        "the command must reach the shell in one piece"
    );
}

#[test]
fn a_poll_that_answers_the_same_mode_is_not_a_change() {
    assert!(matches!(tick(Mode::Dark, Ok(Mode::Dark)), Tick::Unchanged));
}

#[test]
fn a_poll_that_answers_the_other_mode_is_one() {
    assert!(matches!(
        tick(Mode::Dark, Ok(Mode::Light)),
        Tick::Changed(Mode::Light)
    ));
}

#[test]
fn one_change_fires_once_however_many_ticks_follow() {
    let mut current = Mode::Dark;
    let mut fired = Vec::new();

    // The registry flips once, and every later poll reads the new value back.
    for reading in [Mode::Dark, Mode::Light, Mode::Light, Mode::Light] {
        if let Tick::Changed(next) = tick(current, Ok(reading)) {
            current = next;
            fired.push(next);
        }
    }

    assert_eq!(fired, [Mode::Light]);
}

#[test]
fn a_poll_that_cannot_read_is_neither_mode() {
    let reading = Err(wsl::Error::NoDrive);
    assert!(matches!(tick(Mode::Dark, reading), Tick::Unreadable(_)));
}

#[test]
fn a_failure_says_which_one_it_was() {
    let unstartable =
        Failure::Unstartable(std::io::Error::from(std::io::ErrorKind::NotFound).to_string());
    let message = unstartable.message();
    assert!(message.contains(SHELL), "{message}");
}

#[test]
fn the_watch_starts_from_the_first_reading() {
    let (watch, first) = Watch::start(Ok(Mode::Light)).unwrap();
    assert_eq!(watch.current(), Mode::Light);
    assert!(matches!(first, Action::Fire(Mode::Light)));
    let refused = Watch::start(Err(Undetectable::Unspecified));
    assert!(matches!(refused, Err(Error::Undetectable(Undetectable::Unspecified))));
}

#[test]
fn polling_fires_on_changes_only() {
    let (mut watch, _) = Watch::start(Ok(Mode::Dark)).unwrap();
    let mut fired = Vec::new();
    let readings = [Mode::Dark, Mode::Light, Mode::Light, Mode::Dark, Mode::Dark, Mode::Light];
    for reading in readings {
        if let Action::Fire(mode) = watch.poll(Ok(reading)) {
            fired.push(mode);
        }
    }
    assert_eq!(fired, [Mode::Light, Mode::Dark, Mode::Light]);
    assert_eq!(watch.current(), Mode::Light);
}

#[test]
fn a_failed_poll_is_reported_and_changes_nothing() {
    let (mut watch, _) = Watch::start(Ok(Mode::Dark)).unwrap();
    let action = watch.poll(Err(wsl::Error::NoDrive));
    assert!(matches!(action, Action::Report(Failure::Unreadable(wsl::Error::NoDrive))));
    assert_eq!(watch.current(), Mode::Dark);
    assert!(matches!(watch.poll(Ok(Mode::Dark)), Action::Wait));
}

#[test]
fn an_unspecified_change_runs_nothing() {
    let (mut watch, _) = Watch::start(Ok(Mode::Dark)).unwrap();
    assert_eq!(watch.notice(SystemTheme::Unspecified), None);
    assert_eq!(watch.notice(SystemTheme::Dark), None);
    assert_eq!(watch.notice(SystemTheme::Light), Some(Mode::Light));
    assert_eq!(watch.notice(SystemTheme::Unspecified), None);
    assert_eq!(watch.notice(SystemTheme::Light), None);
    assert_eq!(watch.notice(SystemTheme::Dark), Some(Mode::Dark));
    assert_eq!(watch.current(), Mode::Dark);
}

#[test]
fn a_run_reports_only_what_went_wrong() {
    let ok = Exit { success: true, status: "exit status: 0".into() };
    assert!(fire(Ok(ok)).is_none());
    let failed = Exit { success: false, status: "exit status: 3".into() };
    match fire(Ok(failed)) {
        Some(Failure::Exited { status }) => assert_eq!(status, "exit status: 3"),
        other => panic!("{other:?}"),
    }
    match fire(Err("no such file".into())) {
        Some(failure) => assert_eq!(failure.message(), "could not run `sh`: no such file"),
        None => panic!("an unstartable shell went unreported"),
    }
}

#[test]
fn each_watch_error_says_what_failed() {
    assert_eq!(Error::Stopped.message(), "the theme watcher stopped");
    assert_eq!(
        Error::Backend("no portal".into()).message(),
        "could not watch for theme changes: no portal"
    );
    assert_eq!(
        Error::Undetectable(Undetectable::Unspecified).message(),
        "nothing to watch: the system reports no light or dark preference"
    );
    assert_eq!(
        Failure::Exited { status: "signal: 9".into() }.message(),
        "the command exited with signal: 9"
    );
    assert_eq!(
        Failure::Unreadable(wsl::Error::NoDrive).message(),
        "could not re-read the Windows theme: `reg.exe` is not on PATH, and /proc/mounts lists no Windows drive to find it under"
    );
}

#[test]
fn only_wsl_polls() {
    assert_eq!(follow(true), Follow::Poll);
    assert_eq!(follow(false), Follow::Subscribe);
}

#[test]
fn a_subscription_ends_refused_or_stopped() {
    assert!(matches!(ended(Ok(())), Error::Stopped));
    match ended(Err("no portal".into())) {
        Error::Backend(why) => assert_eq!(why, "no portal"),
        other => panic!("{other:?}"),
    }
}

#[test]
fn a_subscription_runs_the_command_on_transitions_only() {
    let (mut watch, _) = Watch::start(Ok(Mode::Dark)).unwrap();
    let changes = [
        SystemTheme::Unspecified,
        SystemTheme::Light,
        SystemTheme::Unspecified,
        SystemTheme::Light,
        SystemTheme::Dark,
        SystemTheme::Dark,
    ];
    let fired: Vec<Mode> = changes.into_iter().filter_map(|c| watch.notice(c)).collect();
    assert_eq!(fired, [Mode::Light, Mode::Dark]);
}
