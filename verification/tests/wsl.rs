use std::path::Path;

use heimdallr::wsl::{
    active, detect, drive_mount, is_wsl, parse, query, query_args, query_fallback, reg_exe,
    reg_exe_under, unescape, Error, Lookup, Ran, RegOutput, KEY, VALUE,
};
use heimdallr::Mode;

/// `reg.exe query` output, byte for byte as observed on WSL2 through `| cat -A`.
fn capture(data: &str) -> String {
    format!(
        "\r\nHKEY_CURRENT_USER\\Software\\Microsoft\\Windows\\CurrentVersion\\Themes\\Personalize\r\n    {VALUE}    REG_DWORD    {data}\r\n\r\n"
    )
}

/// `/proc/mounts` on WSL2, with the backslash escaped the way the kernel escapes it.
const WSL2_MOUNTS: &str = "/dev/sdd / ext4 rw,relatime,discard,errors=remount-ro,data=ordered 0 0\n\
    none /dev devtmpfs rw,nosuid,relatime,mode=755 0 0\n\
    C:\\134 /mnt/c 9p rw,dirsync,noatime,aname=drvfs;path=C:\\134;uid=1000 0 0\n\
    D:\\134 /mnt/d 9p rw,dirsync,noatime 0 0\n";

#[test]
fn reg_exe_sits_under_the_drive_mount() {
    assert_eq!(
        Path::new(&reg_exe_under("/mnt/c")),
        Path::new("/mnt/c/Windows/System32/reg.exe")
    );
}

#[test]
fn the_windows_drive_is_found_where_it_is_mounted() {
    assert_eq!(drive_mount(WSL2_MOUNTS).as_deref(), Some("/mnt/c"));
}

#[test]
fn a_moved_automount_root_is_followed() {
    let mounts = "C:\\134 /windows/c 9p rw 0 0\n";
    assert_eq!(drive_mount(mounts).as_deref(), Some("/windows/c"));
}

#[test]
fn a_source_the_kernel_did_not_escape_reads_the_same() {
    let mounts = "C:\\ /mnt/c 9p rw 0 0\n";
    assert_eq!(drive_mount(mounts).as_deref(), Some("/mnt/c"));
}

#[test]
fn an_escaped_space_in_the_mount_point_is_undone() {
    let mounts = "C:\\134 /mnt/my\\040drive 9p rw 0 0\n";
    assert_eq!(drive_mount(mounts).as_deref(), Some("/mnt/my drive"));
}

#[test]
fn a_host_with_no_windows_drive_has_none() {
    let mounts = "sysfs /sys sysfs rw,nosuid,nodev,noexec,relatime 0 0\n\
        proc /proc proc rw,nosuid,nodev,noexec,relatime 0 0\n\
        /dev/nvme0n1p2 / ext4 rw,relatime,errors=remount-ro 0 0\n";
    assert!(drive_mount(mounts).is_none());
}

#[test]
fn the_wsl_kernel_release_is_recognised() {
    assert!(is_wsl("6.18.33.2-microsoft-standard-WSL2"));
}

#[test]
fn a_native_linux_kernel_release_is_not() {
    assert!(!is_wsl("7.0.0-30-generic"));
}

#[test]
fn zero_is_dark_and_one_is_light() {
    assert!(matches!(parse(&capture("0x0")), Ok(Mode::Dark)));
    assert!(matches!(parse(&capture("0x1")), Ok(Mode::Light)));
}

#[test]
fn a_value_that_is_neither_is_not_rounded_to_light() {
    let outcome = parse(&capture("0x2"));
    assert!(
        matches!(outcome, Err(Error::Unexpected { .. })),
        "{outcome:?}"
    );
}

#[test]
fn output_without_the_value_is_missing_not_light() {
    let outcome = parse("\r\nHKEY_CURRENT_USER\\Software\r\n\r\n");
    assert!(matches!(outcome, Err(Error::Missing { .. })), "{outcome:?}");
}

#[test]
fn an_error_names_the_value_it_could_not_read() {
    let message = parse(&capture("0x2")).unwrap_err().message();
    assert!(message.contains("0x2"), "{message}");
    assert!(message.contains(VALUE), "{message}");
}

#[test]
fn the_release_is_matched_without_regard_to_case() {
    assert!(is_wsl("5.15.90.1-MICROSOFT-standard-WSL2"));
    assert!(is_wsl("4.4.0-19041-Microsoft"));
    assert!(!is_wsl("6.1.0-micro-soft"));
    assert!(!is_wsl(""));
}

#[test]
fn the_drive_source_is_matched_without_regard_to_case() {
    assert_eq!(drive_mount("c:\\134 /mnt/c 9p rw 0 0").as_deref(), Some("/mnt/c"));
    assert_eq!(drive_mount("C:\\134 /mnt/c").as_deref(), Some("/mnt/c"));
}

#[test]
fn the_first_line_that_names_the_drive_wins() {
    let mounts = "C:\\134 /first 9p rw 0 0\nC:\\134 /second 9p rw 0 0\n";
    assert_eq!(drive_mount(mounts).as_deref(), Some("/first"));
}

#[test]
fn a_line_with_the_drive_alone_names_no_mount_point() {
    assert_eq!(drive_mount("C:\\134\nC:\\134 /mnt/c 9p\n").as_deref(), Some("/mnt/c"));
    assert!(drive_mount("C:\\134\n").is_none());
    assert!(drive_mount("").is_none());
}

#[test]
fn octal_escapes_are_undone() {
    assert_eq!(unescape("C:\\134"), "C:\\");
    assert_eq!(unescape("/mnt/a\\040b\\011c\\012d"), "/mnt/a b\tc\nd");
    assert_eq!(unescape("\\101\\102"), "AB");
    assert_eq!(unescape("\\377"), "\u{ff}");
}

#[test]
fn a_backslash_that_starts_no_escape_stays() {
    assert_eq!(unescape("C:\\"), "C:\\");
    assert_eq!(unescape("a\\\\b"), "a\\\\b");
    assert_eq!(unescape("\\12"), "\\12");
    assert_eq!(unescape("\\400"), "\\400");
    assert_eq!(unescape("\\777x"), "\\777x");
    assert_eq!(unescape("\\18a"), "\\18a");
    assert_eq!(unescape("\\\\134"), "\\\\");
}

#[test]
fn a_plus_sign_starts_no_escape() {
    assert_eq!(unescape("\\+12"), "\\+12");
    assert_eq!(unescape("a\\+12"), "a\\+12");
    assert_eq!(unescape("\\+1"), "\\+1");
    assert_eq!(unescape("\\-12"), "\\-12");
}

#[test]
fn what_the_kernel_escapes_reads_back() {
    let text = "my drive\twith\nall \\ four";
    let escaped = text
        .replace('\\', "\\134")
        .replace(' ', "\\040")
        .replace('\t', "\\011")
        .replace('\n', "\\012");
    assert_eq!(unescape(&escaped), text);
}

#[test]
fn the_path_is_joined_the_way_path_joins() {
    assert_eq!(reg_exe_under("/mnt/c"), "/mnt/c/Windows/System32/reg.exe");
    assert_eq!(reg_exe_under("/mnt/c/"), "/mnt/c/Windows/System32/reg.exe");
    assert_eq!(reg_exe_under(""), "Windows/System32/reg.exe");
    for point in ["/mnt/c", "/mnt/c/", "", "/", "/a b"] {
        let expected = Path::new(point).join("Windows/System32").join("reg.exe");
        assert_eq!(Path::new(&reg_exe_under(point)), expected.as_path());
        assert_eq!(reg_exe_under(point), expected.to_str().unwrap());
    }
}

#[test]
fn data_is_read_as_base16_digits() {
    assert!(matches!(parse(&capture("0x00000000")), Ok(Mode::Dark)));
    assert!(matches!(parse(&capture("0x0001")), Ok(Mode::Light)));
    for data in [
        "0x+1", "0x", "0x+", "0x-1", "0X1", "1", "0x100000001", "0xffffffff", "0x1g", "0", "x1",
        "0x1_0",
    ] {
        match parse(&capture(data)) {
            Err(Error::Unexpected { value }) => assert_eq!(value, data),
            other => panic!("{data}: {other:?}"),
        }
    }
}

#[test]
fn the_data_is_the_last_field_of_the_value_line() {
    let output = format!("{VALUE}\n{VALUE} REG_DWORD 0x1 0x0\n{VALUE} 0x1\n");
    assert!(matches!(parse(&output), Ok(Mode::Dark)));
    let output = format!("x {VALUE} 0x1\n  {VALUE}\t0x1\r\n");
    assert!(matches!(parse(&output), Ok(Mode::Light)));
}

#[test]
fn missing_output_is_carried_trimmed() {
    match parse("\r\n  HKEY_CURRENT_USER\\Software \r\n\r\n") {
        Err(Error::Missing { output }) => assert_eq!(output, "HKEY_CURRENT_USER\\Software"),
        other => panic!("{other:?}"),
    }
    match parse("") {
        Err(Error::Missing { output }) => assert_eq!(output, ""),
        other => panic!("{other:?}"),
    }
}

fn exited(success: bool, stdout: &[u8], stderr: &[u8]) -> RegOutput {
    RegOutput {
        success,
        status: if success { "exit status: 0" } else { "exit status: 1" }.to_string(),
        stdout: stdout.to_vec(),
        stderr: stderr.to_vec(),
    }
}

#[test]
fn a_successful_query_is_parsed() {
    let out = exited(true, capture("0x0").as_bytes(), b"");
    assert!(matches!(detect(Ok(out)), Ok(Mode::Dark)));
}

#[test]
fn a_refused_query_carries_its_status_and_trimmed_error_output() {
    let out = exited(false, capture("0x1").as_bytes(), b"  ERROR: not found\r\n\xff");
    match detect(Ok(out)) {
        Err(Error::Query { status, stderr }) => {
            assert_eq!(status, "exit status: 1");
            assert_eq!(stderr, "ERROR: not found\r\n\u{fffd}");
        }
        other => panic!("{other:?}"),
    }
}

#[test]
fn a_query_that_could_not_run_is_passed_on() {
    assert!(matches!(detect(Err(Error::NoDrive)), Err(Error::NoDrive)));
}

#[test]
fn only_a_missing_program_falls_back_to_the_drive() {
    assert!(matches!(query(Ran::NotFound("no such file".into())), Lookup::Fallback));
    match query(Ran::Failed("permission denied".into())) {
        Lookup::Done(Err(Error::Spawn { program, source })) => {
            assert_eq!(program, "reg.exe");
            assert_eq!(source, "permission denied");
        }
        other => panic!("{other:?}"),
    }
    assert!(matches!(
        query(Ran::Exited(exited(true, b"", b""))),
        Lookup::Done(Ok(RegOutput { success: true, .. }))
    ));
}

#[test]
fn the_fallback_names_the_path_it_tried() {
    let path = "/mnt/c/Windows/System32/reg.exe".to_string();
    match query_fallback(path.clone(), Ran::NotFound("gone".into())) {
        Err(Error::Spawn { program, source }) => {
            assert_eq!(program, path);
            assert_eq!(source, "gone");
        }
        other => panic!("{other:?}"),
    }
    assert!(query_fallback(path, Ran::Exited(exited(true, b"", b""))).is_ok());
}

#[test]
fn reg_exe_is_found_through_the_mounts() {
    match reg_exe(Ok(WSL2_MOUNTS.to_string())) {
        Ok(path) => assert_eq!(path, "/mnt/c/Windows/System32/reg.exe"),
        other => panic!("{other:?}"),
    }
    assert!(matches!(reg_exe(Ok("proc /proc proc rw 0 0\n".into())), Err(Error::NoDrive)));
    match reg_exe(Err("permission denied".into())) {
        Err(Error::Mounts(why)) => assert_eq!(why, "permission denied"),
        other => panic!("{other:?}"),
    }
}

#[test]
fn reg_exe_is_asked_for_the_one_value() {
    assert_eq!(query_args(), vec!["query", KEY, "/v", VALUE]);
    assert_eq!(
        KEY,
        r"HKCU\Software\Microsoft\Windows\CurrentVersion\Themes\Personalize"
    );
}

#[test]
fn each_wsl_error_says_what_failed() {
    let spawn = Error::Spawn { program: "reg.exe".into(), source: "denied".into() };
    assert_eq!(spawn.message(), "could not run `reg.exe`: denied");
    assert_eq!(
        Error::Mounts("denied".into()).message(),
        "`reg.exe` is not on PATH, and /proc/mounts could not be read to find it: denied"
    );
    let query = Error::Query { status: "exit status: 1".into(), stderr: "ERROR".into() };
    assert_eq!(
        query.message(),
        format!("`reg.exe query {KEY} /v {VALUE}` exited with exit status: 1: ERROR")
    );
    let missing = Error::Missing { output: "nothing".into() };
    assert_eq!(missing.message(), format!("`reg.exe` printed no {VALUE} value:\nnothing"));
    let unexpected = Error::Unexpected { value: "0x2".into() };
    assert_eq!(
        unexpected.message(),
        format!("{VALUE} is 0x2, which is neither 0x0 (dark) nor 0x1 (light)")
    );
}

/// The escapes as the kernel writes them: a backslash and three base-8 digits.
fn unescape_by_std(field: &str) -> String {
    let mut out = String::new();
    let mut rest = field.chars();
    while let Some(character) = rest.next() {
        if character != '\\' {
            out.push(character);
            continue;
        }
        let octal: String = rest.clone().take(3).collect();
        let digits = octal.chars().filter(|c| ('0'..='7').contains(c)).count();
        match u8::from_str_radix(&octal, 8) {
            Ok(byte) if octal.len() == 3 && digits == 3 => {
                out.push(char::from(byte));
                let _ = rest.nth(2);
            }
            _ => out.push('\\'),
        }
    }
    out
}

#[test]
fn every_short_escape_reads_as_the_kernel_writes_it() {
    let alphabet = ['0', '1', '3', '4', '7', '8', '+', '-', 'a', '\\', ' ', 'é'];
    for a in alphabet {
        for b in alphabet {
            for c in alphabet {
                for tail in ["", "x", "\\1"] {
                    let field = format!("\\{a}{b}{c}{tail}");
                    assert_eq!(unescape(&field), unescape_by_std(&field), "{field:?}");
                    let short = format!("{a}\\{b}{c}");
                    assert_eq!(unescape(&short), unescape_by_std(&short), "{short:?}");
                }
            }
        }
    }
}

#[test]
fn every_short_datum_reads_as_base16_digits() {
    let alphabet = ["0", "1", "f", "F", "g", "+", "-", "x", "00000000", "ffffffff"];
    let mut data = vec![String::new()];
    for _ in 0..3 {
        let longer: Vec<String> = data
            .iter()
            .flat_map(|d| alphabet.iter().map(move |a| format!("{d}{a}")))
            .collect();
        data.extend(longer);
    }
    for datum in data {
        let expected = match datum
            .strip_prefix("0x")
            .filter(|hex| hex.chars().all(|c| c.is_ascii_hexdigit()))
            .and_then(|hex| u32::from_str_radix(hex, 16).ok())
        {
            Some(0) => Some(Mode::Dark),
            Some(1) => Some(Mode::Light),
            _ => None,
        };
        let got = parse(&capture(&datum)).ok();
        assert_eq!(got, expected, "{datum:?}");
        let prefixed = format!("0x{datum}");
        let digits_only = datum.chars().all(|c| c.is_ascii_hexdigit());
        let expected = match u32::from_str_radix(&datum, 16).ok().filter(|_| digits_only) {
            Some(0) => Some(Mode::Dark),
            Some(1) => Some(Mode::Light),
            _ => None,
        };
        let got = if prefixed.split_whitespace().count() == 1 {
            parse(&capture(&prefixed)).ok()
        } else {
            expected
        };
        assert_eq!(got, expected, "{prefixed:?}");
    }
}

#[test]
fn line_endings_padding_and_blank_lines_change_nothing() {
    let crlf = capture("0x1");
    let lf = format!("{VALUE} REG_DWORD 0x1\n");
    let padded = format!("\n\n   \t{VALUE}\t\t  REG_DWORD 0x1   \r\n\r\n\n");
    for output in [crlf.as_str(), lf.as_str(), padded.as_str()] {
        assert!(matches!(parse(output), Ok(Mode::Light)), "{output:?}");
    }
    let unexpected = [
        format!("{VALUE} REG_DWORD 0x+1\r\n"),
        format!("\n  {VALUE}   REG_DWORD\t0x+1\n\n"),
    ];
    for output in unexpected {
        match parse(&output) {
            Err(Error::Unexpected { value }) => assert_eq!(value, "0x+1"),
            other => panic!("{other:?}"),
        }
    }
}

#[test]
fn an_unreadable_release_is_not_wsl() {
    assert!(active(Ok("6.6.87.2-microsoft-standard-WSL2\n".into())));
    assert!(!active(Ok("6.8.0-generic\n".into())));
    assert!(!active(Err("No such file or directory".into())));
}
