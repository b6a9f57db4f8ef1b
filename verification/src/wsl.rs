//! Reading the Windows theme from inside WSL.
//!
//! The process work (reading `/proc`, running `reg.exe`) is done by the caller;
//! this module decides what each result means.
use vstd::prelude::*;

use crate::std_calls::{decode_lossy, lossy_text};
use crate::text::{
    chars_of, contains, contains_chars, eq_ignore_ascii_case, fields, fields_of, find_map,
    lemma_find_map_step, lines, lines_of, lower, same, string_of, to_ascii_lowercase, trim,
    trimmed, views,
};
use crate::Mode;

verus! {

/// Where the kernel release string is read from.
pub const OSRELEASE: &'static str = "/proc/sys/kernel/osrelease";

/// Where the Windows drives are found, whatever they are mounted on.
pub const MOUNTS: &'static str = "/proc/mounts";

/// The program queried first, found through PATH.
pub const REG_EXE: &'static str = "reg.exe";

/// The registry key `dark_light`'s own Windows backend reads.
pub const KEY: &'static str = "HKCU\\Software\\Microsoft\\Windows\\CurrentVersion\\Themes\\Personalize";

/// The registry value under [`KEY`] that holds the theme.
pub const VALUE: &'static str = "AppsUseLightTheme";

/// Whether a kernel release string is WSL's: it names `microsoft` in any case.
pub fn is_wsl(osrelease: &str) -> (wsl: bool)
    ensures
        wsl == contains(lower(osrelease@), "microsoft"@),
{
    let release = to_ascii_lowercase(&chars_of(osrelease));
    contains_chars(&release, &chars_of("microsoft"))
}

/// Whether this process runs under WSL, from what reading the kernel release
/// file gave: its text, or why it could not be read. A release that could not
/// be read is not WSL's.
pub fn active(osrelease: Result<String, String>) -> (wsl: bool)
    ensures
        wsl == (osrelease matches Ok(release) && contains(lower(release@), "microsoft"@)),
{
    match osrelease {
        Ok(release) => is_wsl(release.as_str()),
        Err(_) => false,
    }
}

/// Whether `c` is a digit of base 8.
pub open spec fn is_octal(c: char) -> bool {
    '0' <= c && c <= '7'
}

/// The value of the base-8 digit `c`.
pub open spec fn octal_value(c: char) -> int {
    (c as u32) - ('0' as u32)
}

/// The byte that an octal escape writes with the three characters `a`, `b`,
/// `c`: three base-8 digits of a value up to 0o377; `None` for anything else.
pub open spec fn octal_byte(a: char, b: char, c: char) -> Option<u8> {
    if is_octal(a) && is_octal(b) && is_octal(c) && 64 * octal_value(a) + 8 * octal_value(b)
        + octal_value(c) <= 255 {
        Some((64 * octal_value(a) + 8 * octal_value(b) + octal_value(c)) as u8)
    } else {
        None
    }
}

/// `s` with `/proc/mounts`'s octal escapes undone: a backslash followed by three
/// base-8 digits of a value up to 0o377 stands for the character of that byte;
/// any other backslash stands for itself.
pub open spec fn unescaped(s: Seq<char>) -> Seq<char>
    decreases s.len(),
{
    if s.len() == 0 {
        Seq::empty()
    } else if s[0] == '\\' && s.len() >= 4 && octal_byte(s[1], s[2], s[3]) is Some {
        seq![(octal_byte(s[1], s[2], s[3]).unwrap() as char)] + unescaped(s.skip(4))
    } else {
        seq![s[0]] + unescaped(s.drop_first())
    }
}

fn octal_char(a: char, b: char, c: char) -> (r: Option<char>)
    ensures
        r == (match octal_byte(a, b, c) {
            Some(v) => Some(v as char),
            None => None,
        }),
{
    let octal = |x: char| -> (o: bool)
        ensures
            o == is_octal(x),
        { '0' <= x && x <= '7' };
    if octal(a) && octal(b) && octal(c) {
        let v: u32 = 64 * ((a as u32) - ('0' as u32)) + 8 * ((b as u32) - ('0' as u32)) + ((c as u32)
            - ('0' as u32));
        if v <= 255 {
            return Some((v as u8) as char);
        }
    }
    None
}

/// Whether the kernel writes `c` escaped in `/proc/mounts`: space, tab,
/// newline and backslash.
pub open spec fn kernel_escapes(c: char) -> bool {
    c == ' ' || c == '\t' || c == '\n' || c == '\\'
}

/// The three base-8 digits that the kernel writes after a backslash for `c`.
pub open spec fn octal_of(c: char) -> Seq<char> {
    if c == ' ' {
        seq!['0', '4', '0']
    } else if c == '\t' {
        seq!['0', '1', '1']
    } else if c == '\n' {
        seq!['0', '1', '2']
    } else {
        seq!['1', '3', '4']
    }
}

/// `s` as the kernel writes it into a field of `/proc/mounts`.
pub open spec fn kernel_escaped(s: Seq<char>) -> Seq<char>
    decreases s.len(),
{
    if s.len() == 0 {
        Seq::empty()
    } else if kernel_escapes(s[0]) {
        seq!['\\'] + octal_of(s[0]) + kernel_escaped(s.drop_first())
    } else {
        seq![s[0]] + kernel_escaped(s.drop_first())
    }
}

/// Unescaping undoes the kernel's escaping: a field read back from
/// `/proc/mounts` is the text the kernel was given.
pub proof fn lemma_unescape_undoes_kernel_escape(s: Seq<char>)
    ensures
        unescaped(kernel_escaped(s)) == s,
    decreases s.len(),
{
    if s.len() > 0 {
        let c = s[0];
        let rest = s.drop_first();
        lemma_unescape_undoes_kernel_escape(rest);
        let e = kernel_escaped(s);
        if kernel_escapes(c) {
            assert(e =~= seq!['\\', octal_of(c)[0], octal_of(c)[1], octal_of(c)[2]] + kernel_escaped(rest));
            assert(e.skip(4) =~= kernel_escaped(rest));
            if c == ' ' {
                assert(octal_byte('0', '4', '0') == Some(32u8));
                assert((32u8 as char) == ' ');
            } else if c == '\t' {
                assert(octal_byte('0', '1', '1') == Some(9u8));
                assert((9u8 as char) == '\t');
            } else if c == '\n' {
                assert(octal_byte('0', '1', '2') == Some(10u8));
                assert((10u8 as char) == '\n');
            } else {
                assert(octal_byte('1', '3', '4') == Some(92u8));
                assert((92u8 as char) == '\\');
            }
            assert(unescaped(e) =~= seq![c] + rest);
        } else {
            assert(e =~= seq![c] + kernel_escaped(rest));
            assert(e.drop_first() =~= kernel_escaped(rest));
            assert(unescaped(e) =~= seq![c] + rest);
        }
        assert(s =~= seq![c] + rest);
    }
}

/// Whether no backslash of `s` starts an escape.
pub open spec fn no_escape(s: Seq<char>) -> bool {
    forall|i: int|
        0 <= i && i + 3 < s.len() && #[trigger] s[i] == '\\' ==> octal_byte(
            s[i + 1],
            s[i + 2],
            s[i + 3],
        ) is None
}

/// A backslash that does not start an escape stays as it is, so a field that
/// the kernel did not escape at all reads the same.
pub proof fn lemma_unescape_keeps_unescaped_text(s: Seq<char>)
    requires
        no_escape(s),
    ensures
        unescaped(s) == s,
    decreases s.len(),
{
    if s.len() > 0 {
        let rest = s.drop_first();
        assert forall|i: int|
            0 <= i && i + 3 < rest.len() && #[trigger] rest[i] == '\\' implies octal_byte(
            rest[i + 1],
            rest[i + 2],
            rest[i + 3],
        ) is None by {
            assert(s[i + 1] == rest[i]);
        }
        lemma_unescape_keeps_unescaped_text(rest);
        if s.len() >= 4 && s[0] == '\\' {
            assert(octal_byte(s[1], s[2], s[3]) is None);
        }
        assert(s =~= seq![s[0]] + rest);
    }
}

/// Undoes the octal escapes in the characters of a field.
pub fn unescape_chars(field: &Vec<char>) -> (out: Vec<char>)
    ensures
        out@ == unescaped(field@),
{
    let n = field.len();
    let mut out: Vec<char> = Vec::new();
    let mut i: usize = 0;
    assert(field@.skip(0) =~= field@);
    while i < n
        invariant
            n == field.len(),
            i <= n,
            unescaped(field@) == out@ + unescaped(field@.skip(i as int)),
        decreases n - i,
    {
        let rest = Ghost(field@.skip(i as int));
        let c = field[i];
        if c == '\\' && n - i >= 4 {
            match octal_char(field[i + 1], field[i + 2], field[i + 3]) {
                Some(b) => {
                    assert(rest@.skip(4) =~= field@.skip(i + 4));
                    out.push(b);
                    assert(unescaped(rest@) == seq![b] + unescaped(field@.skip(i + 4)));
                    assert(unescaped(field@) =~= out@ + unescaped(field@.skip(i + 4)));
                    i = i + 4;
                    continue;
                },
                None => {},
            }
        }
        assert(rest@.drop_first() =~= field@.skip(i + 1));
        out.push(c);
        assert(unescaped(field@) =~= out@ + unescaped(field@.skip(i + 1)));
        i = i + 1;
    }
    assert(field@.skip(n as int) =~= Seq::<char>::empty());
    assert(out@ =~= out@ + Seq::<char>::empty());
    out
}

/// Undoes `/proc/mounts`'s octal escaping. A backslash that does not start one
/// stays as it is, so a kernel that did not escape at all reads the same.
pub fn unescape(field: &str) -> (out: String)
    ensures
        out@ == unescaped(field@),
{
    string_of(&unescape_chars(&chars_of(field)))
}

/// The drive Windows is installed on, as `/proc/mounts` names it once
/// unescaped; compared without regard to ASCII case.
pub open spec fn windows_drive() -> Seq<char> {
    seq!['C', ':', '\\']
}

/// The mount point that one line of `/proc/mounts` gives the Windows drive:
/// the line's second field, unescaped, when its first field, unescaped, is
/// the drive.
pub open spec fn drive_point(line: Seq<char>) -> Option<Seq<char>> {
    let f = fields(line);
    if f.len() >= 2 && lower(unescaped(f[0])) == lower(windows_drive()) {
        Some(unescaped(f[1]))
    } else {
        None
    }
}

/// [`drive_point`] as a value, for searches over lines.
pub open spec fn drive_finder() -> spec_fn(Seq<char>) -> Option<Seq<char>> {
    |line: Seq<char>| drive_point(line)
}

/// Where `/proc/mounts` says the Windows drive is mounted: the point that the
/// first line naming the drive gives.
pub open spec fn mount_point(mounts: Seq<char>) -> Option<Seq<char>> {
    find_map(lines(mounts), drive_finder())
}

/// The mount point is read only from a line that names the C: drive: the
/// second field, unescaped, of the first line with two fields or more whose
/// first field, unescaped, is `c:\` once ASCII case is ignored. Where no line
/// names the drive there is no mount point.
pub proof fn lemma_mount_point_is_the_c_drive(m: Seq<char>)
    ensures
        mount_point(m) matches Some(p) ==> exists|i: int|
            0 <= i < lines(m).len() && fields(#[trigger] lines(m)[i]).len() >= 2 && lower(
                unescaped(fields(lines(m)[i])[0]),
            ) == seq!['c', ':', '\\'] && p == unescaped(fields(lines(m)[i])[1]) && forall|j: int|
                0 <= j < i ==> !(fields(#[trigger] lines(m)[j]).len() >= 2 && lower(
                    unescaped(fields(lines(m)[j])[0]),
                ) == seq!['c', ':', '\\']),
        mount_point(m) is None ==> forall|i: int|
            0 <= i < lines(m).len() ==> !(fields(#[trigger] lines(m)[i]).len() >= 2 && lower(
                unescaped(fields(lines(m)[i])[0]),
            ) == seq!['c', ':', '\\']),
{
    let ls = lines(m);
    let c = seq!['c', ':', '\\'];
    crate::text::lemma_find_map_first(ls, drive_finder());
    assert(lower(windows_drive()) =~= c);
    assert forall|j: int| 0 <= j < ls.len() implies ((drive_finder())(ls[j]) is None <==> !(
    fields(ls[j]).len() >= 2 && lower(unescaped(fields(ls[j])[0])) == c)) by {}
    if let Some(p) = mount_point(m) {
        let i = choose|i: int|
            0 <= i < ls.len() && #[trigger] (drive_finder())(ls[i]) == Some(p) && forall|j: int|
                0 <= j < i ==> #[trigger] (drive_finder())(ls[j]) is None;
        assert(drive_point(ls[i]) == Some(p));
        assert forall|j: int| 0 <= j < i implies !(fields(#[trigger] lines(m)[j]).len() >= 2
            && lower(unescaped(fields(lines(m)[j])[0])) == c) by {
            assert((drive_finder())(ls[j]) is None);
        }
        assert(fields(lines(m)[i]).len() >= 2);
    } else {
        assert forall|i: int| 0 <= i < lines(m).len() implies !(fields(#[trigger] lines(m)[i]).len()
            >= 2 && lower(unescaped(fields(lines(m)[i])[0])) == c) by {
            assert((drive_finder())(ls[i]) is None);
        }
    }
}

/// The text of an optional string.
pub open spec fn opt_view(o: Option<String>) -> Option<Seq<char>> {
    match o {
        Some(s) => Some(s@),
        None => None,
    }
}

/// Where `/proc/mounts` says the Windows drive is mounted.
///
/// The kernel escapes space, tab, newline and backslash as octal in both
/// fields, so `C:\` is written `C:\134` and a mount point with a space in it
/// carries `\040`.
pub fn drive_mount(mounts: &str) -> (point: Option<String>)
    ensures
        opt_view(point) == mount_point(mounts@),
        point matches Some(p) ==> exists|i: int|
            0 <= i < lines(mounts@).len() && fields(#[trigger] lines(mounts@)[i]).len() >= 2
                && lower(unescaped(fields(lines(mounts@)[i])[0])) == seq!['c', ':', '\\'] && p@
                == unescaped(fields(lines(mounts@)[i])[1]) && forall|j: int|
                0 <= j < i ==> !(fields(#[trigger] lines(mounts@)[j]).len() >= 2 && lower(
                    unescaped(fields(lines(mounts@)[j])[0]),
                ) == seq!['c', ':', '\\']),
        point is None ==> forall|i: int|
            0 <= i < lines(mounts@).len() ==> !(fields(#[trigger] lines(mounts@)[i]).len() >= 2
                && lower(unescaped(fields(lines(mounts@)[i])[0])) == seq!['c', ':', '\\']),
{
    let ls = lines_of(&chars_of(mounts));
    let drive: Vec<char> = vec!['C', ':', '\\'];
    assert(drive@ =~= windows_drive());
    let ghost all = views(ls@);
    assert(all.skip(0) =~= all);
    for k in 0..ls.len()
        invariant
            all == views(ls@),
            all == lines(mounts@),
            drive@ == windows_drive(),
            find_map(all, drive_finder()) == find_map(all.skip(k as int), drive_finder()),
    {
        proof {
            lemma_find_map_step(all, drive_finder(), k as int);
        }
        let fs = fields_of(&ls[k]);
        assert(all[k as int] == ls@[k as int]@);
        if fs.len() >= 2 {
            assert(views(fs@)[0] == fs@[0]@ && views(fs@)[1] == fs@[1]@);
            let source = unescape_chars(&fs[0]);
            if eq_ignore_ascii_case(&source, &drive) {
                let point = string_of(&unescape_chars(&fs[1]));
                assert(fields(all[k as int]) == views(fs@));
                assert(drive_point(all[k as int]) == Some(point@));
                assert((drive_finder())(all[k as int]) == Some(point@));
                proof {
                    lemma_mount_point_is_the_c_drive(mounts@);
                }
                return Some(point);
            }
        }
    }
    assert(all.skip(ls.len() as int) =~= Seq::<Seq<char>>::empty());
    proof {
        lemma_mount_point_is_the_c_drive(mounts@);
    }
    None
}

/// The separator that `Path::join` puts between `point` and a relative path:
/// none where `point` is empty or already ends in `/`.
pub open spec fn separator(point: Seq<char>) -> Seq<char> {
    if point.len() > 0 && point.last() != '/' {
        "/"@
    } else {
        Seq::empty()
    }
}

/// `<point>/Windows/System32/reg.exe`, joined the way `Path::join` joins.
pub open spec fn reg_exe_path(point: Seq<char>) -> Seq<char> {
    point + separator(point) + "Windows/System32"@ + "/reg.exe"@
}

/// Joining puts exactly one `/` between a mount point and `Windows`, however
/// short the point: one is added after a point that does not end in `/`, none
/// after one that does, and none where there is no point at all.
pub proof fn lemma_one_separator(point: Seq<char>)
    ensures
        point.len() > 0 && point.last() != '/' ==> reg_exe_path(point) == point + "/"@
            + "Windows/System32"@ + "/reg.exe"@,
        point.len() > 0 && point.last() == '/' ==> reg_exe_path(point) == point
            + "Windows/System32"@ + "/reg.exe"@,
        point.len() == 0 ==> reg_exe_path(point) == "Windows/System32"@ + "/reg.exe"@,
{
    if point.len() == 0 {
        assert(point + Seq::<char>::empty() =~= point);
        assert(point + "Windows/System32"@ =~= "Windows/System32"@);
    } else if point.last() == '/' {
        assert(point + Seq::<char>::empty() =~= point);
    }
}

/// `/mnt/c/Windows/System32/reg.exe`, for a drive mounted at `/mnt/c`.
pub fn reg_exe_under(point: &str) -> (path: String)
    ensures
        path@ == reg_exe_path(point@),
        point@.len() > 0 && point@.last() != '/' ==> path@ == point@ + "/"@ + "Windows/System32"@
            + "/reg.exe"@,
        point@.len() > 0 && point@.last() == '/' ==> path@ == point@ + "Windows/System32"@
            + "/reg.exe"@,
        point@.len() == 0 ==> path@ == "Windows/System32"@ + "/reg.exe"@,
{
    proof {
        lemma_one_separator(point@);
    }
    let p = chars_of(point);
    let mut path = string_of(&p);
    if p.len() > 0 && p[p.len() - 1] != '/' {
        path.append("/");
    }
    path.append("Windows/System32");
    path.append("/reg.exe");
    path
}

/// Why the Windows theme could not be read through WSL interop.
#[derive(Debug)]
pub enum Error {
    /// A program could not be started; `source` says why.
    Spawn { program: String, source: String },
    /// `reg.exe` is not on PATH and `/proc/mounts` could not be read; says why.
    Mounts(String),
    /// `reg.exe` is not on PATH and `/proc/mounts` names no Windows drive.
    NoDrive,
    /// `reg.exe` refused the query.
    Query { status: String, stderr: String },
    /// `reg.exe` printed no line with the value.
    Missing { output: String },
    /// The value's data is neither of the two documented values.
    Unexpected { value: String },
}

impl Error {
    /// The sentence that says what went wrong.
    pub open spec fn spec_message(&self) -> Seq<char> {
        match self {
            Error::Spawn { program, source } => "could not run `"@ + program@ + "`: "@ + source@,
            Error::Mounts(source) => "`reg.exe` is not on PATH, and "@ + MOUNTS@
                + " could not be read to find it: "@ + source@,
            Error::NoDrive => "`reg.exe` is not on PATH, and "@ + MOUNTS@
                + " lists no Windows drive to find it under"@,
            Error::Query { status, stderr } => "`reg.exe query "@ + KEY@ + " /v "@ + VALUE@
                + "` exited with "@ + status@ + ": "@ + stderr@,
            Error::Missing { output } => "`reg.exe` printed no "@ + VALUE@ + " value:\n"@
                + output@,
            Error::Unexpected { value } => VALUE@ + " is "@ + value@
                + ", which is neither 0x0 (dark) nor 0x1 (light)"@,
        }
    }

    /// Says what went wrong, in one sentence.
    pub fn message(&self) -> (m: String)
        ensures
            m@ == self.spec_message(),
    {
        match self {
            Error::Spawn { program, source } => {
                let mut m = String::from_str("could not run `");
                m.append(program.as_str());
                m.append("`: ");
                m.append(source.as_str());
                m
            },
            Error::Mounts(source) => {
                let mut m = String::from_str("`reg.exe` is not on PATH, and ");
                m.append(MOUNTS);
                m.append(" could not be read to find it: ");
                m.append(source.as_str());
                m
            },
            Error::NoDrive => {
                let mut m = String::from_str("`reg.exe` is not on PATH, and ");
                m.append(MOUNTS);
                m.append(" lists no Windows drive to find it under");
                m
            },
            Error::Query { status, stderr } => {
                let mut m = String::from_str("`reg.exe query ");
                m.append(KEY);
                m.append(" /v ");
                m.append(VALUE);
                m.append("` exited with ");
                m.append(status.as_str());
                m.append(": ");
                m.append(stderr.as_str());
                m
            },
            Error::Missing { output } => {
                let mut m = String::from_str("`reg.exe` printed no ");
                m.append(VALUE);
                m.append(" value:\n");
                m.append(output.as_str());
                m
            },
            Error::Unexpected { value } => {
                let mut m = String::from_str(VALUE);
                m.append(" is ");
                m.append(value.as_str());
                m.append(", which is neither 0x0 (dark) nor 0x1 (light)");
                m
            },
        }
    }
}

/// Whether `c` is a digit of base 16, in either case.
pub open spec fn is_hex_digit(c: char) -> bool {
    ||| ('0' <= c && c <= '9')
    ||| ('a' <= c && c <= 'f')
    ||| ('A' <= c && c <= 'F')
}

/// The value of the base-16 digit `c`.
pub open spec fn hex_digit_value(c: char) -> nat {
    if '0' <= c && c <= '9' {
        ((c as u32) - ('0' as u32)) as nat
    } else if 'a' <= c && c <= 'f' {
        ((c as u32) - ('a' as u32) + 10) as nat
    } else {
        ((c as u32) - ('A' as u32) + 10) as nat
    }
}

/// The number that the base-16 digits of `s` write.
pub open spec fn hex_value(s: Seq<char>) -> nat
    decreases s.len(),
{
    if s.len() == 0 {
        0
    } else {
        hex_value(s.drop_last()) * 16 + hex_digit_value(s.last())
    }
}

/// Whether every character of `s` is a base-16 digit.
pub open spec fn all_hex(s: Seq<char>) -> bool {
    forall|i: int| 0 <= i < s.len() ==> #[trigger] is_hex_digit(s[i])
}

/// The number that `s` writes in base 16: one or more base-16 digits and
/// nothing else; `None` for any other text.
pub open spec fn hex_number(s: Seq<char>) -> Option<nat> {
    if s.len() > 0 && all_hex(s) {
        Some(hex_value(s))
    } else {
        None
    }
}

/// A longer run of digits never writes a smaller number.
pub proof fn lemma_hex_value_grows(s: Seq<char>, k: int)
    requires
        0 <= k <= s.len(),
    ensures
        hex_value(s.take(k)) <= hex_value(s),
    decreases s.len(),
{
    if k < s.len() {
        lemma_hex_value_grows(s.drop_last(), k);
        assert(s.drop_last().take(k) =~= s.take(k));
    } else {
        assert(s.take(k) =~= s);
    }
}

fn hex_digit(c: char) -> (d: Option<u64>)
    ensures
        d is Some == is_hex_digit(c),
        d matches Some(v) ==> v == hex_digit_value(c),
{
    if '0' <= c && c <= '9' {
        Some((c as u64) - ('0' as u64))
    } else if 'a' <= c && c <= 'f' {
        Some((c as u64) - ('a' as u64) + 10)
    } else if 'A' <= c && c <= 'F' {
        Some((c as u64) - ('A' as u64) + 10)
    } else {
        None
    }
}

/// Reads `s` from `start` on as a base-16 number. `None` where it is not one,
/// or where it is one above `u32::MAX`.
pub fn from_hex(s: &Vec<char>, start: usize) -> (r: Option<u32>)
    requires
        start <= s.len(),
    ensures
        r matches Some(v) ==> hex_number(s@.skip(start as int)) == Some(v as nat),
        r is None ==> match hex_number(s@.skip(start as int)) {
            Some(v) => v > u32::MAX,
            None => true,
        },
{
    let n = s.len();
    let ghost digits = s@.skip(start as int);
    if start == n {
        return None;
    }
    let mut i = start;
    let mut v: u64 = 0;
    assert(s@.subrange(start as int, start as int) =~= Seq::<char>::empty());
    while i < n
        invariant
            start <= i <= n,
            start < n,
            n == s.len(),
            digits == s@.skip(start as int),
            v as nat == hex_value(s@.subrange(start as int, i as int)),
            v <= u32::MAX,
            forall|j: int| start <= j < i ==> #[trigger] is_hex_digit(s@[j]),
        decreases n - i,
    {
        let ghost done = s@.subrange(start as int, i + 1);
        assert(done.drop_last() =~= s@.subrange(start as int, i as int));
        assert(done =~= digits.take(i + 1 - start));
        match hex_digit(s[i]) {
            None => {
                assert(!is_hex_digit(digits[i - start]));
                return None;
            },
            Some(d) => {
                let w = v * 16 + d;
                if w > 4294967295 {
                    proof {
                        lemma_hex_value_grows(digits, i + 1 - start);
                    }
                    return None;
                }
                v = w;
            },
        }
        i = i + 1;
    }
    assert(s@.subrange(start as int, n as int) =~= digits);
    Some(v as u32)
}

/// The mode that the data of the value stands for: `0x` and then base-16
/// digits, and nothing else, that write 0 (dark) or 1 (light).
pub open spec fn data_mode(data: Seq<char>) -> Option<Mode> {
    if data.len() >= 2 && data[0] == '0' && data[1] == 'x' {
        match hex_number(data.skip(2)) {
            Some(v) => if v == 0 {
                Some(Mode::Dark)
            } else if v == 1 {
                Some(Mode::Light)
            } else {
                None
            },
            None => None,
        }
    } else {
        None
    }
}

/// The data of the value that one line of `reg.exe` output gives: the line's
/// last field, when its first field names the value and another follows.
pub open spec fn value_data(line: Seq<char>) -> Option<Seq<char>> {
    let f = fields(line);
    if f.len() >= 2 && f[0] == VALUE@ {
        Some(f.last())
    } else {
        None
    }
}

/// [`value_data`] as a value, for searches over lines.
pub open spec fn value_finder() -> spec_fn(Seq<char>) -> Option<Seq<char>> {
    |line: Seq<char>| value_data(line)
}

/// The data that the first line naming the value gives.
pub open spec fn reported_data(output: Seq<char>) -> Option<Seq<char>> {
    find_map(lines(output), value_finder())
}

/// What [`parse`] answers for `output`: the mode that the first line naming
/// the value gives; `Missing`, carrying the output trimmed, where no line names
/// it; `Unexpected`, carrying the data, where the data is no mode.
pub open spec fn parsed(output: Seq<char>, r: Result<Mode, Error>) -> bool {
    match reported_data(output) {
        None => r matches Err(Error::Missing { output: o }) && o@ == trim(output),
        Some(d) => match data_mode(d) {
            Some(m) => r == Ok::<Mode, Error>(m),
            None => r matches Err(Error::Unexpected { value }) && value@ == d,
        },
    }
}

fn read_data(data: &Vec<char>) -> (r: Result<Mode, Error>)
    ensures
        match data_mode(data@) {
            Some(m) => r == Ok::<Mode, Error>(m),
            None => r matches Err(Error::Unexpected { value }) && value@ == data@,
        },
{
    if data.len() >= 2 && data[0] == '0' && data[1] == 'x' {
        match from_hex(data, 2) {
            Some(0) => return Ok(Mode::Dark),
            Some(1) => return Ok(Mode::Light),
            _ => {},
        }
    }
    Err(Error::Unexpected { value: string_of(data) })
}

/// Parsing reads the mode only from the first line that names the value with
/// data after it: that data is `0x` and then base-16 digits alone, writing 0
/// for dark and 1 for light. Output with no such line is `Missing`.
pub proof fn lemma_parse_reads_the_value_line(output: Seq<char>, r: Result<Mode, Error>)
    requires
        parsed(output, r),
    ensures
        r matches Ok(m) ==> exists|i: int|
            0 <= i < lines(output).len() && fields(#[trigger] lines(output)[i]).len() >= 2
                && fields(lines(output)[i])[0] == VALUE@ && ({
                let d = fields(lines(output)[i]).last();
                &&& d.len() >= 3
                &&& d[0] == '0'
                &&& d[1] == 'x'
                &&& forall|k: int| 2 <= k < d.len() ==> #[trigger] is_hex_digit(d[k])
                &&& hex_value(d.skip(2)) == if m == Mode::Dark {
                    0nat
                } else {
                    1nat
                }
            }) && forall|j: int|
                0 <= j < i ==> !(fields(#[trigger] lines(output)[j]).len() >= 2 && fields(
                    lines(output)[j],
                )[0] == VALUE@),
        r matches Err(Error::Missing { .. }) <==> forall|i: int|
            0 <= i < lines(output).len() ==> !(fields(#[trigger] lines(output)[i]).len() >= 2
                && fields(lines(output)[i])[0] == VALUE@),
{
    let ls = lines(output);
    crate::text::lemma_find_map_first(ls, value_finder());
    assert forall|j: int| 0 <= j < ls.len() implies ((value_finder())(ls[j]) is None <==> !(
    fields(ls[j]).len() >= 2 && fields(ls[j])[0] == VALUE@)) by {}
    match reported_data(output) {
        Some(d) => {
            let i = choose|i: int|
                0 <= i < ls.len() && #[trigger] (value_finder())(ls[i]) == Some(d) && forall|j: int|
                    0 <= j < i ==> #[trigger] (value_finder())(ls[j]) is None;
            assert(value_data(ls[i]) == Some(d));
            assert forall|j: int| 0 <= j < i implies !(fields(#[trigger] lines(output)[j]).len()
                >= 2 && fields(lines(output)[j])[0] == VALUE@) by {
                assert((value_finder())(ls[j]) is None);
            }
            if let Ok(m) = r {
                let digits = d.skip(2);
                assert forall|k: int| 2 <= k < d.len() implies #[trigger] is_hex_digit(d[k]) by {
                    assert(d[k] == digits[k - 2]);
                }
            }
            assert(fields(ls[i]).len() >= 2);
            assert(!(forall|i: int|
                0 <= i < lines(output).len() ==> !(fields(#[trigger] lines(output)[i]).len() >= 2
                    && fields(lines(output)[i])[0] == VALUE@)));
        },
        None => {
            assert forall|i: int| 0 <= i < lines(output).len() implies !(fields(
                #[trigger] lines(output)[i],
            ).len() >= 2 && fields(lines(output)[i])[0] == VALUE@) by {
                assert((value_finder())(ls[i]) is None);
            }
        },
    }
}

/// Reads the mode out of `reg.exe query` output.
///
/// The output is CRLF, padded with blank lines, and separates the value name,
/// its type and its data with runs of spaces. Splitting on whitespace absorbs
/// all three.
pub fn parse(output: &str) -> (r: Result<Mode, Error>)
    ensures
        parsed(output@, r),
        r matches Ok(m) ==> exists|i: int|
            0 <= i < lines(output@).len() && fields(#[trigger] lines(output@)[i]).len() >= 2
                && fields(lines(output@)[i])[0] == VALUE@ && ({
                let d = fields(lines(output@)[i]).last();
                &&& d.len() >= 3
                &&& d[0] == '0'
                &&& d[1] == 'x'
                &&& forall|k: int| 2 <= k < d.len() ==> #[trigger] is_hex_digit(d[k])
                &&& hex_value(d.skip(2)) == if m == Mode::Dark {
                    0nat
                } else {
                    1nat
                }
            }) && forall|j: int|
                0 <= j < i ==> !(fields(#[trigger] lines(output@)[j]).len() >= 2 && fields(
                    lines(output@)[j],
                )[0] == VALUE@),
        r matches Err(Error::Missing { .. }) <==> forall|i: int|
            0 <= i < lines(output@).len() ==> !(fields(#[trigger] lines(output@)[i]).len() >= 2
                && fields(lines(output@)[i])[0] == VALUE@),
{
    let text = chars_of(output);
    let ls = lines_of(&text);
    let value = chars_of(VALUE);
    let ghost all = views(ls@);
    assert(all.skip(0) =~= all);
    for k in 0..ls.len()
        invariant
            all == views(ls@),
            all == lines(output@),
            text@ == output@,
            value@ == VALUE@,
            find_map(all, value_finder()) == find_map(all.skip(k as int), value_finder()),
    {
        proof {
            lemma_find_map_step(all, value_finder(), k as int);
        }
        let fs = fields_of(&ls[k]);
        assert(all[k as int] == ls@[k as int]@);
        assert(fields(all[k as int]) == views(fs@));
        if fs.len() >= 2 && same(&fs[0], &value) {
            let data = &fs[fs.len() - 1];
            assert(value_data(all[k as int]) == Some(data@));
            assert((value_finder())(all[k as int]) == Some(data@));
            let r = read_data(data);
            proof {
                lemma_parse_reads_the_value_line(output@, r);
            }
            return r;
        }
        assert(value_data(all[k as int]) is None);
    }
    assert(all.skip(ls.len() as int) =~= Seq::<Seq<char>>::empty());
    let r = Err(Error::Missing { output: string_of(&trimmed(&text)) });
    proof {
        lemma_parse_reads_the_value_line(output@, r);
    }
    r
}

/// The fields of each line of `ls` that has any, in order: what is left of
/// text once line endings, padding, runs of white space and blank lines are
/// set aside.
pub open spec fn field_rows(ls: Seq<Seq<char>>) -> Seq<Seq<Seq<char>>>
    decreases ls.len(),
{
    if ls.len() == 0 {
        Seq::empty()
    } else if fields(ls[0]).len() == 0 {
        field_rows(ls.drop_first())
    } else {
        seq![fields(ls[0])] + field_rows(ls.drop_first())
    }
}

/// The data that the first row naming the value gives: its last field, when
/// its first field is the value and another follows.
pub open spec fn first_row_data(rows: Seq<Seq<Seq<char>>>) -> Option<Seq<char>>
    decreases rows.len(),
{
    if rows.len() == 0 {
        None
    } else if rows[0].len() >= 2 && rows[0][0] == VALUE@ {
        Some(rows[0].last())
    } else {
        first_row_data(rows.drop_first())
    }
}

/// The data that `reg.exe` output reports depends on its rows of fields alone.
pub proof fn lemma_reported_data_by_rows(ls: Seq<Seq<char>>)
    ensures
        find_map(ls, value_finder()) == first_row_data(field_rows(ls)),
    decreases ls.len(),
{
    if ls.len() > 0 {
        lemma_reported_data_by_rows(ls.drop_first());
        assert((value_finder())(ls[0]) == value_data(ls[0]));
        if fields(ls[0]).len() != 0 {
            let rows = field_rows(ls);
            assert(rows[0] == fields(ls[0]));
            assert(rows.drop_first() =~= field_rows(ls.drop_first()));
        }
    }
}

/// Two `reg.exe` outputs with the same rows of fields parse alike: line
/// endings (CRLF or LF), padding, longer or shorter runs of white space
/// between fields and blank lines change nothing but the text that a
/// `Missing` error carries.
pub proof fn lemma_parse_sees_only_fields(
    o1: Seq<char>,
    o2: Seq<char>,
    r1: Result<Mode, Error>,
    r2: Result<Mode, Error>,
)
    requires
        field_rows(lines(o1)) == field_rows(lines(o2)),
        parsed(o1, r1),
        parsed(o2, r2),
    ensures
        r1 matches Ok(m) ==> r2 == Ok::<Mode, Error>(m),
        r1 matches Err(Error::Unexpected { value: v1 }) ==> (r2 matches Err(
            Error::Unexpected { value: v2 },
        ) && v1@ == v2@),
        r1 matches Err(Error::Missing { .. }) ==> r2 matches Err(Error::Missing { .. }),
        r2 is Ok || r2 matches Err(Error::Unexpected { .. }) || r2 matches Err(
            Error::Missing { .. },
        ),
{
    lemma_reported_data_by_rows(lines(o1));
    lemma_reported_data_by_rows(lines(o2));
    assert(reported_data(o1) == reported_data(o2));
}

/// Where `reg.exe` is, for a process whose PATH does not have it: under the
/// mount point of the Windows drive that `mounts`, the text of `/proc/mounts`
/// or why it could not be read, gives.
pub fn reg_exe(mounts: Result<String, String>) -> (path: Result<String, Error>)
    ensures
        match mounts {
            Err(why) => path == Err::<String, Error>(Error::Mounts(why)),
            Ok(text) => match mount_point(text@) {
                Some(point) => path matches Ok(p) && p@ == reg_exe_path(point),
                None => path matches Err(Error::NoDrive),
            },
        },
{
    match mounts {
        Err(why) => Err(Error::Mounts(why)),
        Ok(text) => match drive_mount(text.as_str()) {
            Some(point) => Ok(reg_exe_under(point.as_str())),
            None => Err(Error::NoDrive),
        },
    }
}

/// The arguments `reg.exe` is run with: `query <KEY> /v <VALUE>`.
pub fn query_args() -> (args: Vec<&'static str>)
    ensures
        args@.len() == 4,
        args@[0]@ == "query"@,
        args@[1]@ == KEY@,
        args@[2]@ == "/v"@,
        args@[3]@ == VALUE@,
{
    vec!["query", KEY, "/v", VALUE]
}

/// What one run of `reg.exe` printed and how it ended.
#[derive(Debug)]
pub struct RegOutput {
    /// Whether it exited successfully.
    pub success: bool,
    /// How it exited, as the exit status describes itself.
    pub status: String,
    pub stdout: Vec<u8>,
    pub stderr: Vec<u8>,
}

/// How one attempt to run a program went.
#[derive(Debug)]
pub enum Ran {
    /// It ran to its end.
    Exited(RegOutput),
    /// There is no such program; says why.
    NotFound(String),
    /// It could not be started for another reason; says why.
    Failed(String),
}

/// Where the query stands after its first attempt.
#[derive(Debug)]
pub enum Lookup {
    /// The query is over, with this outcome.
    Done(Result<RegOutput, Error>),
    /// `reg.exe` is not on PATH: look for it under the Windows drive, with
    /// [`reg_exe`], and run it from there.
    Fallback,
}

/// Judges the first attempt, `reg.exe` run from PATH. A program that is not
/// found sends the search to the Windows drive, since a `systemd --user` unit
/// does not inherit the Windows directories of a login shell's PATH; any other
/// failure ends the query.
pub fn query(ran: Ran) -> (next: Lookup)
    ensures
        match ran {
            Ran::Exited(out) => next == Lookup::Done(Ok(out)),
            Ran::NotFound(_) => next is Fallback,
            Ran::Failed(why) => next matches Lookup::Done(Err(Error::Spawn { program, source }))
                && program@ == REG_EXE@ && source == why,
        },
{
    match ran {
        Ran::Exited(out) => Lookup::Done(Ok(out)),
        Ran::NotFound(_) => Lookup::Fallback,
        Ran::Failed(why) => Lookup::Done(
            Err(Error::Spawn { program: String::from_str(REG_EXE), source: why }),
        ),
    }
}

/// Judges the second attempt, `reg.exe` run from `program`, the path that
/// [`reg_exe`] found: whatever stopped it from running ends the query.
pub fn query_fallback(program: String, ran: Ran) -> (out: Result<RegOutput, Error>)
    ensures
        match ran {
            Ran::Exited(o) => out == Ok::<RegOutput, Error>(o),
            Ran::NotFound(why) => out == Err::<RegOutput, Error>(
                Error::Spawn { program, source: why },
            ),
            Ran::Failed(why) => out == Err::<RegOutput, Error>(
                Error::Spawn { program, source: why },
            ),
        },
{
    match ran {
        Ran::Exited(o) => Ok(o),
        Ran::NotFound(why) => Err(Error::Spawn { program, source: why }),
        Ran::Failed(why) => Err(Error::Spawn { program, source: why }),
    }
}

/// What [`detect`] answers for the query's outcome: its error as it is; a
/// `Query` error, carrying the status and the trimmed error output, for a run
/// that did not succeed; else what [`parse`] reads from the output.
pub open spec fn detected(output: Result<RegOutput, Error>, r: Result<Mode, Error>) -> bool {
    match output {
        Err(e) => r == Err::<Mode, Error>(e),
        Ok(o) => if !o.success {
            r matches Err(Error::Query { status, stderr }) && status == o.status && stderr@ == trim(
                lossy_text(o.stderr@),
            )
        } else {
            parsed(lossy_text(o.stdout@), r)
        },
    }
}

/// Reading the theme never guesses: a query that failed is answered with
/// exactly its error, and a mode comes only from a run that succeeded and
/// printed a line naming the value with data that is that mode.
pub proof fn lemma_detect_never_guesses(output: Result<RegOutput, Error>, r: Result<Mode, Error>)
    requires
        detected(output, r),
    ensures
        output matches Err(e) ==> r == Err::<Mode, Error>(e),
        r matches Ok(m) ==> (output matches Ok(o) && (o.success && (reported_data(
            lossy_text(o.stdout@),
        ) matches Some(d) && data_mode(d) == Some(m)))),
{
}

/// Reads the Windows theme from what `reg.exe query` gave.
///
/// Fails when `reg.exe` could not be run, refused the query, or answered with
/// something that is not a mode. None of those is light.
pub fn detect(output: Result<RegOutput, Error>) -> (r: Result<Mode, Error>)
    ensures
        detected(output, r),
        output matches Err(e) ==> r == Err::<Mode, Error>(e),
        r matches Ok(m) ==> (output matches Ok(o) && (o.success && (reported_data(
            lossy_text(o.stdout@),
        ) matches Some(d) && data_mode(d) == Some(m)))),
{
    match output {
        Err(e) => Err(e),
        Ok(o) => {
            if !o.success {
                let stderr = decode_lossy(o.stderr.as_slice());
                let trimmed_stderr = string_of(&trimmed(&chars_of(stderr.as_str())));
                Err(Error::Query { status: o.status, stderr: trimmed_stderr })
            } else {
                let stdout = decode_lossy(o.stdout.as_slice());
                parse(stdout.as_str())
            }
        },
    }
}

} // verus!
