//! Character-level text handling: whitespace, lines, fields, trimming and
//! ASCII case, each stated over `Seq<char>` and computed over `Vec<char>`.
use vstd::prelude::*;

use crate::std_calls::push_char;

verus! {

/// Whether `c` has the Unicode `White_Space` property, the property that
/// `char::is_whitespace` tests.
pub open spec fn is_space(c: char) -> bool {
    ||| ('\u{9}' <= c && c <= '\u{d}')
    ||| c == ' '
    ||| c == '\u{85}'
    ||| c == '\u{a0}'
    ||| c == '\u{1680}'
    ||| ('\u{2000}' <= c && c <= '\u{200a}')
    ||| c == '\u{2028}'
    ||| c == '\u{2029}'
    ||| c == '\u{202f}'
    ||| c == '\u{205f}'
    ||| c == '\u{3000}'
}

/// Whether `c` is white space in the sense of `char::is_whitespace`.
pub fn is_whitespace(c: char) -> (b: bool)
    ensures
        b == is_space(c),
{
    ('\u{9}' <= c && c <= '\u{d}') || c == ' ' || c == '\u{85}' || c == '\u{a0}' || c
        == '\u{1680}' || ('\u{2000}' <= c && c <= '\u{200a}') || c == '\u{2028}' || c
        == '\u{2029}' || c == '\u{202f}' || c == '\u{205f}' || c == '\u{3000}'
}

/// `c` with an ASCII capital letter turned into its small letter; any other
/// character is left as it is.
pub open spec fn lower_char(c: char) -> char {
    if 'A' <= c && c <= 'Z' {
        ((c as u32) + 32) as char
    } else {
        c
    }
}

/// The text with every ASCII capital letter made small, as `to_ascii_lowercase` does.
pub open spec fn lower(s: Seq<char>) -> Seq<char> {
    s.map_values(|c: char| lower_char(c))
}

pub fn to_ascii_lowercase_char(c: char) -> (l: char)
    ensures
        l == lower_char(c),
{
    if 'A' <= c && c <= 'Z' {
        ((c as u8) + 32) as char
    } else {
        c
    }
}

pub fn to_ascii_lowercase(s: &Vec<char>) -> (l: Vec<char>)
    ensures
        l@ == lower(s@),
{
    let mut l: Vec<char> = Vec::new();
    for i in 0..s.len()
        invariant
            l@ == lower(s@.take(i as int)),
    {
        l.push(to_ascii_lowercase_char(s[i]));
        assert(lower(s@.take(i + 1)) =~= lower(s@.take(i as int)).push(lower_char(s@[i as int])));
    }
    assert(s@.take(s.len() as int) =~= s@);
    l
}

/// Whether two texts are equal once ASCII case is ignored.
pub fn eq_ignore_ascii_case(a: &Vec<char>, b: &Vec<char>) -> (e: bool)
    ensures
        e == (lower(a@) == lower(b@)),
{
    if a.len() != b.len() {
        assert(lower(a@).len() != lower(b@).len());
        return false;
    }
    for i in 0..a.len()
        invariant
            a.len() == b.len(),
            forall|j: int| 0 <= j < i ==> lower_char(#[trigger] a@[j]) == lower_char(b@[j]),
    {
        if to_ascii_lowercase_char(a[i]) != to_ascii_lowercase_char(b[i]) {
            assert(lower(a@)[i as int] != lower(b@)[i as int]);
            return false;
        }
    }
    assert(lower(a@) =~= lower(b@));
    true
}

/// Whether two texts are the same characters.
pub fn same(a: &Vec<char>, b: &Vec<char>) -> (e: bool)
    ensures
        e == (a@ == b@),
{
    if a.len() != b.len() {
        return false;
    }
    for i in 0..a.len()
        invariant
            a.len() == b.len(),
            forall|j: int| 0 <= j < i ==> #[trigger] a@[j] == b@[j],
    {
        if a[i] != b[i] {
            return false;
        }
    }
    assert(a@ =~= b@);
    true
}

/// The texts held by a vector of character vectors.
pub open spec fn views(v: Seq<Vec<char>>) -> Seq<Seq<char>> {
    v.map_values(|x: Vec<char>| x@)
}

/// Whether `pat` occurs in `s` as a run of consecutive characters.
pub open spec fn contains(s: Seq<char>, pat: Seq<char>) -> bool {
    exists|i: int| 0 <= i && i + pat.len() <= s.len() && #[trigger] s.subrange(i, i + pat.len()) == pat
}

fn occurs_at(s: &Vec<char>, pat: &Vec<char>, at: usize) -> (b: bool)
    requires
        at + pat.len() <= s.len(),
    ensures
        b == (s@.subrange(at as int, at + pat.len()) == pat@),
{
    for k in 0..pat.len()
        invariant
            at + pat.len() <= s.len(),
            forall|j: int| 0 <= j < k ==> #[trigger] pat@[j] == s@[at + j],
    {
        if s[at + k] != pat[k] {
            assert(s@.subrange(at as int, at + pat.len())[k as int] != pat@[k as int]);
            return false;
        }
    }
    assert(s@.subrange(at as int, at + pat.len()) =~= pat@);
    true
}

/// Whether `pat` occurs in `s`, as `str::contains` finds a pattern.
pub fn contains_chars(s: &Vec<char>, pat: &Vec<char>) -> (b: bool)
    ensures
        b == contains(s@, pat@),
{
    if pat.len() > s.len() {
        return false;
    }
    let last = s.len() - pat.len();
    let mut at: usize = 0;
    loop
        invariant
            last == s.len() - pat.len(),
            pat.len() <= s.len(),
            at <= last,
            forall|j: int|
                0 <= j < at ==> #[trigger] s@.subrange(j, j + pat.len()) != pat@,
        decreases last - at,
    {
        if occurs_at(s, pat, at) {
            return true;
        }
        if at == last {
            return false;
        }
        at = at + 1;
    }
}

/// The pieces of `s` between line feeds: one more piece than there are line
/// feeds. A piece keeps the carriage return of a CRLF ending, and an input that
/// ends in a line feed has an empty last piece; neither holds a field, so any
/// search by fields over these pieces agrees with one over `str::lines`.
pub open spec fn lines(s: Seq<char>) -> Seq<Seq<char>>
    decreases s.len(),
{
    if s.len() == 0 {
        seq![Seq::<char>::empty()]
    } else {
        let init = lines(s.drop_last());
        if s.last() == '\n' {
            init.push(Seq::<char>::empty())
        } else {
            init.update(init.len() - 1, init.last().push(s.last()))
        }
    }
}

pub proof fn lemma_lines_len(s: Seq<char>)
    ensures
        lines(s).len() >= 1,
    decreases s.len(),
{
    if s.len() > 0 {
        lemma_lines_len(s.drop_last());
    }
}

/// Splits `s` into its pieces between line feeds.
pub fn lines_of(s: &Vec<char>) -> (ls: Vec<Vec<char>>)
    ensures
        views(ls@) == lines(s@),
{
    let mut done: Vec<Vec<char>> = Vec::new();
    let mut cur: Vec<char> = Vec::new();
    for i in 0..s.len()
        invariant
            lines(s@.take(i as int)) == views(done@).push(cur@),
    {
        let c = s[i];
        let ghost before = s@.take(i as int);
        assert(s@.take(i + 1).drop_last() =~= before);
        proof {
            lemma_lines_len(before);
        }
        if c == '\n' {
            let ghost old_done = done@;
            let ghost old_cur = cur@;
            done.push(cur);
            cur = Vec::new();
            assert(views(done@) =~= views(old_done).push(old_cur));
            assert(views(done@).push(cur@) =~= lines(before).push(Seq::<char>::empty()));
        } else {
            let ghost old_cur = cur@;
            cur.push(c);
            assert(views(done@).push(cur@) =~= lines(before).update(
                lines(before).len() - 1,
                old_cur.push(c),
            ));
        }
    }
    assert(s@.take(s.len() as int) =~= s@);
    let ghost old_done = done@;
    let ghost old_cur = cur@;
    done.push(cur);
    assert(views(done@) =~= views(old_done).push(old_cur));
    done
}

/// The runs of non-white-space characters of `s`, in order: what
/// `str::split_whitespace` yields.
pub open spec fn fields(s: Seq<char>) -> Seq<Seq<char>>
    decreases s.len(),
{
    if s.len() == 0 {
        Seq::empty()
    } else {
        let init = fields(s.drop_last());
        let c = s.last();
        if is_space(c) {
            init
        } else if s.len() >= 2 && !is_space(s[s.len() - 2]) {
            init.update(init.len() - 1, init.last().push(c))
        } else {
            init.push(seq![c])
        }
    }
}

pub proof fn lemma_fields_nonempty(s: Seq<char>)
    requires
        s.len() > 0,
        !is_space(s.last()),
    ensures
        fields(s).len() > 0,
    decreases s.len(),
{
    if s.len() >= 2 && !is_space(s[s.len() - 2]) {
        lemma_fields_nonempty(s.drop_last());
    }
}

/// Text without white space, and not empty, is a single field.
pub proof fn lemma_fields_of_word(s: Seq<char>)
    requires
        s.len() > 0,
        forall|i: int| 0 <= i < s.len() ==> !is_space(#[trigger] s[i]),
    ensures
        fields(s) == seq![s],
    decreases s.len(),
{
    if s.len() == 1 {
        assert(s.drop_last() =~= Seq::<char>::empty());
        assert(fields(s.drop_last()) == Seq::<Seq<char>>::empty());
        assert(!is_space(s[0]));
        assert(seq![s.last()] =~= s);
        assert(fields(s) =~= Seq::<Seq<char>>::empty().push(seq![s.last()]));
    } else {
        let init = s.drop_last();
        assert(!is_space(s[s.len() - 2]));
        lemma_fields_of_word(init);
        assert(init.push(s.last()) =~= s);
        assert(fields(s) =~= seq![s]);
    }
}

/// Splits `s` into its fields, as `str::split_whitespace` does.
pub fn fields_of(s: &Vec<char>) -> (fs: Vec<Vec<char>>)
    ensures
        views(fs@) == fields(s@),
{
    let mut done: Vec<Vec<char>> = Vec::new();
    let mut cur: Vec<char> = Vec::new();
    let mut in_field = false;
    for i in 0..s.len()
        invariant
            in_field == (i > 0 && !is_space(s@[i - 1])),
            !in_field ==> cur@.len() == 0,
            fields(s@.take(i as int)) == if in_field {
                views(done@).push(cur@)
            } else {
                views(done@)
            },
    {
        let c = s[i];
        let ghost before = s@.take(i as int);
        assert(s@.take(i + 1).drop_last() =~= before);
        assert(s@.take(i + 1).last() == c);
        if i > 0 {
            assert(s@.take(i + 1)[i - 1] == s@[i - 1]);
        }
        if is_whitespace(c) {
            if in_field {
                let ghost old_done = done@;
                let ghost old_cur = cur@;
                done.push(cur);
                cur = Vec::new();
                assert(views(done@) =~= views(old_done).push(old_cur));
            }
            in_field = false;
        } else {
            let ghost old_cur = cur@;
            cur.push(c);
            if in_field {
                proof {
                    lemma_fields_nonempty(before);
                }
                assert(views(done@).push(cur@) =~= fields(before).update(
                    fields(before).len() - 1,
                    old_cur.push(c),
                ));
            } else {
                assert(cur@ =~= seq![c]);
                assert(views(done@).push(cur@) =~= fields(before).push(seq![c]));
            }
            in_field = true;
        }
    }
    assert(s@.take(s.len() as int) =~= s@);
    if in_field {
        let ghost old_done = done@;
        let ghost old_cur = cur@;
        done.push(cur);
        assert(views(done@) =~= views(old_done).push(old_cur));
    }
    done
}

/// `s` without its leading white space.
pub open spec fn trim_start(s: Seq<char>) -> Seq<char>
    decreases s.len(),
{
    if s.len() > 0 && is_space(s[0]) {
        trim_start(s.drop_first())
    } else {
        s
    }
}

/// `s` without its trailing white space.
pub open spec fn trim_end(s: Seq<char>) -> Seq<char>
    decreases s.len(),
{
    if s.len() > 0 && is_space(s.last()) {
        trim_end(s.drop_last())
    } else {
        s
    }
}

/// `s` without leading and trailing white space, as `str::trim` returns it.
pub open spec fn trim(s: Seq<char>) -> Seq<char> {
    trim_end(trim_start(s))
}

/// Copies `s` from `from` up to `to`.
fn copy_range(s: &Vec<char>, from: usize, to: usize) -> (r: Vec<char>)
    requires
        from <= to <= s.len(),
    ensures
        r@ == s@.subrange(from as int, to as int),
{
    let mut r: Vec<char> = Vec::new();
    for k in from..to
        invariant
            from <= to <= s.len(),
            r@ == s@.subrange(from as int, k as int),
    {
        r.push(s[k]);
        assert(s@.subrange(from as int, k + 1) =~= s@.subrange(from as int, k as int).push(
            s@[k as int],
        ));
    }
    r
}

/// Strips the leading and trailing white space of `s`.
pub fn trimmed(s: &Vec<char>) -> (t: Vec<char>)
    ensures
        t@ == trim(s@),
{
    let n = s.len();
    let mut start: usize = 0;
    assert(s@.skip(0) =~= s@);
    while start < n && is_whitespace(s[start])
        invariant
            n == s.len(),
            start <= n,
            trim_start(s@) == trim_start(s@.skip(start as int)),
        decreases n - start,
    {
        assert(s@.skip(start as int).drop_first() =~= s@.skip(start + 1));
        start = start + 1;
    }
    let mut end: usize = n;
    assert(s@.skip(start as int) =~= s@.subrange(start as int, n as int));
    while end > start && is_whitespace(s[end - 1])
        invariant
            n == s.len(),
            start <= end <= n,
            trim_start(s@) == s@.subrange(start as int, n as int),
            trim(s@) == trim_end(s@.subrange(start as int, end as int)),
        decreases end - start,
    {
        assert(s@.subrange(start as int, end as int).drop_last() =~= s@.subrange(
            start as int,
            end - 1,
        ));
        end = end - 1;
    }
    copy_range(s, start, end)
}

/// The characters of `s`, in order.
pub fn chars_of(s: &str) -> (v: Vec<char>)
    ensures
        v@ == s@,
{
    let mut v: Vec<char> = Vec::new();
    for c in it: s.chars()
        invariant
            v@ == it.seq().take(it.index() as int),
            it.seq() == s@,
    {
        v.push(c);
    }
    v
}

/// A `String` holding the characters of `v`.
pub fn string_of(v: &Vec<char>) -> (s: String)
    ensures
        s@ == v@,
{
    let mut s = String::new();
    for i in 0..v.len()
        invariant
            s@ == v@.take(i as int),
    {
        push_char(&mut s, v[i]);
        assert(v@.take(i + 1) =~= v@.take(i as int).push(v@[i as int]));
    }
    assert(v@.take(v.len() as int) =~= v@);
    s
}

/// The first `Some` that `f` gives over the texts of `ls`, in order, as
/// `Iterator::find_map` returns it.
pub open spec fn find_map<T>(ls: Seq<Seq<char>>, f: spec_fn(Seq<char>) -> Option<T>) -> Option<T>
    decreases ls.len(),
{
    if ls.len() == 0 {
        None
    } else {
        match f(ls[0]) {
            Some(t) => Some(t),
            None => find_map(ls.drop_first(), f),
        }
    }
}

/// What a search answers: the first text on which `f` gives something, and
/// what it gives there; or `None` when `f` gives nothing on any text.
pub proof fn lemma_find_map_first<T>(ls: Seq<Seq<char>>, f: spec_fn(Seq<char>) -> Option<T>)
    ensures
        find_map(ls, f) matches Some(t) ==> exists|i: int|
            0 <= i < ls.len() && #[trigger] f(ls[i]) == Some(t) && forall|j: int|
                0 <= j < i ==> #[trigger] f(ls[j]) is None,
        find_map(ls, f) is None ==> forall|i: int| 0 <= i < ls.len() ==> #[trigger] f(ls[i]) is None,
    decreases ls.len(),
{
    if ls.len() > 0 {
        let rest = ls.drop_first();
        lemma_find_map_first(rest, f);
        match f(ls[0]) {
            Some(t) => {
                assert(f(ls[0]) == Some(t));
            },
            None => {
                if let Some(t) = find_map(rest, f) {
                    let i = choose|i: int|
                        0 <= i < rest.len() && #[trigger] f(rest[i]) == Some(t) && forall|j: int|
                            0 <= j < i ==> #[trigger] f(rest[j]) is None;
                    assert(ls[i + 1] == rest[i]);
                    assert forall|j: int| 0 <= j < i + 1 implies #[trigger] f(ls[j]) is None by {
                        if j > 0 {
                            assert(ls[j] == rest[j - 1]);
                        }
                    }
                    assert(f(ls[i + 1]) == Some(t));
                } else {
                    assert forall|i: int| 0 <= i < ls.len() implies #[trigger] f(ls[i]) is None by {
                        if i > 0 {
                            assert(ls[i] == rest[i - 1]);
                        }
                    }
                }
            },
        }
    }
}

/// Passing over a text on which `f` gives `None` leaves the search where it was.
pub proof fn lemma_find_map_step<T>(ls: Seq<Seq<char>>, f: spec_fn(Seq<char>) -> Option<T>, k: int)
    requires
        0 <= k < ls.len(),
    ensures
        f(ls[k]) is None ==> find_map(ls.skip(k), f) == find_map(ls.skip(k + 1), f),
        f(ls[k]) matches Some(t) ==> find_map(ls.skip(k), f) == Some(t),
{
    assert(ls.skip(k).drop_first() =~= ls.skip(k + 1));
    assert(ls.skip(k)[0] == ls[k]);
}

} // verus!
