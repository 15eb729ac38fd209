//! Parsing of a process's memory-mapping table, one line per region:
//! `<start>-<end> <perms> <offset> <dev> <inode> [pathname]`.
use crate::error::SessionError;
use vstd::prelude::*;

verus! {

/// Number of fields of a full mapping line; the last is the pathname.
pub const MAPS_FIELDS: usize = 6;

/// The first index at or after `i` that does not hold a space.
pub open spec fn skip_spaces(s: Seq<char>, i: int) -> int
    decreases s.len() - i,
{
    if 0 <= i < s.len() && s[i] == ' ' {
        skip_spaces(s, i + 1)
    } else {
        i
    }
}

/// The first index at or after `i` that holds a space, or the end.
pub open spec fn token_end(s: Seq<char>, i: int) -> int
    decreases s.len() - i,
{
    if 0 <= i < s.len() && s[i] != ' ' {
        token_end(s, i + 1)
    } else {
        i
    }
}

/// Up to `k` fields of `s` from index `i`: runs of spaces separate them, and
/// the last one is the whole remainder of the line, spaces included.
pub open spec fn fields_from(s: Seq<char>, i: int, k: nat) -> Seq<Seq<char>>
    decreases k,
{
    let j = skip_spaces(s, i);
    if k == 0 || j >= s.len() {
        Seq::empty()
    } else if k == 1 {
        seq![s.subrange(j, s.len() as int)]
    } else {
        let e = token_end(s, j);
        seq![s.subrange(j, e)] + fields_from(s, e, (k - 1) as nat)
    }
}

/// The fields of a mapping line.
pub open spec fn maps_fields(line: Seq<char>) -> Seq<Seq<char>> {
    fields_from(line, 0, 6)
}

proof fn lemma_skip_spaces_bounds(s: Seq<char>, i: int)
    requires
        0 <= i,
    ensures
        i <= skip_spaces(s, i),
        i <= s.len() ==> skip_spaces(s, i) <= s.len(),
        skip_spaces(s, i) < s.len() ==> s[skip_spaces(s, i)] != ' ',
    decreases s.len() - i,
{
    if 0 <= i < s.len() && s[i] == ' ' {
        lemma_skip_spaces_bounds(s, i + 1);
    }
}

proof fn lemma_token_end_bounds(s: Seq<char>, i: int)
    requires
        0 <= i <= s.len(),
    ensures
        i <= token_end(s, i) <= s.len(),
    decreases s.len() - i,
{
    if 0 <= i < s.len() && s[i] != ' ' {
        lemma_token_end_bounds(s, i + 1);
    }
}

/// Splits a mapping line into at most six fields. The first five are the
/// space-separated columns; the sixth is the rest of the line after the
/// spaces that follow the fifth, not split again. A line without a
/// pathname column yields fewer than six fields.
pub fn split_maps_line(line: &str) -> (r: Vec<&str>)
    ensures
        r@.map_values(|p: &str| p@) == maps_fields(line@),
{
    let ghost s = line@;
    let n = line.unicode_len();
    let mut parts: Vec<&str> = Vec::new();
    let mut i: usize = 0;
    let mut k: usize = MAPS_FIELDS;
    while k > 0
        invariant
            n == s.len(),
            s == line@,
            i <= n,
            k <= MAPS_FIELDS,
            parts@.map_values(|p: &str| p@) + fields_from(s, i as int, k as nat) == maps_fields(s),
        decreases k,
    {
        let ghost i0 = i as int;
        proof {
            lemma_skip_spaces_bounds(s, i0);
        }
        while i < n && line.get_char(i) == ' '
            invariant
                n == s.len(),
                s == line@,
                i0 <= i <= n,
                skip_spaces(s, i as int) == skip_spaces(s, i0),
            decreases n - i,
        {
            i = i + 1;
        }
        assert(skip_spaces(s, i as int) == i as int);
        let ghost before = parts@.map_values(|p: &str| p@);
        if i >= n {
            k = 0;
        } else if k == 1 {
            let last = line.substring_char(i, n);
            parts.push(last);
            k = 0;
            assert(parts@.map_values(|p: &str| p@) =~= before.push(last@));
            assert(before.push(last@) + fields_from(s, i as int, 0) =~= before + fields_from(
                s,
                i0,
                1,
            ));
        } else {
            let start = i;
            while i < n && line.get_char(i) != ' '
                invariant
                    n == s.len(),
                    s == line@,
                    start <= i <= n,
                    token_end(s, i as int) == token_end(s, start as int),
                decreases n - i,
            {
                i = i + 1;
            }
            assert(token_end(s, i as int) == i as int);
            let piece = line.substring_char(start, i);
            parts.push(piece);
            proof {
                let rest = fields_from(s, i as int, (k - 1) as nat);
                assert(parts@.map_values(|p: &str| p@) =~= before.push(piece@));
                assert(fields_from(s, i0, k as nat) == seq![piece@] + rest);
                assert(before.push(piece@) + rest =~= before + (seq![piece@] + rest));
            }
            k = k - 1;
        }
    }
    parts
}


/// The value of a hexadecimal digit.
pub open spec fn hex_digit(c: char) -> Option<nat> {
    if '0' <= c && c <= '9' {
        Some((c as nat - '0' as nat) as nat)
    } else if 'a' <= c && c <= 'f' {
        Some((c as nat - 'a' as nat + 10) as nat)
    } else if 'A' <= c && c <= 'F' {
        Some((c as nat - 'A' as nat + 10) as nat)
    } else {
        None
    }
}

/// The value of a sequence of hexadecimal digits, most significant first.
pub open spec fn hex_value(d: Seq<char>) -> nat
    decreases d.len(),
{
    if d.len() == 0 {
        0
    } else {
        hex_value(d.drop_last()) * 16 + hex_digit(d.last()).unwrap_or(0)
    }
}

/// The digits of a number: the text after an optional leading `+`.
pub open spec fn digits_of(t: Seq<char>) -> Seq<char> {
    if t.len() > 0 && t[0] == '+' {
        t.drop_first()
    } else {
        t
    }
}

/// A base-16 unsigned number as `usize::from_str_radix(t, 16)` reads it: an
/// optional `+`, then one or more digits, with a value that fits a `usize`.
pub open spec fn parse_hex(t: Seq<char>) -> Option<usize> {
    let d = digits_of(t);
    if d.len() > 0 && (forall|i: int| 0 <= i < d.len() ==> (#[trigger] hex_digit(d[i])) is Some)
        && hex_value(d) <= usize::MAX {
        Some(hex_value(d) as usize)
    } else {
        None
    }
}

proof fn lemma_hex_value_grows(d: Seq<char>, i: int)
    requires
        0 <= i <= d.len(),
    ensures
        hex_value(d.subrange(0, i)) <= hex_value(d),
    decreases d.len() - i,
{
    if i < d.len() {
        lemma_hex_value_grows(d, i + 1);
        assert(d.subrange(0, i + 1).drop_last() =~= d.subrange(0, i));
    } else {
        assert(d.subrange(0, i) =~= d);
    }
}

fn hex_digit_of(c: char) -> (r: Option<usize>)
    ensures
        r matches Some(v) ==> hex_digit(c) == Some(v as nat),
        r is None ==> hex_digit(c) is None,
{
    if '0' <= c && c <= '9' {
        Some(c as usize - '0' as usize)
    } else if 'a' <= c && c <= 'f' {
        Some(c as usize - 'a' as usize + 10)
    } else if 'A' <= c && c <= 'F' {
        Some(c as usize - 'A' as usize + 10)
    } else {
        None
    }
}

/// Reads a base-16 unsigned number, as `usize::from_str_radix(t, 16)` does.
pub fn parse_hex_usize(t: &str) -> (r: Option<usize>)
    ensures
        r == parse_hex(t@),
{
    let ghost s = t@;
    let n = t.unicode_len();
    let mut i: usize = 0;
    if n > 0 && t.get_char(0) == '+' {
        i = 1;
    }
    let ghost d = digits_of(s);
    assert(d =~= s.subrange(i as int, n as int));
    if i >= n {
        return None;
    }
    let mut v: usize = 0;
    while i < n
        invariant
            n == s.len(),
            s == t@,
            d == digits_of(s),
            n - d.len() <= i <= n,
            v as nat == hex_value(d.subrange(0, i - (n - d.len()))),
            forall|j: int| 0 <= j < i - (n - d.len()) ==> (#[trigger] hex_digit(d[j])) is Some,
        decreases n - i,
    {
        let ghost at = i - (n - d.len());
        let c = t.get_char(i);
        assert(c == d[at]);
        assert(d.subrange(0, at + 1).drop_last() =~= d.subrange(0, at));
        match hex_digit_of(c) {
            None => {
                return None;
            },
            Some(x) => {
                if v > (usize::MAX - x) / 16 {
                    proof {
                        lemma_hex_value_grows(d, at + 1);
                    }
                    return None;
                }
                v = v * 16 + x;
            },
        }
        i = i + 1;
    }
    assert(d.subrange(0, d.len() as int) =~= d);
    Some(v)
}

/// The text before the first `-` of an address range, or all of it.
pub open spec fn range_start(f: Seq<char>) -> Seq<char>
    decreases f.len(),
{
    if f.len() == 0 || f[0] == '-' {
        Seq::empty()
    } else {
        seq![f[0]] + range_start(f.drop_first())
    }
}

fn range_start_of(f: &str) -> (r: &str)
    ensures
        r@ == range_start(f@),
{
    let n = f.unicode_len();
    let mut i: usize = 0;
    assert(f@.subrange(0, n as int) =~= f@);
    assert(f@.subrange(0, 0) + range_start(f@) =~= range_start(f@));
    while i < n && f.get_char(i) != '-'
        invariant
            n == f@.len(),
            i <= n,
            range_start(f@) == f@.subrange(0, i as int) + range_start(f@.subrange(i as int, n as int)),
        decreases n - i,
    {
        assert(f@.subrange(i as int, n as int).drop_first() =~= f@.subrange(i + 1, n as int));
        assert(f@.subrange(0, i as int) + seq![f@[i as int]] =~= f@.subrange(0, i + 1));
        i = i + 1;
    }
    assert(range_start(f@.subrange(i as int, n as int)) =~= Seq::<char>::empty());
    assert(f@.subrange(0, i as int) + Seq::<char>::empty() =~= f@.subrange(0, i as int));
    f.substring_char(0, i)
}


/// The text without leading and trailing whitespace, as `str::trim` gives it.
pub uninterp spec fn trimmed(s: Seq<char>) -> Seq<char>;

/// Relies on `str::trim`: the pathname column without the whitespace around
/// it. What it removes depends on the characters alone.
#[verifier::external_body]
fn trim_str(s: &str) -> (r: &str)
    ensures
        r@ == trimmed(s@),
{
    s.trim()
}

/// Whether two texts hold the same characters.
pub(crate) fn same_text(a: &str, b: &str) -> (r: bool)
    ensures
        r == (a@ == b@),
{
    let n = a.unicode_len();
    if n != b.unicode_len() {
        return false;
    }
    let mut i: usize = 0;
    while i < n
        invariant
            n == a@.len(),
            n == b@.len(),
            i <= n,
            a@.subrange(0, i as int) == b@.subrange(0, i as int),
        decreases n - i,
    {
        if a.get_char(i) != b.get_char(i) {
            return false;
        }
        assert(a@.subrange(0, i + 1) =~= a@.subrange(0, i as int).push(a@[i as int]));
        assert(b@.subrange(0, i + 1) =~= b@.subrange(0, i as int).push(b@[i as int]));
        i = i + 1;
    }
    assert(a@.subrange(0, n as int) =~= a@);
    assert(b@.subrange(0, n as int) =~= b@);
    true
}

/// The base address that one line gives: the start of its range, when its
/// trimmed pathname is the executable's path and the start parses.
pub open spec fn line_base(line: Seq<char>, exe_path: Seq<char>) -> Option<usize> {
    let f = maps_fields(line);
    if f.len() == 6 && trimmed(f[5]) == exe_path {
        parse_hex(range_start(f[0]))
    } else {
        None
    }
}

/// The base address of the first line that gives one.
pub open spec fn first_base(lines: Seq<Seq<char>>, exe_path: Seq<char>) -> Option<usize>
    decreases lines.len(),
{
    if lines.len() == 0 {
        None
    } else {
        match line_base(lines[0], exe_path) {
            Some(b) => Some(b),
            None => first_base(lines.drop_first(), exe_path),
        }
    }
}

/// The texts of a table's lines.
pub open spec fn lines_view(lines: Seq<String>) -> Seq<Seq<char>> {
    lines.map_values(|l: String| l@)
}

/// The base address that one mapping line gives for the executable at
/// `exe_path`, if any.
pub fn base_address_of_line(line: &str, exe_path: &str) -> (r: Option<usize>)
    ensures
        r == line_base(line@, exe_path@),
{
    let parts = split_maps_line(line);
    proof {
        assert(parts@.map_values(|p: &str| p@).len() == parts@.len());
    }
    if parts.len() < MAPS_FIELDS {
        return None;
    }
    proof {
        lemma_fields_at_most(line@, 0, 6);
        assert(parts@.map_values(|p: &str| p@)[5] == parts@[5]@);
        assert(parts@.map_values(|p: &str| p@)[0] == parts@[0]@);
    }
    let pathname = trim_str(parts[5]);
    if !same_text(pathname, exe_path) {
        return None;
    }
    let start = range_start_of(parts[0]);
    parse_hex_usize(start)
}

proof fn lemma_fields_at_most(s: Seq<char>, i: int, k: nat)
    ensures
        fields_from(s, i, k).len() <= k,
    decreases k,
{
    let j = skip_spaces(s, i);
    if k >= 2 && j < s.len() {
        lemma_fields_at_most(s, token_end(s, j), (k - 1) as nat);
    }
}

/// Resolves the load base of the executable at `exe_path` from the lines of
/// its process's mapping table: the start of the first line that belongs to
/// it and whose range parses. Lines that do not belong to it, lines without
/// a pathname and lines with a malformed range are passed over.
pub fn resolve_base(lines: &Vec<String>, exe_path: &str) -> (r: Result<usize, SessionError>)
    ensures
        match first_base(lines_view(lines@), exe_path@) {
            Some(b) => r == Ok::<usize, SessionError>(b),
            None => r == Err::<usize, SessionError>(SessionError::BaseAddressNotFound),
        },
{
    let ghost all = lines_view(lines@);
    let mut i: usize = 0;
    assert(all.subrange(0, all.len() as int) =~= all);
    while i < lines.len()
        invariant
            i <= lines@.len(),
            all == lines_view(lines@),
            first_base(all, exe_path@) == first_base(all.subrange(i as int, all.len() as int), exe_path@),
        decreases lines.len() - i,
    {
        let ghost rest = all.subrange(i as int, all.len() as int);
        assert(rest.drop_first() =~= all.subrange(i + 1, all.len() as int));
        assert(rest[0] == lines@[i as int]@);
        if let Some(b) = base_address_of_line(lines[i].as_str(), exe_path) {
            return Ok(b);
        }
        i = i + 1;
    }
    assert(all.subrange(i as int, all.len() as int) =~= Seq::<Seq<char>>::empty());
    Err(SessionError::BaseAddressNotFound)
}

/// A line without a pathname column never gives a base address.
pub proof fn lemma_short_line_skipped(line: Seq<char>, exe_path: Seq<char>)
    requires
        maps_fields(line).len() < 6,
    ensures
        line_base(line, exe_path) is None,
{
}

/// A line that belongs to the executable but whose range does not parse is
/// passed over: the table resolves as it would without that line.
pub proof fn lemma_malformed_line_skipped(lines: Seq<Seq<char>>, exe_path: Seq<char>, j: int)
    requires
        0 <= j < lines.len(),
        maps_fields(lines[j]).len() == 6,
        trimmed(maps_fields(lines[j])[5]) == exe_path,
        parse_hex(range_start(maps_fields(lines[j])[0])) is None,
    ensures
        first_base(lines, exe_path) == first_base(lines.remove(j), exe_path),
    decreases j,
{
    if j == 0 {
        assert(lines.remove(0) =~= lines.drop_first());
    } else {
        let shorter = lines.remove(j);
        assert(shorter[0] == lines[0]);
        assert(shorter.drop_first() =~= lines.drop_first().remove(j - 1));
        lemma_malformed_line_skipped(lines.drop_first(), exe_path, j - 1);
    }
}

} // verus!
