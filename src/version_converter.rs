//! Which game versions a pack format stands for, and how a version map is summarised.
//!
//! The version map (pack format to the game versions that use it, newest first) is read and
//! parsed by the caller; here each entry becomes one line of text, and a version is looked up.
use crate::text::{append_decimal, decimal};
use vstd::prelude::*;

verus! {

/// Whether a character is numeric, as `char::is_numeric` says.
pub uninterp spec fn numeric(c: char) -> bool;

/// Relies on `char::is_numeric`: the answer depends on the character alone.
#[verifier::external_body]
fn is_numeric_char(c: char) -> (r: bool)
    ensures
        r == numeric(c),
{
    c.is_numeric()
}

/// A release version: numeric parts separated by single dots, e.g. "1.20.4". Anything else
/// (snapshots, pre-releases) is a preview.
pub open spec fn release_version(v: Seq<char>) -> bool {
    &&& v.len() > 0
    &&& v[0] != '.'
    &&& v.last() != '.'
    &&& forall|i: int| 0 <= i < v.len() ==> #[trigger] numeric(v[i]) || v[i] == '.'
    &&& forall|i: int| 0 <= i < v.len() - 1 ==> !(#[trigger] v[i] == '.' && v[i + 1] == '.')
}

/// Whether `version` is a release version.
pub fn is_release_version(version: &str) -> (r: bool)
    ensures
        r == release_version(version@),
{
    let n = version.unicode_len();
    if n == 0 {
        return false;
    }
    let mut i: usize = 0;
    let mut previous_dot = true;
    while i < n
        invariant
            n == version@.len(),
            0 < n,
            i <= n,
            previous_dot == (i == 0 || version@[i - 1] == '.'),
            forall|j: int| 0 <= j < i ==> #[trigger] numeric(version@[j]) || version@[j] == '.',
            forall|j: int| 0 <= j < i - 1 ==> !(#[trigger] version@[j] == '.' && version@[j + 1] == '.'),
            i > 0 ==> version@[0] != '.',
        decreases n - i,
    {
        let c = version.get_char(i);
        if c == '.' {
            if previous_dot {
                return false;
            }
            previous_dot = true;
        } else if is_numeric_char(c) {
            previous_dot = false;
        } else {
            return false;
        }
        i = i + 1;
    }
    !previous_dot
}

/// The value of a run of ASCII digits.
pub open spec fn digits_value(s: Seq<char>) -> nat
    decreases s.len(),
{
    if s.len() == 0 {
        0
    } else {
        digits_value(s.drop_last()) * 10 + (s.last() as u32 - '0' as u32) as nat
    }
}

/// A run of one or more ASCII digits.
pub open spec fn all_digits(s: Seq<char>) -> bool {
    s.len() > 0 && forall|i: int| 0 <= i < s.len() ==> '0' <= #[trigger] s[i] && s[i] <= '9'
}

/// The number that `s` denotes as `u32::from_str` reads it: an optional plus sign, then ASCII
/// digits, with a value that fits.
pub open spec fn parsed_u32(s: Seq<char>) -> Option<u32> {
    let digits = if s.len() > 0 && s[0] == '+' { s.drop_first() } else { s };
    if all_digits(digits) && digits_value(digits) <= u32::MAX {
        Some(digits_value(digits) as u32)
    } else {
        None
    }
}

/// Reads a pack format number the way `u32::from_str` does.
pub fn parse_format(text: &str) -> (r: Option<u32>)
    ensures
        r == parsed_u32(text@),
{
    let n = text.unicode_len();
    let ghost s = text@;
    let mut start: usize = 0;
    if n > 0 && text.get_char(0) == '+' {
        start = 1;
    }
    let ghost digits = if s.len() > 0 && s[0] == '+' { s.drop_first() } else { s };
    assert(digits =~= s.subrange(start as int, n as int));
    if start == n {
        return None;
    }
    let mut value: u64 = 0;
    let mut i: usize = start;
    while i < n
        invariant
            s == text@,
            digits == (if s.len() > 0 && s[0] == '+' { s.drop_first() } else { s }),
            n == s.len(),
            start <= i <= n,
            start < n,
            digits =~= s.subrange(start as int, n as int),
            value == digits_value(s.subrange(start as int, i as int)),
            value <= u32::MAX,
            forall|j: int| start <= j < i ==> '0' <= #[trigger] s[j] && s[j] <= '9',
        decreases n - i,
    {
        let c = text.get_char(i);
        if c < '0' || c > '9' {
            assert(digits[i - start] == c);
            assert(!all_digits(digits));
            return None;
        }
        let ghost prefix = s.subrange(start as int, i as int + 1);
        assert(prefix.drop_last() =~= s.subrange(start as int, i as int));
        assert(prefix.last() == c);
        value = value * 10 + (c as u32 - '0' as u32) as u64;
        if value > 4294967295 {
            proof {
                lemma_value_grows(s.subrange(start as int, n as int), (i - start + 1) as int);
                assert(s.subrange(start as int, n as int).take((i - start + 1) as int) =~= prefix);
            }
            return None;
        }
        i = i + 1;
    }
    assert(s.subrange(start as int, i as int) =~= digits);
    Some(value as u32)
}

/// A longer run of digits is worth at least as much as its prefix.
proof fn lemma_value_grows(s: Seq<char>, k: int)
    requires
        0 <= k <= s.len(),
    ensures
        digits_value(s.take(k)) <= digits_value(s),
    decreases s.len() - k,
{
    if k < s.len() {
        lemma_value_grows(s, k + 1);
        let t = s.take(k + 1);
        assert(t.drop_last() =~= s.take(k));
    } else {
        assert(s.take(k) =~= s);
    }
}

/// The number of entries in the built-in version table.
pub const BUILT_IN_SIZE: usize = 21;

/// The entry at position `i` of the built-in version table.
pub open spec fn built_in_entry(i: usize) -> (u32, Seq<char>) {
    match i {
        0 => (1, "1.6.1 – 1.8.9"@),
        1 => (2, "1.9 – 1.10.2"@),
        2 => (3, "1.11 – 1.12.2"@),
        3 => (4, "1.13 – 1.14.4"@),
        4 => (5, "1.15 – 1.16.1"@),
        5 => (6, "1.16.2 – 1.16.5"@),
        6 => (7, "1.17 – 1.17.1"@),
        7 => (8, "1.18 – 1.18.2"@),
        8 => (9, "1.19 – 1.19.2"@),
        9 => (12, "1.19.3"@),
        10 => (13, "1.19.4"@),
        11 => (15, "1.20 – 1.20.1"@),
        12 => (18, "1.20.2"@),
        13 => (22, "1.20.3 – 1.20.4"@),
        14 => (32, "1.20.5 – 1.20.6"@),
        15 => (34, "1.21 – 1.21.1"@),
        16 => (42, "1.21.2 – 1.21.3"@),
        17 => (46, "1.21.4"@),
        18 => (55, "1.21.5"@),
        19 => (63, "1.21.6"@),
        _ => (64, "1.21.7 – 1.21.8"@),
    }
}

/// The built-in version table, by pack format.
pub open spec fn built_in_table() -> Seq<(u32, Seq<char>)> {
    Seq::new(BUILT_IN_SIZE as nat, |i: int| built_in_entry(i as usize))
}

fn built_in_at(i: usize) -> (r: (u32, &'static str))
    requires
        i < BUILT_IN_SIZE,
    ensures
        (r.0, r.1@) == built_in_entry(i),
{
    match i {
        0 => (1, "1.6.1 – 1.8.9"),
        1 => (2, "1.9 – 1.10.2"),
        2 => (3, "1.11 – 1.12.2"),
        3 => (4, "1.13 – 1.14.4"),
        4 => (5, "1.15 – 1.16.1"),
        5 => (6, "1.16.2 – 1.16.5"),
        6 => (7, "1.17 – 1.17.1"),
        7 => (8, "1.18 – 1.18.2"),
        8 => (9, "1.19 – 1.19.2"),
        9 => (12, "1.19.3"),
        10 => (13, "1.19.4"),
        11 => (15, "1.20 – 1.20.1"),
        12 => (18, "1.20.2"),
        13 => (22, "1.20.3 – 1.20.4"),
        14 => (32, "1.20.5 – 1.20.6"),
        15 => (34, "1.21 – 1.21.1"),
        16 => (42, "1.21.2 – 1.21.3"),
        17 => (46, "1.21.4"),
        18 => (55, "1.21.5"),
        19 => (63, "1.21.6"),
        _ => (64, "1.21.7 – 1.21.8"),
    }
}

/// The views of a version table.
pub open spec fn table_view(v: Seq<(u32, String)>) -> Seq<(u32, Seq<char>)> {
    v.map_values(|e: (u32, String)| (e.0, e.1@))
}

/// The supported versions: the table loaded from a version map when there is one, else the
/// built-in table.
pub fn get_supported_versions(loaded: Option<Vec<(u32, String)>>) -> (r: Vec<(u32, String)>)
    ensures
        match loaded {
            Some(v) => r == v,
            None => table_view(r@) == built_in_table(),
        },
{
    if let Some(v) = loaded {
        return v;
    }
    let mut table: Vec<(u32, String)> = Vec::new();
    let mut i: usize = 0;
    while i < BUILT_IN_SIZE
        invariant
            i <= BUILT_IN_SIZE,
            table_view(table@) == built_in_table().take(i as int),
        decreases BUILT_IN_SIZE - i,
    {
        let (format, label) = built_in_at(i);
        let ghost before = table@;
        let entry = (format, label.to_owned());
        table.push(entry);
        assert(table_view(table@) =~= table_view(before).push((entry.0, entry.1@)));
        assert(built_in_table().take(i as int + 1) =~= built_in_table().take(i as int).push(built_in_table()[i as int]));
        i = i + 1;
    }
    assert(built_in_table().take(i as int) =~= built_in_table());
    table
}

/// The first pack format in `versions` whose label is `version`, if any.
pub open spec fn format_of(versions: Seq<(u32, Seq<char>)>, version: Seq<char>) -> Option<u32>
    decreases versions.len(),
{
    if versions.len() == 0 {
        None
    } else if versions[0].1 == version {
        Some(versions[0].0)
    } else {
        format_of(versions.drop_first(), version)
    }
}

/// The pack format whose label in `versions` is exactly `version`; an unsupported version is
/// an error that names it.
pub fn get_pack_format_from_version(versions: &Vec<(u32, String)>, version: &str) -> (r: Result<u32, String>)
    ensures
        match format_of(table_view(versions@), version@) {
            Some(f) => r == Ok::<u32, String>(f),
            None => r is Err && r->Err_0@ == "不支持的版本: "@ + version@,
        },
{
    let target = version.to_owned();
    let mut i: usize = 0;
    assert(table_view(versions@).skip(0) =~= table_view(versions@));
    while i < versions.len()
        invariant
            i <= versions@.len(),
            target@ == version@,
            format_of(table_view(versions@), version@) == format_of(table_view(versions@).skip(i as int), version@),
        decreases versions@.len() - i,
    {
        let ghost rest = table_view(versions@).skip(i as int);
        assert(rest[0] == (versions@[i as int].0, versions@[i as int].1@));
        assert(rest.drop_first() =~= table_view(versions@).skip(i as int + 1));
        if versions[i].1 == target {
            return Ok(versions[i].0);
        }
        i = i + 1;
    }
    let mut message = "不支持的版本: ".to_owned();
    message.append(version);
    Err(message)
}

/// The versions of `list` that are releases (when `releases`) or previews (otherwise), in
/// order.
pub open spec fn select(list: Seq<Seq<char>>, releases: bool) -> Seq<Seq<char>>
    decreases list.len(),
{
    if list.len() == 0 {
        list
    } else if release_version(list.last()) == releases {
        select(list.drop_last(), releases).push(list.last())
    } else {
        select(list.drop_last(), releases)
    }
}

/// "oldest – newest" for a list ordered newest first, or the one version of a list of one.
pub open spec fn range_text(list: Seq<Seq<char>>) -> Seq<char> {
    if list.len() == 1 {
        list[0]
    } else {
        list.last() + " – "@ + list[0]
    }
}

/// The label of the versions that share a pack format, listed newest first: the range of the
/// releases, with the number of previews when there are any; or, with no releases, the range
/// of the previews marked as such.
pub open spec fn version_label(list: Seq<Seq<char>>) -> Seq<char> {
    let releases = select(list, true);
    let previews = select(list, false);
    if releases.len() > 0 {
        if previews.len() > 0 {
            range_text(releases) + " (含 "@ + decimal(previews.len()) + " 个预览版)"@
        } else {
            range_text(releases)
        }
    } else {
        range_text(previews) + " (预览版)"@
    }
}

/// `entry` placed into a table sorted by format: after every entry whose format is not larger.
pub open spec fn insert_sorted(table: Seq<(u32, Seq<char>)>, entry: (u32, Seq<char>)) -> Seq<(u32, Seq<char>)>
    decreases table.len(),
{
    if table.len() == 0 || table.last().0 <= entry.0 {
        table.push(entry)
    } else {
        insert_sorted(table.drop_last(), entry).push(table.last())
    }
}

/// The views of the entries of a version map.
pub open spec fn map_view(entries: Seq<(String, Vec<String>)>) -> Seq<(Seq<char>, Seq<Seq<char>>)> {
    entries.map_values(|e: (String, Vec<String>)| (e.0@, e.1@.map_values(|v: String| v@)))
}

/// The version table of a version map's entries, taken in order: entries whose key is not a
/// format number, or whose list is empty, are skipped; each other entry becomes its format and
/// label, placed in format order after the entries with the same format.
pub open spec fn summary_of(entries: Seq<(Seq<char>, Seq<Seq<char>>)>) -> Seq<(u32, Seq<char>)>
    decreases entries.len(),
{
    if entries.len() == 0 {
        Seq::empty()
    } else {
        let before = summary_of(entries.drop_last());
        let (key, list) = entries.last();
        match parsed_u32(key) {
            Some(format) => if list.len() > 0 {
                insert_sorted(before, (format, version_label(list)))
            } else {
                before
            },
            None => before,
        }
    }
}

/// The versions of `list` that are releases, or previews, in order.
fn select_versions(list: &Vec<String>, releases: bool) -> (r: Vec<String>)
    ensures
        r@.map_values(|v: String| v@) == select(list@.map_values(|v: String| v@), releases),
{
    let ghost views = list@.map_values(|v: String| v@);
    let mut r: Vec<String> = Vec::new();
    let mut i: usize = 0;
    while i < list.len()
        invariant
            i <= list@.len(),
            views == list@.map_values(|v: String| v@),
            r@.map_values(|v: String| v@) == select(views.take(i as int), releases),
        decreases list@.len() - i,
    {
        let ghost prefix = views.take(i as int + 1);
        assert(prefix.drop_last() =~= views.take(i as int));
        assert(prefix.last() == list@[i as int]@);
        let ghost before = r@;
        if is_release_version(list[i].as_str()) == releases {
            r.push(list[i].clone());
            assert(r@.map_values(|v: String| v@) =~= before.map_values(|v: String| v@).push(list@[i as int]@));
        }
        i = i + 1;
    }
    assert(views.take(i as int) =~= views);
    r
}

fn range_label(list: &Vec<String>) -> (r: String)
    requires
        list@.len() > 0,
    ensures
        r@ == range_text(list@.map_values(|v: String| v@)),
{
    let ghost views = list@.map_values(|v: String| v@);
    if list.len() == 1 {
        return list[0].clone();
    }
    let mut text = list[list.len() - 1].clone();
    text.append(" – ");
    text.append(list[0].as_str());
    assert(text@ =~= range_text(views));
    text
}

/// The label of the versions that share a pack format, listed newest first.
pub fn label_versions(list: &Vec<String>) -> (r: String)
    requires
        list@.len() > 0,
    ensures
        r@ == version_label(list@.map_values(|v: String| v@)),
{
    let ghost views = list@.map_values(|v: String| v@);
    let releases = select_versions(list, true);
    let previews = select_versions(list, false);
    proof {
        lemma_select_splits(views);
    }
    if releases.len() > 0 {
        let mut text = range_label(&releases);
        if previews.len() > 0 {
            text.append(" (含 ");
            append_decimal(&mut text, previews.len() as u64);
            text.append(" 个预览版)");
        }
        assert(text@ =~= version_label(views));
        text
    } else {
        let mut text = range_label(&previews);
        text.append(" (预览版)");
        assert(text@ =~= version_label(views));
        text
    }
}

/// Every version is a release or a preview, so the two selections together are as long as the
/// list, and each is no longer.
proof fn lemma_select_splits(list: Seq<Seq<char>>)
    ensures
        select(list, true).len() + select(list, false).len() == list.len(),
    decreases list.len(),
{
    if list.len() > 0 {
        lemma_select_splits(list.drop_last());
    }
}

proof fn lemma_insert_at(table: Seq<(u32, Seq<char>)>, entry: (u32, Seq<char>), p: int)
    requires
        0 <= p <= table.len(),
        forall|j: int| p <= j < table.len() ==> #[trigger] table[j].0 > entry.0,
        p == 0 || table[p - 1].0 <= entry.0,
    ensures
        insert_sorted(table, entry) == table.insert(p, entry),
    decreases table.len(),
{
    if table.len() == p {
        assert(table.push(entry) =~= table.insert(p, entry));
    } else {
        lemma_insert_at(table.drop_last(), entry, p);
        assert(table.drop_last().insert(p, entry).push(table.last()) =~= table.insert(p, entry));
    }
}

/// Summarises the entries of a version map, in the order the map lists them, as a table of
/// pack formats and labels sorted by format.
pub fn supported_versions_from_map(entries: &Vec<(String, Vec<String>)>) -> (r: Vec<(u32, String)>)
    ensures
        table_view(r@) == summary_of(map_view(entries@)),
{
    let ghost views = map_view(entries@);
    let mut table: Vec<(u32, String)> = Vec::new();
    let mut i: usize = 0;
    while i < entries.len()
        invariant
            i <= entries@.len(),
            views == map_view(entries@),
            table_view(table@) == summary_of(views.take(i as int)),
        decreases entries@.len() - i,
    {
        let ghost prefix = views.take(i as int + 1);
        assert(prefix.drop_last() =~= views.take(i as int));
        assert(prefix.last() == views[i as int]);
        let key = &entries[i].0;
        let list = &entries[i].1;
        assert(views[i as int] == (key@, list@.map_values(|v: String| v@)));
        if let Some(format) = parse_format(key.as_str()) {
            if list.len() > 0 {
                let label = label_versions(list);
                let mut p: usize = table.len();
                while p > 0 && table[p - 1].0 > format
                    invariant
                        p <= table@.len(),
                        forall|j: int| p <= j < table@.len() ==> #[trigger] table@[j].0 > format,
                    decreases p,
                {
                    p = p - 1;
                }
                let ghost before = table_view(table@);
                let ghost entry = (format, label@);
                proof {
                    lemma_insert_at(before, entry, p as int);
                }
                table.insert(p, (format, label));
                assert(table_view(table@) =~= before.insert(p as int, entry));
            }
        }
        i = i + 1;
    }
    assert(views.take(i as int) =~= views);
    table
}

} // verus!
