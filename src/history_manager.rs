//! The bookkeeping of a resource pack's edit history: how snapshots are named and rotated, and
//! the metadata record kept beside them. Reading and writing the files is the caller's part.
use crate::bounded::{holds_key, keys_unique, slot_of, with_entry};
use crate::text::{append_decimal, decimal, lemma_decimal_length};
use vstd::prelude::*;

verus! {

/// How many snapshots of one file the history keeps unless told otherwise.
pub const DEFAULT_MAX_HISTORY: u32 = 30;

/// One saved snapshot of a file.
#[derive(Debug, Clone)]
pub struct HistoryEntry {
    pub timestamp: String,
    pub content: String,
    pub file_type: String,
}

/// What the metadata record knows of one file's history.
#[derive(Debug, Clone)]
pub struct FileHistoryInfo {
    pub history_count: u32,
    pub last_modified: String,
    pub size: u64,
}

/// The metadata record of a pack's history: per file, its history summary, keyed by the file's
/// path relative to the pack; and the total size of all histories.
#[derive(Debug)]
pub struct HistoryMetadata {
    pub version: String,
    pub max_history_per_file: u32,
    pub files: Vec<(String, FileHistoryInfo)>,
    pub total_size: u64,
}

/// The sum of the sizes of the file summaries.
pub open spec fn total_of(entries: Seq<(Seq<char>, FileHistoryInfo)>) -> nat
    decreases entries.len(),
{
    if entries.len() == 0 {
        0
    } else {
        total_of(entries.drop_last()) + entries.last().1.size as nat
    }
}

/// The views of the keys of a list of file summaries.
pub open spec fn summary_entries(v: Seq<(String, FileHistoryInfo)>) -> Seq<(Seq<char>, FileHistoryInfo)> {
    v.map_values(|p: (String, FileHistoryInfo)| (p.0@, p.1))
}

impl HistoryMetadata {
    /// The file summaries, keyed by path.
    pub open spec fn file_entries(&self) -> Seq<(Seq<char>, FileHistoryInfo)> {
        summary_entries(self.files@)
    }

    /// The record of a pack without history: version "1.0", the default limit, no files.
    pub fn initial() -> (r: HistoryMetadata)
        ensures
            r.version@ == seq!['1', '.', '0'],
            r.max_history_per_file == DEFAULT_MAX_HISTORY,
            r.file_entries().len() == 0,
            r.total_size == 0,
    {
        proof {
            reveal_strlit("1.0");
        }
        let r = HistoryMetadata {
            version: "1.0".to_owned(),
            max_history_per_file: DEFAULT_MAX_HISTORY,
            files: Vec::new(),
            total_size: 0,
        };
        assert(r.version@ =~= seq!['1', '.', '0']);
        r
    }

    /// The position of the summary of `file_path`, if there is one.
    fn find_file(&self, file_path: &String) -> (r: Option<usize>)
        ensures
            match r {
                Some(i) => i < self.file_entries().len() && self.file_entries()[i as int].0 == file_path@,
                None => !holds_key(self.file_entries(), file_path@),
            },
    {
        let mut i: usize = 0;
        while i < self.files.len()
            invariant
                i <= self.files@.len(),
                self.file_entries().len() == self.files@.len(),
                forall|j: int| 0 <= j < i ==> #[trigger] self.file_entries()[j].0 != file_path@,
            decreases self.files@.len() - i,
        {
            assert(self.file_entries()[i as int].0 == self.files@[i as int].0@);
            if self.files[i].0 == *file_path {
                return Some(i);
            }
            i = i + 1;
        }
        None
    }

    /// Records `info` as the summary of `file_path`, replacing an earlier one, and sets the total
    /// size to the sum of all summaries' sizes, capped at `u64::MAX`.
    pub fn record_file(&mut self, file_path: String, info: FileHistoryInfo)
        requires
            keys_unique(old(self).file_entries()),
        ensures
            keys_unique(final(self).file_entries()),
            final(self).file_entries() == with_entry(old(self).file_entries(), file_path@, info),
            final(self).total_size == if total_of(final(self).file_entries()) > u64::MAX {
                u64::MAX as nat
            } else {
                total_of(final(self).file_entries())
            },
            final(self).version == old(self).version,
            final(self).max_history_per_file == old(self).max_history_per_file,
    {
        let ghost before = self.file_entries();
        let found = self.find_file(&file_path);
        let ghost key = file_path@;
        match found {
            Some(j) => {
                proof {
                    assert(holds_key(before, key));
                    let s = slot_of(before, key);
                    if s != j as int {
                        if s < j as int {
                            assert(before[s].0 != before[j as int].0);
                        } else {
                            assert(before[j as int].0 != before[s].0);
                        }
                    }
                }
                let _ = self.files.remove(j);
                self.files.insert(j, (file_path, info));
                assert(self.file_entries() =~= before.update(j as int, (key, info)));
                assert forall|a: int, b: int| 0 <= a < b < self.file_entries().len() implies
                    #[trigger] self.file_entries()[a].0 != #[trigger] self.file_entries()[b].0 by {
                    assert(before[a].0 != before[b].0);
                }
            },
            None => {
                assert(!holds_key(before, key));
                self.files.push((file_path, info));
                assert(self.file_entries() =~= before.push((key, info)));
                assert forall|a: int, b: int| 0 <= a < b < self.file_entries().len() implies
                    #[trigger] self.file_entries()[a].0 != #[trigger] self.file_entries()[b].0 by {
                    assert(self.file_entries()[a] == before[a]);
                    if b < before.len() {
                        assert(self.file_entries()[b] == before[b]);
                    }
                }
            },
        }
        let ghost entries = self.file_entries();
        let mut total: u64 = 0;
        let mut k: usize = 0;
        while k < self.files.len()
            invariant
                k <= self.files@.len(),
                entries == self.file_entries(),
                total == if total_of(entries.take(k as int)) > u64::MAX {
                    u64::MAX as nat
                } else {
                    total_of(entries.take(k as int))
                },
            decreases self.files@.len() - k,
        {
            let ghost prefix = entries.take(k as int + 1);
            assert(prefix.drop_last() =~= entries.take(k as int));
            assert(prefix.last().1.size == self.files@[k as int].1.size);
            total = total.saturating_add(self.files[k].1.size);
            k = k + 1;
        }
        assert(entries.take(k as int) =~= entries);
        self.total_size = total;
    }
}

/// The name of the snapshot file numbered `number`: at least three decimal digits, zero
/// padded, then ".json".
pub open spec fn snapshot_name(number: u32) -> Seq<char> {
    let digits = decimal(number as nat);
    let padded = if digits.len() >= 3 {
        digits
    } else {
        Seq::new((3 - digits.len()) as nat, |i: int| '0') + digits
    };
    padded + seq!['.', 'j', 's', 'o', 'n']
}

/// The name of the snapshot file numbered `number`.
pub fn history_file_name(number: u32) -> (r: String)
    ensures
        r@ == snapshot_name(number),
{
    proof {
        lemma_decimal_length(number as nat);
        reveal_strlit("00");
        reveal_strlit("0");
        reveal_strlit(".json");
    }
    let mut name = String::new();
    if number < 10 {
        name.append("00");
    } else if number < 100 {
        name.append("0");
    }
    append_decimal(&mut name, number as u64);
    name.append(".json");
    assert(name@ =~= snapshot_name(number));
    name
}

/// `a` comes strictly before `b` in character order.
pub open spec fn text_before(a: Seq<char>, b: Seq<char>) -> bool
    decreases a.len(),
{
    if a.len() == 0 {
        b.len() > 0
    } else if b.len() == 0 {
        false
    } else if a[0] != b[0] {
        (a[0] as u32) < (b[0] as u32)
    } else {
        text_before(a.drop_first(), b.drop_first())
    }
}

proof fn lemma_before_split(a: Seq<char>, b: Seq<char>, i: int)
    requires
        0 <= i <= a.len(),
        i <= b.len(),
        a.take(i) == b.take(i),
    ensures
        text_before(a, b) == text_before(a.skip(i), b.skip(i)),
    decreases i,
{
    if i > 0 {
        assert(a[0] == a.take(i)[0]);
        assert(b[0] == b.take(i)[0]);
        assert(a.drop_first().take(i - 1) =~= a.take(i).drop_first());
        assert(b.drop_first().take(i - 1) =~= b.take(i).drop_first());
        lemma_before_split(a.drop_first(), b.drop_first(), i - 1);
        assert(a.drop_first().skip(i - 1) =~= a.skip(i));
        assert(b.drop_first().skip(i - 1) =~= b.skip(i));
    } else {
        assert(a.skip(0) =~= a);
        assert(b.skip(0) =~= b);
    }
}

/// Whether `a` comes strictly before `b` in character order.
pub fn name_before(a: &str, b: &str) -> (r: bool)
    ensures
        r == text_before(a@, b@),
{
    let n = a.unicode_len();
    let m = b.unicode_len();
    let mut i: usize = 0;
    while i < n && i < m
        invariant
            n == a@.len(),
            m == b@.len(),
            i <= n,
            i <= m,
            a@.take(i as int) == b@.take(i as int),
        decreases n - i,
    {
        let x = a.get_char(i);
        let y = b.get_char(i);
        if x != y {
            proof {
                lemma_before_split(a@, b@, i as int);
                assert(a@.skip(i as int)[0] == x);
                assert(b@.skip(i as int)[0] == y);
            }
            return (x as u32) < (y as u32);
        }
        assert(a@.take(i + 1) =~= a@.take(i as int).push(x));
        assert(b@.take(i + 1) =~= b@.take(i as int).push(y));
        i = i + 1;
    }
    proof {
        lemma_before_split(a@, b@, i as int);
    }
    i == n && i < m
}

/// What saving a new snapshot involves: which existing snapshot to delete, if any, the name
/// of the new one, and the count that the metadata then records.
#[derive(Debug)]
pub struct SnapshotPlan {
    /// The position, among the existing names, of the snapshot to delete.
    pub remove: Option<usize>,
    pub file_name: String,
    pub history_count: u32,
}

/// Plans the save of a new snapshot into a history that holds the files `existing`.
///
/// When the history holds `max_count` files or more, the file whose name comes first is
/// deleted. The new snapshot is numbered one past the count that remains.
pub fn plan_snapshot(existing: &Vec<String>, max_count: u32) -> (r: SnapshotPlan)
    requires
        existing@.len() < u32::MAX,
    ensures
        r.remove is Some <==> (existing@.len() >= max_count && existing@.len() > 0),
        r.remove matches Some(i) ==> i < existing@.len() && forall|j: int|
            0 <= j < existing@.len() ==> !text_before(#[trigger] existing@[j]@, existing@[i as int]@),
        r.history_count == existing@.len() - (if r.remove is Some { 1int } else { 0int }) + 1,
        r.file_name@ == snapshot_name(r.history_count),
{
    let count = existing.len() as u32;
    if count >= max_count && count > 0 {
        let mut least: usize = 0;
        let mut i: usize = 1;
        proof {
            lemma_before_irreflexive(existing@[0]@);
        }
        while i < existing.len()
            invariant
                existing@.len() > 0,
                1 <= i <= existing@.len(),
                least < i,
                forall|j: int| 0 <= j < i ==> !text_before(#[trigger] existing@[j]@, existing@[least as int]@),
            decreases existing@.len() - i,
        {
            if name_before(existing[i].as_str(), existing[least].as_str()) {
                proof {
                    assert forall|j: int| 0 <= j < i implies !text_before(#[trigger] existing@[j]@, existing@[i as int]@) by {
                        lemma_before_transitive(existing@[j]@, existing@[i as int]@, existing@[least as int]@);
                    }
                    lemma_before_irreflexive(existing@[i as int]@);
                }
                least = i;
            }
            i = i + 1;
        }
        let number = count;
        SnapshotPlan { remove: Some(least), file_name: history_file_name(number), history_count: number }
    } else {
        let number = count + 1;
        SnapshotPlan { remove: None, file_name: history_file_name(number), history_count: number }
    }
}

proof fn lemma_before_irreflexive(a: Seq<char>)
    ensures
        !text_before(a, a),
    decreases a.len(),
{
    if a.len() > 0 {
        lemma_before_irreflexive(a.drop_first());
    }
}

/// If `a` is not before `c` while `b` is before `c`, then `a` is not before `b`.
proof fn lemma_before_transitive(a: Seq<char>, b: Seq<char>, c: Seq<char>)
    requires
        !text_before(a, c),
        text_before(b, c),
    ensures
        !text_before(a, b),
    decreases a.len(),
{
    if a.len() > 0 && b.len() > 0 && c.len() > 0 && a[0] == b[0] && b[0] == c[0] {
        lemma_before_transitive(a.drop_first(), b.drop_first(), c.drop_first());
    }
}

} // verus!
