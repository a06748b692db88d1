//! Run statistics: how many files of each extension were skipped or copied,
//! and how many copies failed.

use vstd::prelude::*;
use crate::text::{decimal, push_decimal};

verus! {

/// The sum of the counts that `s` holds under key `k`.
pub open spec fn count_in(s: Seq<(Seq<char>, nat)>, k: Seq<char>) -> nat
    decreases s.len(),
{
    if s.len() == 0 {
        0
    } else {
        count_in(s.drop_last(), k) + if s.last().0 == k {
            s.last().1
        } else {
            0
        }
    }
}

/// The sum of all counts in `s`.
pub open spec fn total_of(s: Seq<(Seq<char>, nat)>) -> nat
    decreases s.len(),
{
    if s.len() == 0 {
        0
    } else {
        total_of(s.drop_last()) + s.last().1
    }
}

/// No key stands twice, and each count is at least one.
pub open spec fn well_keyed(s: Seq<(Seq<char>, nat)>) -> bool {
    &&& forall|i: int, j: int| 0 <= i < s.len() && 0 <= j < s.len() && i != j ==> s[i].0 != s[j].0
    &&& forall|i: int| 0 <= i < s.len() ==> #[trigger] s[i].1 >= 1
}

/// Whether `k` is a key of `s`.
pub open spec fn has_key(s: Seq<(Seq<char>, nat)>, k: Seq<char>) -> bool {
    exists|i: int| 0 <= i < s.len() && #[trigger] s[i].0 == k
}

/// `s` with one more event under key `k`: its count grows by one, or the
/// key is added at the end with a count of one.
pub open spec fn bumped(s: Seq<(Seq<char>, nat)>, k: Seq<char>) -> Seq<(Seq<char>, nat)> {
    if has_key(s, k) {
        let i = choose|i: int| 0 <= i < s.len() && #[trigger] s[i].0 == k;
        s.update(i, (k, s[i].1 + 1))
    } else {
        s.push((k, 1))
    }
}

proof fn lemma_update_one(s: Seq<(Seq<char>, nat)>, i: int, k: Seq<char>)
    requires
        0 <= i < s.len(),
    ensures
        count_in(s.update(i, (s[i].0, s[i].1 + 1)), k) == count_in(s, k) + if s[i].0 == k {
            1nat
        } else {
            0nat
        },
        total_of(s.update(i, (s[i].0, s[i].1 + 1))) == total_of(s) + 1,
    decreases s.len(),
{
    let t = s.update(i, (s[i].0, s[i].1 + 1));
    if i == s.len() - 1 {
        assert(t.drop_last() =~= s.drop_last());
    } else {
        assert(t.drop_last() =~= s.drop_last().update(i, (s[i].0, s[i].1 + 1)));
        lemma_update_one(s.drop_last(), i, k);
    }
}

proof fn lemma_push_one(s: Seq<(Seq<char>, nat)>, k: Seq<char>, j: Seq<char>)
    ensures
        count_in(s.push((k, 1)), j) == count_in(s, j) + if k == j {
            1nat
        } else {
            0nat
        },
        total_of(s.push((k, 1))) == total_of(s) + 1,
{
    assert(s.push((k, 1)).drop_last() =~= s);
}

/// One more event under `k` adds one to the count of `k` and to the total,
/// leaves every other count as it was, and keeps the keys well formed.
pub proof fn lemma_bumped(s: Seq<(Seq<char>, nat)>, k: Seq<char>)
    requires
        well_keyed(s),
    ensures
        well_keyed(bumped(s, k)),
        has_key(bumped(s, k), k),
        total_of(bumped(s, k)) == total_of(s) + 1,
        forall|j: Seq<char>| #[trigger]
            count_in(bumped(s, k), j) == count_in(s, j) + if j == k {
                1nat
            } else {
                0nat
            },
{
    if has_key(s, k) {
        let i = choose|i: int| 0 <= i < s.len() && #[trigger] s[i].0 == k;
        assert forall|j: Seq<char>| #[trigger]
            count_in(bumped(s, k), j) == count_in(s, j) + if j == k {
                1nat
            } else {
                0nat
            } by {
            lemma_update_one(s, i, j);
        }
        lemma_update_one(s, i, k);
        assert(bumped(s, k)[i].0 == k);
    } else {
        assert forall|j: Seq<char>| #[trigger]
            count_in(bumped(s, k), j) == count_in(s, j) + if j == k {
                1nat
            } else {
                0nat
            } by {
            lemma_push_one(s, k, j);
        }
        lemma_push_one(s, k, k);
        assert(bumped(s, k)[s.len() as int].0 == k);
    }
}

proof fn lemma_entry_within_total(s: Seq<(Seq<char>, nat)>, i: int)
    requires
        0 <= i < s.len(),
    ensures
        s[i].1 <= total_of(s),
    decreases s.len(),
{
    if i < s.len() - 1 {
        lemma_entry_within_total(s.drop_last(), i);
    }
}

/// Counts of events by file extension, in the order in which each extension
/// was first seen.
pub struct ExtensionCounts {
    keys: Vec<String>,
    counts: Vec<u64>,
}

impl View for ExtensionCounts {
    type V = Seq<(Seq<char>, nat)>;

    closed spec fn view(&self) -> Seq<(Seq<char>, nat)> {
        Seq::new(self.keys@.len(), |i: int| (self.keys@[i]@, self.counts@[i] as nat))
    }
}

impl ExtensionCounts {
    /// The two vectors agree in length and the view is well keyed.
    pub closed spec fn wf(&self) -> bool {
        &&& self.keys@.len() == self.counts@.len()
        &&& well_keyed(self@)
    }

    /// No events yet.
    pub fn new() -> (r: ExtensionCounts)
        ensures
            r.wf(),
            r@ == Seq::<(Seq<char>, nat)>::empty(),
    {
        let r = ExtensionCounts { keys: Vec::new(), counts: Vec::new() };
        assert(r@ =~= Seq::<(Seq<char>, nat)>::empty());
        r
    }

    /// How many distinct extensions have been counted.
    pub fn len(&self) -> (r: usize)
        requires
            self.wf(),
        ensures
            r == self@.len(),
    {
        self.keys.len()
    }

    /// The extension and count at position `i`.
    pub fn get(&self, i: usize) -> (r: (&String, u64))
        requires
            self.wf(),
            i < self@.len(),
        ensures
            r.0@ == self@[i as int].0,
            r.1 == self@[i as int].1,
    {
        (&self.keys[i], self.counts[i])
    }

    /// The count under extension `ext`; zero where it was never counted.
    pub fn count(&self, ext: &String) -> (r: u64)
        requires
            self.wf(),
        ensures
            r == count_in(self@, ext@),
    {
        let n = self.keys.len();
        let mut i: usize = 0;
        while i < n
            invariant
                self.wf(),
                n == self@.len(),
                i <= n,
                forall|j: int| 0 <= j < i ==> self@[j].0 != ext@,
            decreases n - i,
        {
            if self.keys[i] == *ext {
                proof {
                    lemma_count_at_key(self@, i as int);
                }
                return self.counts[i];
            }
            i = i + 1;
        }
        proof {
            lemma_count_absent(self@, ext@);
        }
        0
    }

    /// Counts one more event under extension `ext`.
    pub fn increment(&mut self, ext: &String)
        requires
            old(self).wf(),
            total_of(old(self)@) < u64::MAX,
        ensures
            final(self).wf(),
            final(self)@ == bumped(old(self)@, ext@),
    {
        let ghost s = self@;
        proof {
            lemma_bumped(s, ext@);
        }
        let n = self.keys.len();
        let mut i: usize = 0;
        while i < n
            invariant
                self.wf(),
                self@ == s,
                s == old(self)@,
                total_of(s) < u64::MAX,
                well_keyed(bumped(s, ext@)),
                n == s.len(),
                i <= n,
                forall|j: int| 0 <= j < i ==> s[j].0 != ext@,
            decreases n - i,
        {
            if self.keys[i] == *ext {
                let c = self.counts[i];
                proof {
                    assert(self.keys@[i as int]@ == ext@);
                    assert(s[i as int] == (self.keys@[i as int]@, c as nat));
                    assert(s[i as int].0 == ext@);
                    lemma_entry_within_total(s, i as int);
                    assert(has_key(s, ext@));
                    let k = choose|k: int| 0 <= k < s.len() && #[trigger] s[k].0 == ext@;
                    assert(k == i);
                    assert(bumped(s, ext@) == s.update(i as int, (ext@, s[i as int].1 + 1)));
                }
                self.counts.set(i, c + 1);
                assert(self@ =~= bumped(s, ext@));
                return;
            }
            i = i + 1;
        }
        self.keys.push(ext.clone());
        self.counts.push(1);
        assert(self@ =~= bumped(s, ext@));
    }
}

proof fn lemma_count_at_key(s: Seq<(Seq<char>, nat)>, i: int)
    requires
        well_keyed(s),
        0 <= i < s.len(),
    ensures
        count_in(s, s[i].0) == s[i].1,
    decreases s.len(),
{
    if i < s.len() - 1 {
        lemma_count_at_key(s.drop_last(), i);
    } else {
        lemma_count_absent(s.drop_last(), s[i].0);
    }
}

proof fn lemma_count_absent(s: Seq<(Seq<char>, nat)>, k: Seq<char>)
    requires
        forall|j: int| 0 <= j < s.len() ==> s[j].0 != k,
    ensures
        count_in(s, k) == 0,
    decreases s.len(),
{
    if s.len() > 0 {
        lemma_count_absent(s.drop_last(), k);
    }
}

/// The terminal outcome of one regular file.
#[derive(Clone, Debug, PartialEq, Eq)]
pub enum Outcome {
    /// Its metadata container could not be read; counted under its extension.
    Skipped(String),
    /// It was copied into its target folder; counted under its extension.
    Moved(String),
    /// Its copy failed; reported, and counted in no extension.
    CopyFailed,
}

/// What a run has counted so far.
pub struct StatsView {
    pub skipped: Seq<(Seq<char>, nat)>,
    pub moved: Seq<(Seq<char>, nat)>,
    pub copy_failures: nat,
    pub visited: nat,
}

impl StatsView {
    /// Every regular file visited has exactly one outcome counted.
    pub open spec fn consistent(self) -> bool {
        total_of(self.skipped) + total_of(self.moved) + self.copy_failures == self.visited
    }

    /// The counts after one more file with outcome `o`.
    pub open spec fn recorded(self, o: Outcome) -> StatsView {
        match o {
            Outcome::Skipped(e) => StatsView {
                skipped: bumped(self.skipped, e@),
                visited: self.visited + 1,
                ..self
            },
            Outcome::Moved(e) => StatsView {
                moved: bumped(self.moved, e@),
                visited: self.visited + 1,
                ..self
            },
            Outcome::CopyFailed => StatsView {
                copy_failures: self.copy_failures + 1,
                visited: self.visited + 1,
                ..self
            },
        }
    }
}

/// The statistics of one run: the files skipped and the files copied, by
/// extension, the failed copies, and the regular files visited.
pub struct RunStats {
    skipped: ExtensionCounts,
    moved: ExtensionCounts,
    copy_failures: u64,
    visited: u64,
}

impl View for RunStats {
    type V = StatsView;

    closed spec fn view(&self) -> StatsView {
        StatsView {
            skipped: self.skipped@,
            moved: self.moved@,
            copy_failures: self.copy_failures as nat,
            visited: self.visited as nat,
        }
    }
}

impl RunStats {
    /// Both counters are well formed, their keys well keyed, and the counts
    /// add up to the files visited.
    pub closed spec fn wf(&self) -> bool {
        &&& self.skipped.wf()
        &&& self.moved.wf()
        &&& well_keyed(self@.skipped)
        &&& well_keyed(self@.moved)
        &&& self@.consistent()
    }

    /// Nothing counted yet.
    pub fn new() -> (r: RunStats)
        ensures
            r.wf(),
            r@.skipped.len() == 0,
            r@.moved.len() == 0,
            r@.copy_failures == 0,
            r@.visited == 0,
    {
        RunStats {
            skipped: ExtensionCounts::new(),
            moved: ExtensionCounts::new(),
            copy_failures: 0,
            visited: 0,
        }
    }

    /// Counts the outcome of one more regular file.
    pub fn record(&mut self, o: &Outcome)
        requires
            old(self).wf(),
            old(self)@.visited < u64::MAX,
        ensures
            final(self).wf(),
            final(self)@ == old(self)@.recorded(*o),
    {
        proof {
            lemma_stays_consistent(self@, *o);
        }
        match o {
            Outcome::Skipped(e) => {
                self.skipped.increment(e);
            },
            Outcome::Moved(e) => {
                self.moved.increment(e);
            },
            Outcome::CopyFailed => {
                self.copy_failures = self.copy_failures + 1;
            },
        }
        self.visited = self.visited + 1;
    }

    /// How many files with extension `ext` were skipped.
    pub fn skipped_count(&self, ext: &String) -> (r: u64)
        requires
            self.wf(),
        ensures
            r == count_in(self@.skipped, ext@),
    {
        self.skipped.count(ext)
    }

    /// How many files with extension `ext` were copied.
    pub fn moved_count(&self, ext: &String) -> (r: u64)
        requires
            self.wf(),
        ensures
            r == count_in(self@.moved, ext@),
    {
        self.moved.count(ext)
    }

    /// How many copies failed.
    pub fn copy_failures(&self) -> (r: u64)
        ensures
            r == self@.copy_failures,
    {
        self.copy_failures
    }

    /// How many regular files were visited.
    pub fn visited(&self) -> (r: u64)
        ensures
            r == self@.visited,
    {
        self.visited
    }

    /// The end-of-run summary, one line per element: a section for the
    /// skipped files and one for the copied files, each left out where it
    /// counted nothing.
    pub fn summary_lines(&self) -> (r: Vec<String>)
        requires
            self.wf(),
        ensures
            r@.map_values(|l: String| l@) == summary(self@),
    {
        let mut lines: Vec<String> = Vec::new();
        push_section(&mut lines, "Skipped:", &self.skipped);
        push_section(&mut lines, "Moved:", &self.moved);
        assert(lines@.map_values(|l: String| l@) =~= summary(self@));
        lines
    }
}

/// One outcome adds one to exactly one of the skipped total, the copied total
/// and the failed copies, and one to the files visited, so the counts still
/// add up.
pub proof fn lemma_stays_consistent(v: StatsView, o: Outcome)
    requires
        well_keyed(v.skipped),
        well_keyed(v.moved),
    ensures
        well_keyed(v.recorded(o).skipped),
        well_keyed(v.recorded(o).moved),
        v.recorded(o).visited == v.visited + 1,
        total_of(v.recorded(o).skipped) == total_of(v.skipped) + if o is Skipped {
            1nat
        } else {
            0nat
        },
        total_of(v.recorded(o).moved) == total_of(v.moved) + if o is Moved {
            1nat
        } else {
            0nat
        },
        v.recorded(o).copy_failures == v.copy_failures + if o is CopyFailed {
            1nat
        } else {
            0nat
        },
        v.consistent() ==> v.recorded(o).consistent(),
{
    match o {
        Outcome::Skipped(e) => lemma_bumped(v.skipped, e@),
        Outcome::Moved(e) => lemma_bumped(v.moved, e@),
        Outcome::CopyFailed => {},
    }
}

/// The line that closes each section of the summary.
pub open spec fn separator() -> Seq<char> {
    "========================"@
}

/// The summary line of one extension and its count.
pub open spec fn count_line(p: (Seq<char>, nat)) -> Seq<char> {
    "  "@ + decimal(p.1) + " ."@ + p.0 + " files"@
}

/// A section of the summary: its title, a line per extension, and the
/// separator; nothing at all where no extension was counted.
pub open spec fn section(title: Seq<char>, s: Seq<(Seq<char>, nat)>) -> Seq<Seq<char>> {
    if s.len() == 0 {
        Seq::empty()
    } else {
        seq![title] + s.map_values(|p: (Seq<char>, nat)| count_line(p)) + seq![separator()]
    }
}

/// The whole summary: the skipped files, then the copied files.
pub open spec fn summary(v: StatsView) -> Seq<Seq<char>> {
    section("Skipped:"@, v.skipped) + section("Moved:"@, v.moved)
}

fn push_section(lines: &mut Vec<String>, title: &str, c: &ExtensionCounts)
    requires
        c.wf(),
    ensures
        final(lines)@.map_values(|l: String| l@) == old(lines)@.map_values(|l: String| l@)
            + section(title@, c@),
{
    let n = c.len();
    if n == 0 {
        assert(old(lines)@.map_values(|l: String| l@) + section(title@, c@) =~= old(
            lines,
        )@.map_values(|l: String| l@));
        return;
    }
    lines.push(String::from_str(title));
    let ghost start = lines@.map_values(|l: String| l@);
    let mut i: usize = 0;
    while i < n
        invariant
            c.wf(),
            n == c@.len(),
            i <= n,
            lines@.map_values(|l: String| l@) == start + c@.subrange(0, i as int).map_values(
                |p: (Seq<char>, nat)| count_line(p),
            ),
        decreases n - i,
    {
        let (key, count) = c.get(i);
        let mut line = String::from_str("  ");
        push_decimal(&mut line, count);
        line.append(" .");
        line.append(key.as_str());
        line.append(" files");
        assert(line@ == count_line(c@[i as int]));
        let ghost before = lines@;
        lines.push(line);
        assert(lines@.map_values(|l: String| l@) =~= before.map_values(|l: String| l@).push(line@));
        assert(c@.subrange(0, i + 1).map_values(|p: (Seq<char>, nat)| count_line(p)) =~= c@.subrange(
            0,
            i as int,
        ).map_values(|p: (Seq<char>, nat)| count_line(p)).push(count_line(c@[i as int])));
        i = i + 1;
    }
    let ghost before = lines@;
    lines.push(String::from_str("========================"));
    assert(lines@.map_values(|l: String| l@) =~= before.map_values(|l: String| l@).push(
        separator(),
    ));
    assert(c@.subrange(0, n as int) =~= c@);
    assert(lines@.map_values(|l: String| l@) =~= old(lines)@.map_values(|l: String| l@)
        + section(title@, c@));
}

} // verus!
