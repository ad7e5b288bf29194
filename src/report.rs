use vstd::prelude::*;

verus! {

/// Largest magnitude, in nanoseconds from the Unix epoch, of a modification time
/// that the host can report (an `i64` count of seconds plus a sub-second part).
pub const TIME_BOUND: i128 = 9_223_372_036_854_775_807_999_999_999;

/// A modification time is a count of nanoseconds relative to the Unix epoch.
pub open spec fn is_time(t: i128) -> bool {
    -TIME_BOUND <= t <= TIME_BOUND
}

/// What the walker could read about one regular file. A field is `None` where
/// reading it failed; such a file counts as zero bytes and takes no part in the
/// modification-time maximum.
#[derive(Clone, Copy, Debug, PartialEq, Eq, Structural)]
pub struct FileRecord {
    pub bytes_on_disk: Option<u64>,
    pub modified: Option<i128>,
}

impl FileRecord {
    pub open spec fn bytes(self) -> int {
        match self.bytes_on_disk {
            Some(b) => b as int,
            None => 0,
        }
    }

    pub open spec fn well_formed(self) -> bool {
        match self.modified {
            Some(t) => is_time(t),
            None => true,
        }
    }
}

/// Sum of the readable sizes.
pub open spec fn total_bytes(records: Seq<FileRecord>) -> int
    decreases records.len(),
{
    if records.len() == 0 {
        0
    } else {
        total_bytes(records.drop_last()) + records.last().bytes()
    }
}

/// The later of two optional times; an absent time never wins.
pub open spec fn later(a: Option<i128>, b: Option<i128>) -> Option<i128> {
    match (a, b) {
        (Some(x), Some(y)) => if y > x { Some(y) } else { Some(x) },
        (Some(x), None) => Some(x),
        (None, _) => b,
    }
}

/// Maximum of the readable modification times, absent when none was readable.
pub open spec fn latest_modified(records: Seq<FileRecord>) -> Option<i128>
    decreases records.len(),
{
    if records.len() == 0 {
        None
    } else {
        later(latest_modified(records.drop_last()), records.last().modified)
    }
}

/// A size that saturates at the largest `u64`.
pub open spec fn capped(n: int) -> u64 {
    if n <= u64::MAX { n as u64 } else { u64::MAX }
}

pub open spec fn all_well_formed(records: Seq<FileRecord>) -> bool {
    forall|i: int| 0 <= i < records.len() ==> #[trigger] records[i].well_formed()
}

/// The result of aggregating one immediate child of the scanned directory.
#[derive(Debug)]
pub struct SizeReport {
    pub path: String,
    pub is_directory: bool,
    pub total_bytes_on_disk: u64,
    pub latest_modified: Option<i128>,
}

/// The mathematical content of a `SizeReport`.
pub struct ReportView {
    pub path: Seq<char>,
    pub is_directory: bool,
    pub total_bytes_on_disk: u64,
    pub latest_modified: Option<i128>,
}

impl View for SizeReport {
    type V = ReportView;

    open spec fn view(&self) -> ReportView {
        ReportView {
            path: self.path@,
            is_directory: self.is_directory,
            total_bytes_on_disk: self.total_bytes_on_disk,
            latest_modified: self.latest_modified,
        }
    }
}

impl SizeReport {
    /// A copy that holds the same values.
    pub fn duplicate(&self) -> (r: SizeReport)
        ensures
            r@ == self@,
    {
        SizeReport {
            path: self.path.clone(),
            is_directory: self.is_directory,
            total_bytes_on_disk: self.total_bytes_on_disk,
            latest_modified: self.latest_modified,
        }
    }

    /// Report for a regular file: its own size and time, each degraded to
    /// zero / absent where it could not be read.
    pub fn for_file(path: String, record: FileRecord) -> (r: SizeReport)
        ensures
            r.path@ == path@,
            !r.is_directory,
            r.total_bytes_on_disk as int == record.bytes(),
            r.latest_modified == record.modified,
    {
        let total_bytes_on_disk = match record.bytes_on_disk {
            Some(b) => b,
            None => 0,
        };
        SizeReport { path, is_directory: false, total_bytes_on_disk, latest_modified: record.modified }
    }

    /// Report for a directory from the records of every file found below it.
    pub fn for_directory(path: String, records: &Vec<FileRecord>) -> (r: SizeReport)
        ensures
            r.path@ == path@,
            r.is_directory,
            r.total_bytes_on_disk == capped(total_bytes(records@)),
            r.latest_modified == latest_modified(records@),
    {
        let (total_bytes_on_disk, latest_modified) = aggregate(records);
        SizeReport { path, is_directory: true, total_bytes_on_disk, latest_modified }
    }
}

proof fn lemma_total_bytes_nonneg(records: Seq<FileRecord>)
    ensures
        total_bytes(records) >= 0,
    decreases records.len(),
{
    if records.len() > 0 {
        lemma_total_bytes_nonneg(records.drop_last());
    }
}

/// Sums the readable sizes (saturating at the largest `u64`) and keeps the
/// latest readable modification time.
pub fn aggregate(records: &Vec<FileRecord>) -> (r: (u64, Option<i128>))
    ensures
        r.0 == capped(total_bytes(records@)),
        r.1 == latest_modified(records@),
{
    let mut total: u64 = 0;
    let mut latest: Option<i128> = None;
    let mut i: usize = 0;
    while i < records.len()
        invariant
            i <= records.len(),
            total == capped(total_bytes(records@.subrange(0, i as int))),
            latest == latest_modified(records@.subrange(0, i as int)),
        decreases records.len() - i,
    {
        let rec = records[i];
        let prefix = Ghost(records@.subrange(0, i as int));
        let next = Ghost(records@.subrange(0, i as int + 1));
        proof {
            assert(next@.drop_last() =~= prefix@);
            assert(next@.last() == rec);
            lemma_total_bytes_nonneg(prefix@);
        }
        match rec.bytes_on_disk {
            Some(b) => {
                total = total.saturating_add(b);
            },
            None => {},
        }
        match rec.modified {
            Some(t) => {
                match latest {
                    Some(x) => {
                        if t > x {
                            latest = Some(t);
                        }
                    },
                    None => {
                        latest = Some(t);
                    },
                }
            },
            None => {},
        }
        i = i + 1;
    }
    proof {
        assert(records@.subrange(0, i as int) =~= records@);
    }
    (total, latest)
}

} // verus!
