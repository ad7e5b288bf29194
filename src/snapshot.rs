use vstd::prelude::*;
use vstd::arithmetic::div_mod::{lemma_fundamental_div_mod, lemma_mod_pos_bound};

use crate::order::{is_size_order, lemma_size_order_unique, size_order};
use crate::report::SizeReport;

verus! {

/// Sizes above `red` are classified red, sizes above `yellow` (and not above
/// `red`) yellow, the rest neutral.
#[derive(Clone, Copy, Debug, PartialEq, Eq, Structural)]
pub struct Thresholds {
    pub red: u128,
    pub yellow: u128,
}

#[derive(Clone, Copy, Debug, PartialEq, Eq, Structural)]
pub enum Classification {
    Red,
    Yellow,
    Neutral,
}

pub open spec fn thresholds_spec(capacity: Option<u64>, snapshot_total: int) -> Thresholds {
    match capacity {
        Some(c) => Thresholds { red: (c / 100) as u128, yellow: (c / 1000) as u128 },
        None => Thresholds { red: (snapshot_total / 10) as u128, yellow: (snapshot_total / 100) as u128 },
    }
}

/// Thresholds from the filesystem's capacity where one is given (1% and 0.1%),
/// else from the snapshot's own total (10% and 1%).
pub fn thresholds(capacity: Option<u64>, snapshot_total: u128) -> (t: Thresholds)
    ensures
        t == thresholds_spec(capacity, snapshot_total as int),
{
    match capacity {
        Some(c) => Thresholds { red: (c / 100) as u128, yellow: (c / 1000) as u128 },
        None => Thresholds { red: snapshot_total / 10, yellow: snapshot_total / 100 },
    }
}

pub open spec fn classification(size: u64, t: Thresholds) -> Classification {
    if size as int > t.red as int {
        Classification::Red
    } else if size as int > t.yellow as int {
        Classification::Yellow
    } else {
        Classification::Neutral
    }
}

pub fn classify(size: u64, t: &Thresholds) -> (c: Classification)
    ensures
        c == classification(size, *t),
{
    if size as u128 > t.red {
        Classification::Red
    } else if size as u128 > t.yellow {
        Classification::Yellow
    } else {
        Classification::Neutral
    }
}

/// Share of `size` in `denominator`, in hundredths of a percent, rounded to the
/// nearest (halves up); zero when the denominator is zero.
pub open spec fn percent_hundredths(size: int, denominator: int) -> int {
    if denominator == 0 {
        0
    } else {
        (20000 * size + denominator) / (2 * denominator)
    }
}

pub fn percentage(size: u64, denominator: u128) -> (r: u128)
    ensures
        r as int == percent_hundredths(size as int, denominator as int),
{
    if denominator == 0 {
        0
    } else {
        let d: u128 = denominator;
        let s: u128 = size as u128;
        proof {
            assert(s * 20000 <= 0xffff_ffff_ffff_ffffu128 * 20000) by (nonlinear_arith)
                requires s <= 0xffff_ffff_ffff_ffffu128;
        }
        if d <= 0x7fff_ffff_ffff_ffff_ffff_ffff_ffff_fff0u128 {
            (20000 * s + d) / (2 * d)
        } else {
            // the denominator dwarfs the size: the rounded share is zero
            proof {
                assert((20000 * s + d) / (2 * d) == 0) by (nonlinear_arith)
                    requires s * 20000 <= 0xffff_ffff_ffff_ffffu128 * 20000, d > 0x7fff_ffff_ffff_ffff_ffff_ffff_ffff_fff0u128;
            }
            0
        }
    }
}

pub open spec fn sizes_of(reports: Seq<SizeReport>) -> Seq<u64> {
    reports.map_values(|r: SizeReport| r.total_bytes_on_disk)
}

pub open spec fn sum_sizes(sizes: Seq<u64>) -> int
    decreases sizes.len(),
{
    if sizes.len() == 0 {
        0
    } else {
        sum_sizes(sizes.drop_last()) + sizes.last()
    }
}

/// `output` holds the reports of `input` in the listing `order`.
pub open spec fn arranged(input: Seq<SizeReport>, output: Seq<SizeReport>, order: Seq<usize>) -> bool {
    &&& output.len() == order.len()
    &&& forall|i: int| 0 <= i < output.len() ==> #[trigger] output[i]@ == input[order[i] as int]@
}

/// The reports of one scan, sorted, with the denominator for percentages and
/// the colour thresholds derived from it.
pub struct ScanSnapshot {
    pub reports: Vec<SizeReport>,
    pub denominator: u128,
    pub thresholds: Thresholds,
}

impl ScanSnapshot {
    /// Colour class of the entry at `i`.
    pub fn classification_at(&self, i: usize) -> (c: Classification)
        requires
            i < self.reports.len(),
        ensures
            c == classification(self.reports@[i as int].total_bytes_on_disk, self.thresholds),
    {
        classify(self.reports[i].total_bytes_on_disk, &self.thresholds)
    }

    /// Share of the entry at `i` in the denominator, in hundredths of a percent.
    pub fn share_at(&self, i: usize) -> (r: u128)
        requires
            i < self.reports.len(),
        ensures
            r as int == percent_hundredths(self.reports@[i as int].total_bytes_on_disk as int, self.denominator as int),
    {
        percentage(self.reports[i].total_bytes_on_disk, self.denominator)
    }
}

proof fn lemma_sum_bound(sizes: Seq<u64>)
    ensures
        0 <= sum_sizes(sizes) <= sizes.len() * 0xffff_ffff_ffff_ffffint,
    decreases sizes.len(),
{
    if sizes.len() > 0 {
        lemma_sum_bound(sizes.drop_last());
    }
}

/// Sum of the sizes of `reports`.
pub fn snapshot_total(reports: &Vec<SizeReport>) -> (total: u128)
    ensures
        total as int == sum_sizes(sizes_of(reports@)),
{
    let ghost s = sizes_of(reports@);
    let mut total: u128 = 0;
    let mut i: usize = 0;
    while i < reports.len()
        invariant
            i <= reports.len(),
            s == sizes_of(reports@),
            total as int == sum_sizes(s.subrange(0, i as int)),
        decreases reports.len() - i,
    {
        proof {
            let next = s.subrange(0, i as int + 1);
            assert(next.drop_last() =~= s.subrange(0, i as int));
            lemma_sum_bound(s.subrange(0, i as int));
            assert(i * 0xffff_ffff_ffff_ffffint + 0xffff_ffff_ffff_ffffint < 0x1_0000_0000_0000_0000_0000_0000_0000_0000int)
                by (nonlinear_arith) requires i < 0x1_0000_0000_0000_0000int;
        }
        total = total + reports[i].total_bytes_on_disk as u128;
        i = i + 1;
    }
    proof {
        assert(s.subrange(0, i as int) =~= s);
    }
    total
}

/// Orders the reports by descending size (stable among equal sizes) and fixes
/// the denominator: the capacity where one is given, else the snapshot's total.
pub fn build_snapshot(reports: Vec<SizeReport>, capacity: Option<u64>) -> (snap: ScanSnapshot)
    ensures
        exists|order: Seq<usize>|
            is_size_order(sizes_of(reports@), order) && arranged(reports@, snap.reports@, order),
        snap.denominator as int == match capacity {
            Some(c) => c as int,
            None => sum_sizes(sizes_of(snap.reports@)),
        },
        snap.thresholds == thresholds_spec(capacity, sum_sizes(sizes_of(snap.reports@))),
{
    let mut sizes: Vec<u64> = Vec::new();
    let mut i: usize = 0;
    while i < reports.len()
        invariant
            i <= reports.len(),
            sizes@ =~= sizes_of(reports@).subrange(0, i as int),
        decreases reports.len() - i,
    {
        sizes.push(reports[i].total_bytes_on_disk);
        i = i + 1;
    }
    proof {
        assert(sizes@ =~= sizes_of(reports@));
    }
    let order = size_order(&sizes);
    let mut sorted: Vec<SizeReport> = Vec::new();
    let mut j: usize = 0;
    while j < order.len()
        invariant
            j <= order.len(),
            is_size_order(sizes_of(reports@), order@),
            sorted@.len() == j,
            forall|k: int| 0 <= k < j ==> #[trigger] sorted@[k]@ == reports@[order@[k] as int]@,
        decreases order.len() - j,
    {
        let r = reports[order[j]].duplicate();
        sorted.push(r);
        j = j + 1;
    }
    let total = snapshot_total(&sorted);
    let denominator: u128 = match capacity {
        Some(c) => c as u128,
        None => total,
    };
    let t = thresholds(capacity, total);
    ScanSnapshot { reports: sorted, denominator, thresholds: t }
}

/// Sum of the rounded shares of `sizes` against `denominator`, in hundredths of a percent.
pub open spec fn percent_total(sizes: Seq<u64>, denominator: int) -> int
    decreases sizes.len(),
{
    if sizes.len() == 0 {
        0
    } else {
        percent_total(sizes.drop_last(), denominator) + percent_hundredths(sizes.last() as int, denominator)
    }
}

proof fn lemma_share_error(sizes: Seq<u64>, d: int)
    requires
        d > 0,
    ensures
        -(sizes.len() * d) <= 2 * d * percent_total(sizes, d) - 20000 * sum_sizes(sizes) <= sizes.len() * d,
    decreases sizes.len(),
{
    if sizes.len() > 0 {
        let rest = sizes.drop_last();
        lemma_share_error(rest, d);
        let x = sizes.last() as int;
        let a = 20000 * x + d;
        lemma_fundamental_div_mod(a, 2 * d);
        lemma_mod_pos_bound(a, 2 * d);
        let h = percent_hundredths(x, d);
        let q = a / (2 * d);
        let r = a % (2 * d);
        assert(h == q);
        assert(a == (2 * d) * q + r);
        assert(0 <= r < 2 * d);
        let n = rest.len() as int;
        let p = percent_total(rest, d);
        let t = sum_sizes(rest);
        assert(percent_total(sizes, d) == p + h);
        assert(sum_sizes(sizes) == t + x);
        assert(sizes.len() == n + 1);
        assert(-((n + 1) * d) <= 2 * d * (p + h) - 20000 * (t + x) <= (n + 1) * d) by (nonlinear_arith)
            requires
                -(n * d) <= 2 * d * p - 20000 * t <= n * d,
                a == 20000 * x + d,
                a == (2 * d) * h + r,
                0 <= r < 2 * d,
                d > 0,
        ;
    }
}

/// Measured against the snapshot's own total, the rounded shares of all entries
/// add up to 100% (10000 hundredths), off by at most half a hundredth per entry.
pub proof fn lemma_shares_add_up(sizes: Seq<u64>)
    requires
        sum_sizes(sizes) > 0,
    ensures
        -(sizes.len() as int) <= 2 * percent_total(sizes, sum_sizes(sizes)) - 20000 <= sizes.len(),
{
    let d = sum_sizes(sizes);
    let n = sizes.len() as int;
    let h = percent_total(sizes, d);
    lemma_share_error(sizes, d);
    assert(2 * d * h - 20000 * d == d * (2 * h - 20000)) by (nonlinear_arith);
    assert(-n <= 2 * h - 20000 <= n) by (nonlinear_arith)
        requires
            d > 0,
            -(n * d) <= d * (2 * h - 20000) <= n * d;
}

/// When no entry holds a byte (or there is no entry), the snapshot's total is
/// zero and every share is zero.
pub proof fn lemma_zero_total_shares(sizes: Seq<u64>)
    requires
        forall|i: int| 0 <= i < sizes.len() ==> sizes[i] == 0,
    ensures
        sum_sizes(sizes) == 0,
        forall|i: int| 0 <= i < sizes.len() ==> percent_hundredths(sizes[i] as int, sum_sizes(sizes)) == 0,
    decreases sizes.len(),
{
    if sizes.len() > 0 {
        lemma_zero_total_shares(sizes.drop_last());
    }
}

/// The sorted reports of a snapshot depend on the input reports alone: two
/// arrangements that both meet the snapshot's ordering hold the same reports.
pub proof fn lemma_snapshot_determined(
    input: Seq<SizeReport>,
    first: Seq<SizeReport>,
    second: Seq<SizeReport>,
    first_order: Seq<usize>,
    second_order: Seq<usize>,
)
    requires
        is_size_order(sizes_of(input), first_order),
        arranged(input, first, first_order),
        is_size_order(sizes_of(input), second_order),
        arranged(input, second, second_order),
    ensures
        first.len() == second.len(),
        forall|i: int| 0 <= i < first.len() ==> #[trigger] first[i]@ == second[i]@,
{
    lemma_size_order_unique(sizes_of(input), first_order, second_order);
}

} // verus!
