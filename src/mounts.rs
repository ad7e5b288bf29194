use vstd::prelude::*;

verus! {

/// A mounted filesystem: where it is mounted and how many bytes it holds.
#[derive(Debug)]
pub struct Mount {
    pub mount_point: String,
    pub total_space: u64,
}

/// Whether `base` is a leading run of whole components of `path`.
pub uninterp spec fn path_within(path: Seq<char>, base: Seq<char>) -> bool;

/// Relies on `std::path::Path::starts_with`, which compares whole components.
#[verifier::external_body]
fn path_starts_with(path: &str, base: &str) -> (r: bool)
    ensures
        r == path_within(path@, base@),
{
    std::path::Path::new(path).starts_with(base)
}

/// `best` is a mount whose point holds the path, with the longest point among
/// those; the first such mount in the list where several are equally long.
pub open spec fn is_best_mount(points: Seq<Seq<char>>, holds: Seq<bool>, best: int) -> bool {
    &&& 0 <= best < points.len()
    &&& holds[best]
    &&& forall|j: int| 0 <= j < points.len() && #[trigger] holds[j] ==> points[j].len() <= points[best].len()
    &&& forall|j: int| 0 <= j < best && #[trigger] holds[j] ==> points[j].len() < points[best].len()
}

pub open spec fn mount_points(mounts: Seq<Mount>) -> Seq<Seq<char>> {
    mounts.map_values(|m: Mount| m.mount_point@)
}

/// Index of the mount that holds the path, given for each mount whether it
/// does (`holds`): the longest mount point wins, the first among equals.
pub fn longest_holding_mount(mounts: &Vec<Mount>, holds: &Vec<bool>) -> (r: Option<usize>)
    requires
        holds.len() == mounts.len(),
    ensures
        r matches Some(i) ==> is_best_mount(mount_points(mounts@), holds@, i as int),
        r is None <==> forall|j: int| 0 <= j < holds.len() ==> !#[trigger] holds@[j],
{
    let ghost points = mount_points(mounts@);
    let mut best: Option<usize> = None;
    let mut best_len: usize = 0;
    let mut i: usize = 0;
    while i < mounts.len()
        invariant
            i <= mounts.len(),
            holds.len() == mounts.len(),
            points == mount_points(mounts@),
            best is None <==> forall|j: int| 0 <= j < i ==> !#[trigger] holds@[j],
            best matches Some(b) ==> b < i && holds@[b as int] && best_len == points[b as int].len()
                && (forall|j: int| 0 <= j < i && #[trigger] holds@[j] ==> points[j].len() <= best_len)
                && (forall|j: int| 0 <= j < b && #[trigger] holds@[j] ==> points[j].len() < best_len),
        decreases mounts.len() - i,
    {
        if holds[i] {
            let len = mounts[i].mount_point.as_str().unicode_len();
            match best {
                None => {
                    best = Some(i);
                    best_len = len;
                },
                Some(_) => {
                    if len > best_len {
                        best = Some(i);
                        best_len = len;
                    }
                },
            }
        }
        i = i + 1;
    }
    best
}

/// Capacity of the filesystem mounted at the longest mount point that holds
/// `path`; `None` where no mount holds it.
pub fn capacity_for(path: &str, mounts: &Vec<Mount>) -> (r: Option<u64>)
    ensures
        r is None <==> forall|j: int| 0 <= j < mounts.len() ==> !path_within(path@, #[trigger] mounts@[j].mount_point@),
        r matches Some(c) ==> exists|b: int|
            is_best_mount(mount_points(mounts@), Seq::new(mounts.len() as nat, |j: int| path_within(path@, mounts@[j].mount_point@)), b)
                && c == mounts@[b].total_space,
{
    let mut holds: Vec<bool> = Vec::new();
    let mut i: usize = 0;
    while i < mounts.len()
        invariant
            i <= mounts.len(),
            holds@ =~= Seq::new(i as nat, |j: int| path_within(path@, mounts@[j].mount_point@)),
        decreases mounts.len() - i,
    {
        let h = path_starts_with(path, mounts[i].mount_point.as_str());
        holds.push(h);
        i = i + 1;
    }
    match longest_holding_mount(mounts, &holds) {
        Some(b) => Some(mounts[b].total_space),
        None => {
            proof {
                assert forall|j: int| 0 <= j < mounts.len() implies !path_within(path@, #[trigger] mounts@[j].mount_point@) by {
                    assert(!holds@[j]);
                }
            }
            None
        },
    }
}

} // verus!
