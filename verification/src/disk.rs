//! Which mounted volume holds a path, and that volume's usage as one line.

use crate::mem::{used_bytes, used_of};
use crate::util::format::{fmt_share_1dp, humanize_bytes_short, share_text, short_text};
use vstd::prelude::*;
use vstd::slice::*;
use vstd::string::*;
use vstd::utf8::encode_utf8;

verus! {

/// The byte that separates the components of a path.
pub const SEPARATOR: u8 = 0x2F;

/// The byte of a dot; a component that is one dot names the directory itself.
pub const DOT: u8 = 0x2E;

/// The components read so far, with the segment `current` brought to its end:
/// an empty segment and a single dot name nothing and are left out.
pub open spec fn close_segment(done: Seq<Seq<u8>>, current: Seq<u8>) -> Seq<Seq<u8>> {
    if current.len() == 0 || current == seq![DOT] {
        done
    } else {
        done.push(current)
    }
}

/// Reads a path byte by byte: the components that a separator has ended, and
/// the segment that is still open.
pub open spec fn scan(path: Seq<u8>) -> (Seq<Seq<u8>>, Seq<u8>)
    decreases path.len(),
{
    if path.len() == 0 {
        (Seq::empty(), Seq::empty())
    } else {
        let (done, current) = scan(path.drop_last());
        if path.last() == SEPARATOR {
            (close_segment(done, current), Seq::empty())
        } else {
            (done, current.push(path.last()))
        }
    }
}

/// How a path begins: with the root, written here as a lone separator, when
/// its first byte is a separator; with the directory itself, a lone dot, when
/// it is `.` or begins with `./`; else with nothing.
pub open spec fn leading(path: Seq<u8>) -> Seq<Seq<u8>> {
    if path.len() > 0 && path[0] == SEPARATOR {
        seq![seq![SEPARATOR]]
    } else if path.len() > 0 && path[0] == DOT && (path.len() == 1 || path[1] == SEPARATOR) {
        seq![seq![DOT]]
    } else {
        Seq::empty()
    }
}

/// The components of a path: how it begins, then every segment between
/// separators that is neither empty nor a single dot. Repeated and trailing
/// separators therefore change nothing.
pub open spec fn components(path: Seq<u8>) -> Seq<Seq<u8>> {
    let (done, current) = scan(path);
    leading(path) + close_segment(done, current)
}

/// A segment that names something: not empty, without a separator, and not a
/// single dot.
pub open spec fn is_plain(name: Seq<u8>) -> bool {
    &&& name.len() > 0
    &&& name != seq![DOT]
    &&& forall|i: int| 0 <= i < name.len() ==> #[trigger] name[i] != SEPARATOR
}

/// Bytes without a separator, read after `path`, only lengthen the segment
/// that is open.
pub proof fn lemma_scan_segment(path: Seq<u8>, name: Seq<u8>)
    requires
        forall|i: int| 0 <= i < name.len() ==> #[trigger] name[i] != SEPARATOR,
    ensures
        scan(path + name) == (scan(path).0, scan(path).1 + name),
    decreases name.len(),
{
    if name.len() == 0 {
        assert(path + name =~= path);
        assert(scan(path).1 + name =~= scan(path).1);
    } else {
        let front = name.drop_last();
        lemma_scan_segment(path, front);
        assert((path + name).drop_last() =~= path + front);
        assert((path + name).last() == name.last());
        assert((scan(path).1 + front).push(name.last()) =~= scan(path).1 + name);
    }
}

/// A separator at the end of a path that is not empty changes nothing of its
/// components.
pub proof fn lemma_trailing_separator(path: Seq<u8>)
    requires
        path.len() > 0,
    ensures
        components(path.push(SEPARATOR)) == components(path),
{
    let longer = path.push(SEPARATOR);
    assert(longer.drop_last() =~= path);
    assert(longer[0] == path[0]);
    if path.len() > 1 {
        assert(longer[1] == path[1]);
    }
}

/// A plain segment after a path that ends in a separator adds one component,
/// itself.
pub proof fn lemma_next_component(path: Seq<u8>, name: Seq<u8>)
    requires
        path.len() > 0,
        path.last() == SEPARATOR,
        is_plain(name),
    ensures
        components(path + name) == components(path).push(name),
{
    lemma_scan_segment(path, name);
    let longer = path + name;
    assert(scan(path).1 =~= Seq::<u8>::empty());
    assert(scan(path).1 + name =~= name);
    assert(longer[0] == path[0]);
    if path.len() > 1 {
        assert(longer[1] == path[1]);
    }
    assert(leading(longer) == leading(path));
    assert(components(longer) =~= components(path).push(name));
}

/// Whether `base` is a prefix of `path`, component by component.
pub open spec fn starts_with_path(path: Seq<char>, base: Seq<char>) -> bool {
    components(encode_utf8(base)).is_prefix_of(components(encode_utf8(path)))
}

/// The contents of a list of byte strings.
pub open spec fn contents(list: Seq<Vec<u8>>) -> Seq<Seq<u8>> {
    list.map_values(|item: Vec<u8>| item@)
}

/// Splits a path into its components.
pub fn path_components(path: &[u8]) -> (list: Vec<Vec<u8>>)
    ensures
        contents(list@) == components(path@),
{
    let n = path.len();
    let mut done: Vec<Vec<u8>> = Vec::new();
    if n > 0 && path[0] == SEPARATOR {
        done.push(vec![SEPARATOR]);
    } else if n > 0 && path[0] == DOT && (n == 1 || path[1] == SEPARATOR) {
        done.push(vec![DOT]);
    }
    assert(contents(done@) =~~= leading(path@));
    let mut current: Vec<u8> = Vec::new();
    let mut i: usize = 0;
    assert(path@.take(0) =~= Seq::<u8>::empty());
    while i < n
        invariant
            n == path@.len(),
            i <= n,
            contents(done@) == leading(path@) + scan(path@.take(i as int)).0,
            current@ == scan(path@.take(i as int)).1,
        decreases n - i,
    {
        let b = path[i];
        proof {
            assert(path@.take(i + 1).drop_last() =~= path@.take(i as int));
            assert(path@.take(i + 1).last() == b);
        }
        if b == SEPARATOR {
            if current.len() != 0 && !(current.len() == 1 && current[0] == DOT) {
                assert(current@ != seq![DOT]);
                let ghost before = done@;
                done.push(current);
                assert(contents(done@) =~= contents(before).push(done@.last()@));
            } else {
                assert(current@.len() == 0 || current@ =~= seq![DOT]);
            }
            current = Vec::new();
            assert(contents(done@) =~= leading(path@) + scan(path@.take(i + 1)).0);
        } else {
            current.push(b);
        }
        i += 1;
    }
    assert(path@.take(n as int) =~= path@);
    if current.len() != 0 && !(current.len() == 1 && current[0] == DOT) {
        assert(current@ != seq![DOT]);
        let ghost before = done@;
        done.push(current);
        assert(contents(done@) =~= contents(before).push(done@.last()@));
        assert(contents(done@) =~= components(path@));
    } else {
        assert(current@.len() == 0 || current@ =~= seq![DOT]);
        assert(contents(done@) =~= components(path@));
    }
    done
}

/// Tells whether two byte strings are the same.
pub fn same_bytes(a: &Vec<u8>, b: &Vec<u8>) -> (same: bool)
    ensures
        same == (a@ == b@),
{
    if a.len() != b.len() {
        return false;
    }
    let mut i: usize = 0;
    while i < a.len()
        invariant
            a@.len() == b@.len(),
            i <= a@.len(),
            forall|k: int| 0 <= k < i ==> a@[k] == b@[k],
        decreases a@.len() - i,
    {
        if a[i] != b[i] {
            return false;
        }
        i += 1;
    }
    assert(a@ =~= b@);
    true
}

/// Tells whether the list `base` is a prefix of the list `path`.
pub fn is_list_prefix(base: &Vec<Vec<u8>>, path: &Vec<Vec<u8>>) -> (prefix: bool)
    ensures
        prefix == contents(base@).is_prefix_of(contents(path@)),
{
    if base.len() > path.len() {
        return false;
    }
    let mut i: usize = 0;
    while i < base.len()
        invariant
            base@.len() <= path@.len(),
            i <= base@.len(),
            forall|k: int| 0 <= k < i ==> contents(base@)[k] == contents(path@)[k],
        decreases base@.len() - i,
    {
        if !same_bytes(&base[i], &path[i]) {
            assert(contents(base@)[i as int] != contents(path@).subrange(
                0,
                base@.len() as int,
            )[i as int]);
            return false;
        }
        i += 1;
    }
    assert(contents(base@) =~= contents(path@).subrange(0, base@.len() as int));
    true
}

/// Tells whether `base` is a prefix of `path` by whole components: `/etc` is
/// one of `/etc/passwd` and of `/etc/`, and is none of `/etcetera`.
pub fn path_starts_with(path: &str, base: &str) -> (prefix: bool)
    ensures
        prefix == starts_with_path(path@, base@),
{
    let p = path_components(path.as_bytes());
    let b = path_components(base.as_bytes());
    is_list_prefix(&b, &p)
}

/// One mounted volume.
#[derive(Debug)]
pub struct Volume {
    /// Where the volume is mounted.
    pub mount_point: String,
    /// The volume's capacity in bytes.
    pub total_bytes: u64,
    /// The bytes still free on it.
    pub available_bytes: u64,
}

impl Volume {
    /// Whether the volume's mount point is a prefix of `target`.
    pub open spec fn holds(self, target: Seq<char>) -> bool {
        starts_with_path(target, self.mount_point@)
    }

    /// The length of the mount point in bytes, by which matches are ranked.
    pub open spec fn rank(self) -> nat {
        encode_utf8(self.mount_point@).len()
    }
}

/// The volume among `volumes` that best matches `target`: going through them
/// in order, a volume that holds the target replaces the one kept so far only
/// if its mount point is strictly longer.
pub open spec fn best_match(target: Seq<char>, volumes: Seq<Volume>) -> Option<int>
    decreases volumes.len(),
{
    if volumes.len() == 0 {
        None
    } else {
        let earlier = best_match(target, volumes.drop_last());
        let last = volumes.len() - 1;
        if volumes[last].holds(target) && (earlier is None || volumes[last].rank()
            > volumes[earlier->0].rank()) {
            Some(last)
        } else {
            earlier
        }
    }
}

/// The volume that a path resolves to: the best match; without any match the
/// first volume; none only where there is no volume at all.
pub open spec fn resolved(target: Seq<char>, volumes: Seq<Volume>) -> Option<int> {
    match best_match(target, volumes) {
        Some(k) => Some(k),
        None => if volumes.len() > 0 {
            Some(0)
        } else {
            None
        },
    }
}

/// The best match is a volume that holds the target, no volume that holds it
/// has a longer mount point, and every earlier one that holds it has a
/// shorter one. There is no best match exactly when no volume holds the target.
pub proof fn lemma_best_match(target: Seq<char>, volumes: Seq<Volume>)
    ensures
        match best_match(target, volumes) {
            Some(k) => {
                &&& 0 <= k < volumes.len()
                &&& volumes[k].holds(target)
                &&& forall|i: int|
                    0 <= i < volumes.len() && (#[trigger] volumes[i]).holds(target)
                        ==> volumes[i].rank() <= volumes[k].rank()
                &&& forall|i: int|
                    0 <= i < k && (#[trigger] volumes[i]).holds(target) ==> volumes[i].rank()
                        < volumes[k].rank()
            },
            None => forall|i: int|
                0 <= i < volumes.len() ==> !(#[trigger] volumes[i]).holds(target),
        },
    decreases volumes.len(),
{
    if volumes.len() > 0 {
        let front = volumes.drop_last();
        lemma_best_match(target, front);
        assert(forall|i: int| 0 <= i < front.len() ==> front[i] == volumes[i]);
    }
}

/// A path resolves to no volume exactly when there is none. Otherwise it
/// resolves to a volume that holds it, where there is one, and to the first
/// volume where there is not.
pub proof fn lemma_resolution(target: Seq<char>, volumes: Seq<Volume>)
    ensures
        resolved(target, volumes) is None <==> volumes.len() == 0,
        resolved(target, volumes) matches Some(k) ==> {
            &&& 0 <= k < volumes.len()
            &&& volumes[k].holds(target) || (k == 0 && forall|i: int|
                0 <= i < volumes.len() ==> !(#[trigger] volumes[i]).holds(target))
        },
{
    lemma_best_match(target, volumes);
}

/// Finds the volume that holds `target`, by its place in `volumes`.
pub fn resolve(target: &str, volumes: &Vec<Volume>) -> (index: Option<usize>)
    ensures
        match index {
            Some(k) => resolved(target@, volumes@) == Some(k as int),
            None => resolved(target@, volumes@) is None,
        },
{
    let wanted = path_components(target.as_bytes());
    let mut best: Option<usize> = None;
    let mut best_rank: usize = 0;
    let mut i: usize = 0;
    assert(volumes@.take(0) =~= Seq::<Volume>::empty());
    while i < volumes.len()
        invariant
            i <= volumes@.len(),
            contents(wanted@) == components(encode_utf8(target@)),
            match best {
                Some(k) => best_match(target@, volumes@.take(i as int)) == Some(k as int) && k < i
                    && best_rank == volumes@[k as int].rank(),
                None => best_match(target@, volumes@.take(i as int)) is None,
            },
        decreases volumes@.len() - i,
    {
        let mount = volumes[i].mount_point.as_str().as_bytes();
        let parts = path_components(mount);
        let rank = mount.len();
        proof {
            assert(volumes@.take(i + 1).drop_last() =~= volumes@.take(i as int));
            assert(volumes@.take(i + 1).last() == volumes@[i as int]);
        }
        let ghost seen = volumes@.take(i + 1);
        assert(seen[seen.len() - 1].holds(target@) == contents(parts@).is_prefix_of(
            contents(wanted@),
        ));
        assert(seen[seen.len() - 1].rank() == rank);
        assert(best matches Some(k) ==> seen[k as int] == volumes@[k as int]);
        if is_list_prefix(&parts, &wanted) {
            let better = match best {
                Some(_) => rank > best_rank,
                None => true,
            };
            if better {
                best = Some(i);
                best_rank = rank;
            }
        }
        i += 1;
    }
    assert(volumes@.take(volumes@.len() as int) =~= volumes@);
    match best {
        Some(k) => Some(k),
        None => if volumes.len() > 0 {
            Some(0)
        } else {
            None
        },
    }
}

/// What is shown of a volume.
#[derive(Clone, Copy, Debug, PartialEq, Eq)]
pub enum DiskView {
    /// The free space.
    Free,
    /// The used space and the capacity, separated by a slash.
    UsedOfTotal,
    /// The used space as a percentage of the capacity.
    PercentUsed,
}

/// The view that the flags select: free space before used-of-total, and the
/// percentage when neither is asked for.
pub open spec fn view_of(total: bool, free: bool) -> DiskView {
    if free {
        DiskView::Free
    } else if total {
        DiskView::UsedOfTotal
    } else {
        DiskView::PercentUsed
    }
}

/// Resolves the requested flags to the one view that applies.
pub fn select_view(total: bool, free: bool) -> (view: DiskView)
    ensures
        view == view_of(total, free),
{
    if free {
        DiskView::Free
    } else if total {
        DiskView::UsedOfTotal
    } else {
        DiskView::PercentUsed
    }
}

/// The line for one volume: `N/A` for a volume without capacity, else its
/// usage in the given view.
pub open spec fn volume_line(volume: Volume, view: DiskView) -> Seq<char> {
    let total = volume.total_bytes as nat;
    let available = volume.available_bytes as nat;
    let used = used_of(total, available);
    if total == 0 {
        "N/A"@
    } else {
        match view {
            DiskView::Free => short_text(available),
            DiskView::UsedOfTotal => short_text(used) + seq!['/'] + short_text(total),
            DiskView::PercentUsed => share_text(used, total),
        }
    }
}

/// Renders one volume.
pub fn render(volume: &Volume, view: DiskView) -> (line: String)
    ensures
        line@ == volume_line(*volume, view),
{
    if volume.total_bytes == 0 {
        return "N/A".to_owned();
    }
    let used = used_bytes(volume.total_bytes, volume.available_bytes);
    match view {
        DiskView::Free => humanize_bytes_short(volume.available_bytes),
        DiskView::UsedOfTotal => {
            let mut line = humanize_bytes_short(used);
            let total = humanize_bytes_short(volume.total_bytes);
            line.append("/");
            line.append(total.as_str());
            proof {
                reveal_strlit("/");
                assert(line@ =~= volume_line(*volume, view));
            }
            line
        },
        DiskView::PercentUsed => fmt_share_1dp(used, volume.total_bytes),
    }
}

/// The line for a path: that of the volume it resolves to, and `N/A` where it
/// resolves to none.
pub open spec fn disk_line(target: Seq<char>, volumes: Seq<Volume>, view: DiskView) -> Seq<char> {
    match resolved(target, volumes) {
        Some(k) => volume_line(volumes[k], view),
        None => "N/A"@,
    }
}

/// Resolves `target` among `volumes` and renders the volume found.
pub fn report(target: &str, volumes: &Vec<Volume>, view: DiskView) -> (line: String)
    ensures
        line@ == disk_line(target@, volumes@, view),
{
    match resolve(target, volumes) {
        Some(k) => {
            proof {
                lemma_best_match(target@, volumes@);
            }
            render(&volumes[k], view)
        },
        None => "N/A".to_owned(),
    }
}

} // verus!
