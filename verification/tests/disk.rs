use std::path::Path;
use tmux_sysmon::disk::{
    is_list_prefix, path_components, path_starts_with, render, report, resolve, same_bytes,
    select_view, DiskView, Volume,
};
use tmux_sysmon::mem::{report as mem_report, used_bytes, MemoryReading};

const GIB: u64 = 1 << 30;

fn volume(mount: &str, total: u64, available: u64) -> Volume {
    Volume { mount_point: mount.to_string(), total_bytes: total, available_bytes: available }
}

fn mounts(points: &[&str]) -> Vec<Volume> {
    points.iter().map(|p| volume(p, 100 * GIB, 40 * GIB)).collect()
}

#[test]
fn longest_mount_wins() {
    let volumes = mounts(&["/", "/home"]);
    assert_eq!(resolve("/home/user/file", &volumes), Some(1));
    assert_eq!(resolve("/etc/passwd", &volumes), Some(0));
    assert_eq!(resolve("/homestead", &volumes), Some(0));
    let reversed = mounts(&["/home", "/"]);
    assert_eq!(resolve("/home/user/file", &reversed), Some(0));
    assert_eq!(resolve("/var", &reversed), Some(1));
    let nested = mounts(&["/", "/home", "/home/user", "/home/user/data"]);
    assert_eq!(resolve("/home/user/file", &nested), Some(2));
}

#[test]
fn first_volume_when_nothing_matches() {
    let volumes = mounts(&["/boot", "/home"]);
    assert_eq!(resolve("/var/log", &volumes), Some(0));
    assert_eq!(resolve("relative/path", &volumes), Some(0));
    assert_eq!(resolve("C:", &mounts(&["/data", "/"])), Some(0));
}

#[test]
fn no_volume_no_answer() {
    assert_eq!(resolve("/", &Vec::new()), None);
    for view in [DiskView::Free, DiskView::UsedOfTotal, DiskView::PercentUsed] {
        assert_eq!(report("/home", &Vec::new(), view), "N/A");
    }
}

#[test]
fn ties_keep_the_first() {
    let volumes = mounts(&["/mnt", "/mnt", "/"]);
    assert_eq!(resolve("/mnt/x", &volumes), Some(0));
    // The same components, written at different lengths: the longer text wins.
    let padded = mounts(&["/mnt", "/mnt/", "//mnt"]);
    assert_eq!(resolve("/mnt/x", &padded), Some(1));
}

#[test]
fn rank_counts_bytes() {
    let volumes = mounts(&["/\u{e9}", "/\u{e9}/"]);
    assert_eq!(resolve("/\u{e9}/x", &volumes), Some(1));
    let other = mounts(&["/", "/\u{e9}\u{e9}"]);
    assert_eq!(resolve("/\u{e9}\u{e9}/x", &other), Some(1));
}

#[test]
fn prefix_by_whole_components() {
    assert!(path_starts_with("/etc/passwd", "/etc"));
    assert!(path_starts_with("/etc/passwd", "/etc/"));
    assert!(path_starts_with("/etc/passwd", "/etc/passwd"));
    assert!(path_starts_with("/etc/passwd", "/etc/passwd/"));
    assert!(path_starts_with("/etc/passwd", "/etc/passwd///"));
    assert!(path_starts_with("/etc/passwd", "/"));
    assert!(path_starts_with("/etc/passwd", ""));
    assert!(!path_starts_with("/etc/passwd", "/e"));
    assert!(!path_starts_with("/etc/passwd", "/etc/passwd.txt"));
    assert!(!path_starts_with("/etc/foo.rs", "/etc/foo"));
    assert!(!path_starts_with("etc/passwd", "/etc"));
    assert!(!path_starts_with("/etc", "/etc/passwd"));
}

#[test]
fn prefix_agrees_with_the_platform_paths() {
    let pieces = [
        "", "/", "//", ".", "./", "..", "../", "a", "a/", "/a", "/a/", "a/b", "/a/b", "/a//b",
        "/a/./b", "./a", "./a/b", "a/.", "a/..", "/.", "/..", "/a/b/c", "a/b/c", ".a", "a.", "/.a",
        "...", "/home", "/home/user", "/home/user/file", "/homestead", "/\u{e9}", "/\u{e9}/x", "a b",
        "/a/b/", "/a/b//", "/./a", "/../a", "././a", ".//a", "/a/b/.", "/a/b/./", "a//", "/a/./",
    ];
    if std::path::MAIN_SEPARATOR == '/' {
        for path in pieces {
            for base in pieces {
                assert_eq!(
                    path_starts_with(path, base),
                    Path::new(path).starts_with(base),
                    "path {:?}, base {:?}",
                    path,
                    base
                );
            }
        }
    }
}

#[test]
fn components_of_a_path() {
    let parts = |p: &str| -> Vec<String> {
        path_components(p.as_bytes())
            .into_iter()
            .map(|c| String::from_utf8(c).unwrap())
            .collect()
    };
    assert_eq!(parts(""), Vec::<String>::new());
    assert_eq!(parts("/"), vec!["/"]);
    assert_eq!(parts("/home//user/./file/"), vec!["/", "home", "user", "file"]);
    assert_eq!(parts("./a/../b"), vec![".", "a", "..", "b"]);
    assert_eq!(parts("."), vec!["."]);
    assert_eq!(parts("a/."), vec!["a"]);
    assert_eq!(parts("C:"), vec!["C:"]);
    assert!(same_bytes(&b"abc".to_vec(), &b"abc".to_vec()));
    assert!(!same_bytes(&b"abc".to_vec(), &b"abd".to_vec()));
    assert!(!same_bytes(&b"abc".to_vec(), &b"ab".to_vec()));
    assert!(same_bytes(&Vec::new(), &Vec::new()));
    let short = vec![b"a".to_vec()];
    let long = vec![b"a".to_vec(), b"b".to_vec()];
    assert!(is_list_prefix(&short, &long));
    assert!(is_list_prefix(&long, &long));
    assert!(!is_list_prefix(&long, &short));
    assert!(is_list_prefix(&Vec::new(), &short));
    assert!(!is_list_prefix(&vec![b"b".to_vec()], &long));
}

#[test]
fn view_priority() {
    assert_eq!(select_view(false, false), DiskView::PercentUsed);
    assert_eq!(select_view(true, false), DiskView::UsedOfTotal);
    assert_eq!(select_view(false, true), DiskView::Free);
    assert_eq!(select_view(true, true), DiskView::Free);
}

#[test]
fn volume_lines() {
    let v = volume("/", 100 * GIB, 40 * GIB);
    assert_eq!(render(&v, DiskView::Free), "40.0G");
    assert_eq!(render(&v, DiskView::UsedOfTotal), "60.0G/100.0G");
    assert_eq!(render(&v, DiskView::PercentUsed), "60.0%");
    let odd = volume("/data", 3 * GIB, GIB);
    assert_eq!(render(&odd, DiskView::PercentUsed), "66.7%");
    assert_eq!(render(&odd, DiskView::UsedOfTotal), "2.0G/3.0G");
    let tiny = volume("/t", 2048, 500);
    assert_eq!(render(&tiny, DiskView::Free), "0.0K");
    assert_eq!(render(&tiny, DiskView::UsedOfTotal), "1.5K/2.0K");
}

#[test]
fn volume_without_capacity_is_not_available() {
    for view in [DiskView::Free, DiskView::UsedOfTotal, DiskView::PercentUsed] {
        assert_eq!(render(&volume("/proc", 0, 0), view), "N/A");
        assert_eq!(render(&volume("/proc", 0, 77), view), "N/A");
        let volumes = vec![volume("/", 10 * GIB, GIB), volume("/proc", 0, 0)];
        assert_eq!(report("/proc/cpuinfo", &volumes, view), "N/A");
    }
}

#[test]
fn more_free_than_total_counts_as_nothing_used() {
    let v = volume("/", GIB, 2 * GIB);
    assert_eq!(render(&v, DiskView::PercentUsed), "0.0%");
    assert_eq!(render(&v, DiskView::UsedOfTotal), "0.0K/1.0G");
    assert_eq!(render(&v, DiskView::Free), "2.0G");
    assert_eq!(used_bytes(5, 9), 0);
    assert_eq!(used_bytes(9, 5), 4);
    assert_eq!(used_bytes(0, 0), 0);
    assert_eq!(used_bytes(u64::MAX, 0), u64::MAX);
}

#[test]
fn report_for_a_path() {
    let volumes = vec![volume("/", 100 * GIB, 25 * GIB), volume("/home", 200 * GIB, 150 * GIB)];
    assert_eq!(report("/home/user/file", &volumes, DiskView::PercentUsed), "25.0%");
    assert_eq!(report("/home/user/file", &volumes, DiskView::Free), "150.0G");
    assert_eq!(report("/usr", &volumes, DiskView::UsedOfTotal), "75.0G/100.0G");
    assert_eq!(report("nowhere", &volumes, DiskView::PercentUsed), "75.0%");
    assert_eq!(
        report("/usr", &volumes, DiskView::PercentUsed),
        report("/usr", &volumes, DiskView::PercentUsed)
    );
}

#[test]
fn memory_lines() {
    let reading = MemoryReading { total_bytes: 33_565_000_000, available_bytes: 25_802_000_000 };
    assert_eq!(mem_report(&reading, true), "7.23GB/31.26GB");
    assert_eq!(mem_report(&reading, false), "23.1%");
    let half = MemoryReading { total_bytes: 16 * GIB, available_bytes: 8 * GIB };
    assert_eq!(mem_report(&half, true), "8.00GB/16.00GB");
    assert_eq!(mem_report(&half, false), "50.0%");
}

#[test]
fn memory_edge_cases() {
    let nothing = MemoryReading { total_bytes: 0, available_bytes: 0 };
    assert_eq!(mem_report(&nothing, false), "0.0%");
    assert_eq!(mem_report(&nothing, true), "0.00GB/0.00GB");
    let over = MemoryReading { total_bytes: GIB, available_bytes: 3 * GIB };
    assert_eq!(mem_report(&over, false), "0.0%");
    assert_eq!(mem_report(&over, true), "0.00GB/1.00GB");
    let full = MemoryReading { total_bytes: GIB, available_bytes: 0 };
    assert_eq!(mem_report(&full, false), "100.0%");
}
