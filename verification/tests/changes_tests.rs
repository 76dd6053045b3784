use popcorn_hero::changes::ChangeKind::{Added, Modified, Removed};
use popcorn_hero::changes::{merge_changes, merge_kind, ChangeKind, PendingChange};

fn change(path: &str, kind: ChangeKind) -> PendingChange {
    PendingChange { path: path.to_string(), kind }
}

#[test]
fn merge_table_all_pairs() {
    assert_eq!(merge_kind(Added, Added), Added);
    assert_eq!(merge_kind(Added, Modified), Added);
    assert_eq!(merge_kind(Added, Removed), Removed);
    assert_eq!(merge_kind(Modified, Added), Added);
    assert_eq!(merge_kind(Modified, Modified), Modified);
    assert_eq!(merge_kind(Modified, Removed), Removed);
    assert_eq!(merge_kind(Removed, Added), Added);
    assert_eq!(merge_kind(Removed, Modified), Removed);
    assert_eq!(merge_kind(Removed, Removed), Removed);
}

#[test]
fn merge_of_two_notifications_follows_the_table() {
    let kinds = [Added, Modified, Removed];
    for first in kinds {
        for second in kinds {
            let net = merge_changes(&vec![change("/m/a.mkv", first), change("/m/a.mkv", second)]);
            assert_eq!(net.len(), 1);
            assert_eq!(net[0].path, "/m/a.mkv");
            assert_eq!(net[0].kind, merge_kind(first, second));
        }
    }
}

#[test]
fn merge_keeps_one_change_per_path_in_arrival_order() {
    let raw = vec![
        change("/m/a.mkv", Added),
        change("/m/b.mkv", Modified),
        change("/m/a.mkv", Removed),
        change("/m/c.mkv", Removed),
        change("/m/b.mkv", Added),
        change("/m/c.mkv", Modified),
    ];
    let net = merge_changes(&raw);
    assert_eq!(
        net,
        vec![change("/m/a.mkv", Removed), change("/m/b.mkv", Added), change("/m/c.mkv", Removed)]
    );
}

#[test]
fn merge_of_nothing_is_nothing() {
    assert_eq!(merge_changes(&vec![]), vec![]);
}

#[test]
fn merge_takes_paths_as_written() {
    let raw = vec![
        change("C:\\m\\a.mkv", Added),
        change("C:/m/a.mkv", Removed),
    ];
    let net = merge_changes(&raw);
    assert_eq!(net.len(), 2);
}

#[test]
fn merge_of_three_notifications_folds_from_the_left() {
    let net = merge_changes(&vec![
        change("p", Removed),
        change("p", Added),
        change("p", Modified),
    ]);
    assert_eq!(net, vec![change("p", Added)]);
    let net = merge_changes(&vec![
        change("p", Added),
        change("p", Removed),
        change("p", Modified),
    ]);
    assert_eq!(net, vec![change("p", Removed)]);
}
