use asset_versions::store::{Version, Versions};

fn rec(version: u32, date: &str) -> Version {
    Version { version, date: String::from(date) }
}

#[test]
fn new_collection_is_empty() {
    let c = Versions::new(7);
    assert_eq!(c.assetid, 7);
    assert_eq!(c.versions.len(), 0);
    assert!(c.is_well_formed());
}

#[test]
fn sort_versions_orders_by_version_number() {
    let mut c = Versions {
        assetid: 5,
        versions: vec![rec(3, "T3"), rec(1, "T1"), rec(2, "T2")],
    };
    c.sort_versions();
    assert_eq!(c.assetid, 5);
    assert_eq!(c.versions.len(), 3);
    assert_eq!(c.versions[0].version, 1);
    assert_eq!(c.versions[0].date, "T1");
    assert_eq!(c.versions[1].version, 2);
    assert_eq!(c.versions[1].date, "T2");
    assert_eq!(c.versions[2].version, 3);
    assert_eq!(c.versions[2].date, "T3");
}

#[test]
fn sort_versions_keeps_duplicates() {
    let mut c = Versions {
        assetid: 1,
        versions: vec![rec(2, "a"), rec(2, "b"), rec(1, "c")],
    };
    c.sort_versions();
    assert_eq!(c.versions.len(), 3);
    assert_eq!(c.versions[0].version, 1);
    assert_eq!(c.versions[0].date, "c");
    assert_eq!(c.versions[1].version, 2);
    assert_eq!(c.versions[2].version, 2);
    let mut dates: Vec<&str> = vec![c.versions[1].date.as_str(), c.versions[2].date.as_str()];
    dates.sort();
    assert_eq!(dates, vec!["a", "b"]);
}

#[test]
fn out_of_order_completion_still_sorted() {
    // A later-numbered version's record may arrive first; the store
    // must still end up in ascending order, never [2, 1].
    let mut c = Versions::new(99);
    c.insert_record(rec(2, "T2"));
    c.insert_record(rec(1, "T1"));
    assert_eq!(c.versions.len(), 2);
    assert_eq!(c.versions[0].version, 1);
    assert_eq!(c.versions[0].date, "T1");
    assert_eq!(c.versions[1].version, 2);
    assert_eq!(c.versions[1].date, "T2");
    assert!(c.is_well_formed());
}

#[test]
fn insert_record_overwrites_same_version() {
    let mut c = Versions::new(3);
    c.insert_record(rec(1, "old"));
    c.insert_record(rec(2, "kept"));
    c.insert_record(rec(1, "new"));
    assert_eq!(c.versions.len(), 2);
    assert_eq!(c.versions[0].version, 1);
    assert_eq!(c.versions[0].date, "new");
    assert_eq!(c.versions[1].version, 2);
    assert_eq!(c.versions[1].date, "kept");
}

#[test]
fn contains_version_reports_presence() {
    let mut c = Versions::new(3);
    assert!(!c.contains_version(1));
    c.insert_record(rec(1, "T1"));
    assert!(c.contains_version(1));
    assert!(!c.contains_version(2));
}

#[test]
fn is_well_formed_rejects_disorder_and_duplicates() {
    let unsorted = Versions { assetid: 1, versions: vec![rec(2, "b"), rec(1, "a")] };
    assert!(!unsorted.is_well_formed());
    let duplicated = Versions { assetid: 1, versions: vec![rec(1, "a"), rec(1, "b")] };
    assert!(!duplicated.is_well_formed());
    let sorted = Versions { assetid: 1, versions: vec![rec(1, "a"), rec(2, "b")] };
    assert!(sorted.is_well_formed());
}

#[test]
fn snapshot_copies_all_records() {
    let mut c = Versions::new(11);
    c.insert_record(rec(1, "T1"));
    c.insert_record(rec(2, "T2"));
    let snap = c.snapshot();
    assert_eq!(snap.assetid, 11);
    assert_eq!(snap.versions.len(), 2);
    assert_eq!(snap.versions[0].version, 1);
    assert_eq!(snap.versions[0].date, "T1");
    assert_eq!(snap.versions[1].version, 2);
    assert_eq!(snap.versions[1].date, "T2");
    // the snapshot is independent of the original
    c.insert_record(rec(3, "T3"));
    assert_eq!(snap.versions.len(), 2);
}
