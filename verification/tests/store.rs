use onagre::db::entity::{DesktopEntryEntity, Entity};
use onagre::db::Database;
use onagre::freedesktop::{DesktopEntry, Extension, IconPath};

fn entry(name: &str) -> DesktopEntry {
    DesktopEntry {
        name: name.to_string(),
        icon: Some(IconPath { path: format!("/icons/{}.svg", name), extension: Extension::SVG }),
        exec_command: format!("{} %u", name),
        path: format!("/usr/share/applications/{}.desktop", name),
    }
}

#[test]
fn empty_store_holds_nothing() {
    let db: Database<DesktopEntryEntity> = Database::new();
    assert_eq!(db.get_by_key("Firefox"), None);
    assert_eq!(db.get_by_key(""), None);
    assert_eq!(db.weight_of("Firefox"), 0);
    assert_eq!(db.records().len(), 0);
}

#[test]
fn first_insert_makes_the_record_findable() {
    let mut db: Database<DesktopEntryEntity> = Database::new();
    let record = DesktopEntryEntity {
        name: "Files".to_string(),
        icon: None,
        path: "/files.desktop".to_string(),
        weight: 4,
    };
    db.insert(record.clone());
    assert_eq!(db.get_by_key("Files"), Some(&record));
    assert_eq!(db.get_by_key("files"), None);
    assert_eq!(db.get_by_key("File"), None);
    assert_eq!(db.weight_of("Files"), 4);
    assert_eq!(db.records().len(), 1);
}

#[test]
fn insert_replaces_the_record_of_the_same_key_only() {
    let mut db: Database<DesktopEntryEntity> = Database::new();
    let files = DesktopEntryEntity { name: "Files".to_string(), icon: None, path: "a".to_string(), weight: 1 };
    let gimp = DesktopEntryEntity { name: "Gimp".to_string(), icon: None, path: "b".to_string(), weight: 2 };
    let files_again =
        DesktopEntryEntity { name: "Files".to_string(), icon: None, path: "c".to_string(), weight: 9 };
    db.insert(files);
    db.insert(gimp.clone());
    db.insert(files_again.clone());
    assert_eq!(db.records().len(), 2);
    assert_eq!(db.get_by_key("Files"), Some(&files_again));
    assert_eq!(db.get_by_key("Gimp"), Some(&gimp));
}

#[test]
fn persist_starts_at_zero_and_counts_up() {
    let mut db: Database<DesktopEntryEntity> = Database::new();
    let firefox = entry("Firefox");
    let first = DesktopEntryEntity::persist(&firefox, "/a/firefox.desktop", &mut db);
    assert_eq!(first.weight, 0);
    assert_eq!(first.name, "Firefox");
    assert_eq!(first.icon, firefox.icon);
    assert_eq!(first.path, "/a/firefox.desktop");
    assert_eq!(db.get_by_key("Firefox"), Some(&first));
    let second = DesktopEntryEntity::persist(&firefox, "/b/firefox.desktop", &mut db);
    assert_eq!(second.weight, 1);
    assert_eq!(second.path, "/b/firefox.desktop");
    assert_eq!(db.get_by_key("Firefox"), Some(&second));
    let third = DesktopEntryEntity::persist(&firefox, "/b/firefox.desktop", &mut db);
    assert_eq!(third.weight, 2);
    assert_eq!(db.records().len(), 1);
}

#[test]
fn persist_leaves_other_records_alone() {
    let mut db: Database<DesktopEntryEntity> = Database::new();
    let files = DesktopEntryEntity::persist(&entry("Files"), "/files", &mut db);
    DesktopEntryEntity::persist(&entry("Firefox"), "/firefox", &mut db);
    DesktopEntryEntity::persist(&entry("Firefox"), "/firefox", &mut db);
    assert_eq!(db.get_by_key("Files"), Some(&files));
    assert_eq!(db.weight_of("Files"), 0);
    assert_eq!(db.weight_of("Firefox"), 1);
}

#[test]
fn weight_never_falls_and_stops_at_the_maximum() {
    let mut db: Database<DesktopEntryEntity> = Database::new();
    let firefox = entry("Firefox");
    let mut before = db.weight_of("Firefox");
    let mut runs = 0;
    while runs < 300 {
        let stored = DesktopEntryEntity::persist(&firefox, "/firefox", &mut db);
        let after = db.weight_of("Firefox");
        assert_eq!(stored.weight, after);
        assert!(after >= before);
        if runs == 0 {
            assert_eq!(after, 0);
        } else if before < 255 {
            assert_eq!(after, before + 1);
        } else {
            assert_eq!(after, 255);
        }
        before = after;
        runs += 1;
    }
    assert_eq!(db.weight_of("Firefox"), 255);
}

#[test]
fn persist_saturates_a_record_at_the_maximum() {
    let mut db: Database<DesktopEntryEntity> = Database::new();
    db.insert(DesktopEntryEntity { name: "Gimp".to_string(), icon: None, path: "p".to_string(), weight: 254 });
    assert_eq!(DesktopEntryEntity::persist(&entry("Gimp"), "p", &mut db).weight, 255);
    assert_eq!(DesktopEntryEntity::persist(&entry("Gimp"), "p", &mut db).weight, 255);
}

#[test]
fn entity_gives_key_weight_and_collection() {
    let record = DesktopEntryEntity {
        name: "Café".to_string(),
        icon: None,
        path: "/cafe.desktop".to_string(),
        weight: 17,
    };
    assert_eq!(record.get_key(), "Café".as_bytes().to_vec());
    assert_eq!(record.get_key().len(), 5);
    assert_eq!(record.get_weight(), 17);
    assert_eq!(DesktopEntryEntity::COLLECTION, "desktop_entry");
}

#[test]
fn store_that_was_never_written_starts_empty_and_takes_a_first_record() {
    // What the launcher has when no store was found at start.
    let mut db: Database<DesktopEntryEntity> = Database::new();
    assert_eq!(db.get_by_key("anything"), None);
    let stored = DesktopEntryEntity::persist(&entry("anything"), "/anything", &mut db);
    assert_eq!(db.get_by_key("anything"), Some(&stored));
    assert_eq!(db.records(), &vec![stored]);
}

#[test]
fn records_lists_each_record_once() {
    let mut db: Database<DesktopEntryEntity> = Database::new();
    DesktopEntryEntity::persist(&entry("a"), "/a", &mut db);
    DesktopEntryEntity::persist(&entry("b"), "/b", &mut db);
    DesktopEntryEntity::persist(&entry("a"), "/a", &mut db);
    let mut names: Vec<String> = Vec::new();
    for record in db.records() {
        names.push(record.name.clone());
    }
    names.sort();
    assert_eq!(names, vec!["a".to_string(), "b".to_string()]);
}
