use wei_hardware::inventory::{file_info_of, inventory_text, DirWalk, EntryInfo};
use wei_hardware::FileInfo;

fn file(path: &str, size: u64, created: Option<u64>) -> EntryInfo {
    EntryInfo { path: path.to_string(), is_dir: false, size, created }
}

fn dir(path: &str) -> EntryInfo {
    EntryInfo { path: path.to_string(), is_dir: true, size: 0, created: None }
}

#[test]
fn missing_root_gives_empty_inventory() {
    let walk = DirWalk::new("model".to_string(), false);
    assert!(walk.next_dir().is_none());
    assert!(walk.files().is_empty());
    assert_eq!(inventory_text(walk.files()), "[]");
}

#[test]
fn walk_records_every_regular_file() {
    let mut walk = DirWalk::new("model".to_string(), true);
    assert_eq!(walk.next_dir().as_deref(), Some("model"));
    walk.absorb(vec![
        file("model/a.bin", 10, Some(100)),
        dir("model/sub"),
        file("model/b.bin", 20, None),
        dir("model/empty"),
    ]);
    assert_eq!(walk.files().len(), 2);
    let mut listed = 0;
    while let Some(d) = walk.next_dir() {
        listed += 1;
        if d == "model/sub" {
            walk.absorb(vec![file("model/sub/c.bin", 30, Some(300)), dir("model/sub/deeper")]);
        } else if d == "model/sub/deeper" {
            walk.absorb(vec![file("model/sub/deeper/d.bin", 40, Some(400))]);
        } else {
            walk.absorb(vec![]);
        }
    }
    assert_eq!(listed, 3);
    let files = walk.files();
    assert_eq!(files.len(), 4);
    let mut paths: Vec<&str> = files.iter().map(|f| f.path.as_str()).collect();
    paths.sort();
    assert_eq!(paths, vec!["model/a.bin", "model/b.bin", "model/sub/c.bin", "model/sub/deeper/d.bin"]);
    let b = files.iter().find(|f| f.path == "model/b.bin").unwrap();
    assert_eq!(b.size, 20);
    assert_eq!(b.creation_time, 0);
}

#[test]
fn missing_creation_time_reads_as_epoch() {
    let f = file_info_of(&file("x", 5, None));
    assert_eq!(f.creation_time, 0);
    let f = file_info_of(&file("y", 6, Some(1700000000)));
    assert_eq!(f.creation_time, 1700000000);
    assert_eq!(f.path, "y");
    assert_eq!(f.size, 6);
}

#[test]
fn inventory_is_written_as_a_json_list() {
    let files = vec![
        FileInfo { path: "/m/a.bin".to_string(), size: 10, creation_time: 0 },
        FileInfo { path: "/m/\"q\".bin".to_string(), size: 1234567890123, creation_time: 1700000000 },
    ];
    assert_eq!(
        inventory_text(&files),
        "[{\"path\":\"/m/a.bin\",\"size\":10,\"creation_time\":0},\
{\"path\":\"/m/\\\"q\\\".bin\",\"size\":1234567890123,\"creation_time\":1700000000}]"
    );
}

#[test]
fn unreadable_directory_lists_as_empty() {
    let mut walk = DirWalk::new("data".to_string(), true);
    walk.absorb(vec![dir("data/locked"), file("data/x", 1, Some(2))]);
    assert_eq!(walk.next_dir().as_deref(), Some("data/locked"));
    walk.absorb(vec![]);
    assert!(walk.next_dir().is_none());
    assert_eq!(walk.files().len(), 1);
}
