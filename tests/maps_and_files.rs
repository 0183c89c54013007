use klog::shared_map::SharedMap;
use klog::vecmap::VecMap;
use klog::vfs::{Dir, Error, File, FileOpenMode, MemoryMapMode, Node, ObjectHandle, SeekFrom, Symlink};

#[test]
fn vecmap_insert_get_remove() {
    let mut m: VecMap<u32, &str> = VecMap::new();
    m.insert(2, "two");
    m.insert(1, "one");
    assert_eq!(m.get(&2), Some(&"two"));
    m.insert(2, "deux");
    assert_eq!(m.get(&2), Some(&"deux"));
    assert_eq!(m.remove(&2), Some("deux"));
    assert_eq!(m.get(&2), None);
    assert_eq!(m.remove(&2), None);
    assert_eq!(m.get(&1), Some(&"one"));
}

#[test]
fn shared_map_get_after_insert_and_take() {
    let map: SharedMap<u64, String> = SharedMap::new();
    map.insert(7, "seven".to_string());
    let h = map.get(&7).unwrap();
    assert_eq!(h.as_str(), "seven");
    assert_eq!(h.value(), "seven");
    h.release();
    assert_eq!(map.take(&7), Some("seven".to_string()));
    assert!(map.get(&7).is_none());
    assert_eq!(map.take(&7), None);
}

#[test]
fn shared_map_overwrite_replaces_value() {
    let map: SharedMap<u64, u64> = SharedMap::new();
    map.insert(1, 10);
    map.insert(1, 11);
    let h = map.get(&1).unwrap();
    assert_eq!(*h, 11);
    h.release();
}

#[test]
fn shared_map_readers_do_not_block_each_other() {
    let map: SharedMap<u64, u64> = SharedMap::new();
    map.insert(1, 100);
    map.insert(2, 200);
    let a = map.get(&1).unwrap();
    let b = map.get(&1).unwrap();
    let c = map.get(&2).unwrap();
    assert_eq!(*a + *b.value() + *c, 400);
    a.release();
    b.release();
    c.release();
    map.insert(3, 300);
    assert_eq!(map.take(&3), Some(300));
}

#[test]
fn file_cursor_follows_reads_and_seeks() {
    let mut f = File::from_handle(ObjectHandle { id: 4 });
    assert_eq!(f.get_cursor(), 0);
    assert_eq!(f.read(Ok(10)), Ok(10));
    assert_eq!(f.get_cursor(), 10);
    assert_eq!(f.read(Err(Error { code: 5 })), Err(Error { code: 5 }));
    assert_eq!(f.get_cursor(), 10);
    f.set_cursor(100);
    assert_eq!(f.get_cursor(), 100);
    assert_eq!(f.seek(SeekFrom::Current(-40), 0), Some(60));
    assert_eq!(f.seek(SeekFrom::Current(-61), 0), None);
    assert_eq!(f.get_cursor(), 60);
    assert_eq!(f.seek(SeekFrom::End(-8), 1000), Some(992));
    assert_eq!(f.seek(SeekFrom::End(i64::MIN), 1000), None);
    assert_eq!(f.seek(SeekFrom::Start(5), 0), Some(5));
    f.set_cursor(u64::MAX - 1);
    assert_eq!(f.seek(SeekFrom::Current(2), 0), None);
    assert_eq!(f.seek(SeekFrom::Current(1), 0), Some(u64::MAX));
    assert_eq!(f.into_handle(), ObjectHandle { id: 4 });
}

#[test]
fn handles_and_mode_codes() {
    let h = ObjectHandle { id: 9 };
    assert_eq!(Node::from_handle(h).into_handle(), h);
    assert_eq!(Dir::from_handle(h).into_handle(), h);
    assert_eq!(Symlink::from_handle(h).into_handle(), h);
    assert_eq!(FileOpenMode::NoAccess.code(), 0);
    assert_eq!(FileOpenMode::ReadOnly.code(), 1);
    assert_eq!(FileOpenMode::Execute.code(), 2);
    assert_eq!(MemoryMapMode::ReadOnly.code(), 0);
    assert_eq!(MemoryMapMode::Execute.code(), 1);
    assert_eq!(MemoryMapMode::COW.code(), 2);
    assert_eq!(MemoryMapMode::WriteBack.code(), 3);
}
