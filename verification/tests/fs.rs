use chronos::fs::{
    copy_node, deserialize_node, deserialize_string, find_dir, find_dir_mut, get_node_info,
    image_sectors, list_files, load_from_disk, ls, mkdir, move_node, place_node, read, rm,
    save_to_disk, serialize_node, serialize_string, split_path, touch, walk_tree, Node,
};

fn root() -> Node {
    Node::Directory { name: "/".to_string(), children: Vec::new() }
}

fn names(node: &Node) -> Vec<String> {
    match node {
        Node::Directory { children, .. } => children.iter().map(|c| c.name().to_string()).collect(),
        Node::File { .. } => Vec::new(),
    }
}

fn sample() -> Node {
    let mut r = root();
    assert!(mkdir(&mut r, "/", "etc"));
    assert!(mkdir(&mut r, "/", "home"));
    assert!(mkdir(&mut r, "/home", "user"));
    assert!(touch(&mut r, "/", "readme.txt", b"hello".to_vec()));
    assert!(touch(&mut r, "/home/user", "notes", b"abc\ndef\n".to_vec()));
    assert!(touch(&mut r, "/etc", "passwd", vec![0xff, 0xfe]));
    r
}

#[test]
fn node_name_and_kind() {
    let f = Node::File { name: "a.txt".to_string(), data: vec![1, 2] };
    let d = Node::Directory { name: "dir".to_string(), children: vec![] };
    assert_eq!(f.name(), "a.txt");
    assert_eq!(d.name(), "dir");
    assert!(!f.is_dir());
    assert!(d.is_dir());
}

#[test]
fn split_path_drops_empty_parts() {
    let parts: Vec<String> = split_path("//home///user/").iter().map(|p| p.iter().collect()).collect();
    assert_eq!(parts, vec!["home".to_string(), "user".to_string()]);
    assert!(split_path("").is_empty());
    assert!(split_path("/").is_empty());
    let one: Vec<String> = split_path("x").iter().map(|p| p.iter().collect()).collect();
    assert_eq!(one, vec!["x".to_string()]);
}

#[test]
fn find_dir_mut_reaches_nested_directories() {
    let mut r = sample();
    assert_eq!(find_dir_mut(&mut r, "/").unwrap().name(), "/");
    assert_eq!(find_dir_mut(&mut r, "").unwrap().name(), "/");
    assert_eq!(find_dir_mut(&mut r, "/home/user").unwrap().name(), "user");
    assert_eq!(find_dir_mut(&mut r, "home//user/").unwrap().name(), "user");
    assert!(find_dir_mut(&mut r, "/nope").is_none());
    assert!(find_dir_mut(&mut r, "/readme.txt").is_none());
    assert!(find_dir_mut(&mut r, "/home/user/notes").is_none());
}

#[test]
fn find_dir_mut_changes_the_tree_in_place() {
    let mut r = sample();
    match find_dir_mut(&mut r, "/home/user").unwrap() {
        Node::Directory { children, .. } => children.clear(),
        Node::File { .. } => panic!("not a directory"),
    }
    assert_eq!(ls(&r, "/home/user").unwrap().len(), 0);
    assert_eq!(ls(&r, "/home").unwrap().len(), 1);
}

#[test]
fn find_dir_on_a_file_root() {
    let f = Node::File { name: "f".to_string(), data: vec![] };
    assert_eq!(find_dir(&f, "/").unwrap().name(), "f");
    assert!(find_dir(&f, "/x").is_none());
    assert!(ls(&f, "/").is_none());
}

#[test]
fn mkdir_adds_once() {
    let mut r = root();
    assert!(mkdir(&mut r, "/", "a"));
    assert!(!mkdir(&mut r, "/", "a"));
    assert!(mkdir(&mut r, "/a", "b"));
    assert!(!mkdir(&mut r, "/missing", "c"));
    assert!(touch(&mut r, "/", "file", vec![]));
    assert!(!mkdir(&mut r, "/", "file"));
    assert!(!mkdir(&mut r, "/file", "x"));
    assert_eq!(names(&r), vec!["a", "file"]);
    assert_eq!(ls(&r, "/a").unwrap(), vec![("b".to_string(), true)]);
}

#[test]
fn touch_replaces_in_place_or_appends() {
    let mut r = root();
    assert!(touch(&mut r, "/", "one", vec![1]));
    assert!(touch(&mut r, "/", "two", vec![2]));
    assert!(mkdir(&mut r, "/", "dir"));
    assert!(touch(&mut r, "/", "one", vec![9, 9]));
    assert_eq!(names(&r), vec!["one", "two", "dir"]);
    assert_eq!(read(&r, "/", "one"), Some(vec![9, 9]));
    assert!(touch(&mut r, "/", "dir", vec![7]));
    assert_eq!(ls(&r, "/").unwrap()[2], ("dir".to_string(), false));
    assert!(!touch(&mut r, "/nowhere", "x", vec![]));
}

#[test]
fn rm_removes_the_first_of_a_name() {
    let mut r = sample();
    assert!(rm(&mut r, "/", "home"));
    assert!(!rm(&mut r, "/", "home"));
    assert!(!rm(&mut r, "/nowhere", "x"));
    assert_eq!(names(&r), vec!["etc", "readme.txt"]);
    assert!(find_dir(&r, "/home/user").is_none());
}

#[test]
fn ls_lists_in_order() {
    let r = sample();
    assert_eq!(
        ls(&r, "/").unwrap(),
        vec![
            ("etc".to_string(), true),
            ("home".to_string(), true),
            ("readme.txt".to_string(), false)
        ]
    );
    assert!(ls(&r, "/readme.txt").is_none());
    assert!(ls(&r, "/zzz").is_none());
}

#[test]
fn read_finds_files_only() {
    let mut r = sample();
    assert_eq!(read(&r, "/", "readme.txt"), Some(b"hello".to_vec()));
    assert_eq!(read(&r, "/home/user", "notes"), Some(b"abc\ndef\n".to_vec()));
    assert_eq!(read(&r, "/", "home"), None);
    assert_eq!(read(&r, "/", "missing"), None);
    assert_eq!(read(&r, "/missing", "readme.txt"), None);
    // A directory of the same name in front of the file is passed over.
    match &mut r {
        Node::Directory { children, .. } => {
            children.insert(0, Node::Directory { name: "readme.txt".to_string(), children: vec![] })
        }
        _ => unreachable!(),
    }
    assert_eq!(read(&r, "/", "readme.txt"), Some(b"hello".to_vec()));
}

#[test]
fn copy_node_copies_deeply_and_replaces() {
    let mut r = sample();
    assert!(copy_node(&mut r, "/", "home", "/etc", "backup"));
    assert_eq!(read(&r, "/etc/backup/user", "notes"), Some(b"abc\ndef\n".to_vec()));
    assert_eq!(read(&r, "/home/user", "notes"), Some(b"abc\ndef\n".to_vec()));
    assert!(copy_node(&mut r, "/", "readme.txt", "/etc", "backup"));
    assert_eq!(ls(&r, "/etc").unwrap(), vec![("passwd".to_string(), false), ("backup".to_string(), false)]);
    assert!(!copy_node(&mut r, "/", "ghost", "/etc", "x"));
    assert!(!copy_node(&mut r, "/", "readme.txt", "/ghost", "x"));
    assert!(!copy_node(&mut r, "/ghost", "readme.txt", "/", "x"));
    assert_eq!(names(&r), vec!["etc", "home", "readme.txt"]);
}

#[test]
fn move_node_moves_and_renames() {
    let mut r = sample();
    assert!(move_node(&mut r, "/", "readme.txt", "/home/user", "r.txt"));
    assert_eq!(names(&r), vec!["etc", "home"]);
    assert_eq!(read(&r, "/home/user", "r.txt"), Some(b"hello".to_vec()));
    assert!(!move_node(&mut r, "/", "ghost", "/", "x"));
    assert_eq!(names(&r), vec!["etc", "home"]);
}

#[test]
fn move_node_loses_the_entry_when_the_destination_is_gone() {
    let mut r = sample();
    assert!(!move_node(&mut r, "/", "home", "/home/user", "x"));
    assert_eq!(names(&r), vec!["etc", "readme.txt"]);
}

#[test]
fn place_node_puts_last() {
    let mut r = sample();
    let n = Node::File { name: "etc".to_string(), data: vec![1] };
    assert!(place_node(&mut r, "/", n));
    assert_eq!(
        ls(&r, "/").unwrap(),
        vec![
            ("home".to_string(), true),
            ("readme.txt".to_string(), false),
            ("etc".to_string(), false)
        ]
    );
    assert!(!place_node(&mut r, "/nope", Node::File { name: "a".to_string(), data: vec![] }));
}

#[test]
fn duplicate_and_rename() {
    let r = sample();
    let mut copy = r.duplicate();
    copy.rename("copy");
    assert_eq!(copy.name(), "copy");
    assert_eq!(r.name(), "/");
    assert_eq!(ls(&copy, "/").unwrap(), ls(&r, "/").unwrap());
    assert_eq!(read(&copy, "/home/user", "notes"), Some(b"abc\ndef\n".to_vec()));
}

#[test]
fn get_node_info_reports_size_or_children() {
    let r = sample();
    let f = get_node_info(&r, "/", "readme.txt").unwrap();
    assert_eq!((f.name.as_str(), f.is_dir, f.size, f.child_count), ("readme.txt", false, 5, 0));
    let d = get_node_info(&r, "/", "home").unwrap();
    assert_eq!((d.name.as_str(), d.is_dir, d.size, d.child_count), ("home", true, 0, 1));
    assert!(get_node_info(&r, "/", "nope").is_none());
    assert!(get_node_info(&r, "/nope", "home").is_none());
}

#[test]
fn walk_tree_visits_parents_first() {
    let r = sample();
    let paths: Vec<String> = walk_tree(&r, "/").iter().map(|(p, _)| p.clone()).collect();
    assert_eq!(
        paths,
        vec!["/", "/etc", "/etc/passwd", "/home", "/home/user", "/home/user/notes", "/readme.txt"]
    );
    let sub: Vec<String> = walk_tree(&r, "/home").iter().map(|(p, _)| p.clone()).collect();
    assert_eq!(sub, vec!["/home", "/home/user", "/home/user/notes"]);
    assert!(walk_tree(&r, "/nope").is_empty());
    let kinds: Vec<bool> = walk_tree(&r, "/home").iter().map(|(_, n)| n.is_dir()).collect();
    assert_eq!(kinds, vec![true, true, false]);
}

#[test]
fn list_files_gives_root_files() {
    let r = sample();
    let files = list_files(&r);
    assert_eq!(files.len(), 1);
    assert_eq!(files[0].name, "readme.txt");
    assert_eq!(files[0].data, b"hello".to_vec());
    assert!(list_files(&Node::File { name: "x".to_string(), data: vec![] }).is_empty());
}

#[test]
fn serialize_string_is_length_prefixed() {
    let mut out = vec![0xaa];
    serialize_string("héllo", &mut out);
    assert_eq!(out, vec![0xaa, 6, 0, 0, 0, b'h', 0xc3, 0xa9, b'l', b'l', b'o']);
}

#[test]
fn serialize_node_layout() {
    let mut out = Vec::new();
    serialize_node(&Node::File { name: "a".to_string(), data: vec![7, 8] }, &mut out);
    assert_eq!(out, vec![0, 1, 0, 0, 0, b'a', 2, 0, 0, 0, 7, 8]);
    let mut dir = Vec::new();
    serialize_node(
        &Node::Directory {
            name: "d".to_string(),
            children: vec![Node::File { name: "a".to_string(), data: vec![7, 8] }],
        },
        &mut dir,
    );
    assert_eq!(&dir[..10], &[1, 1, 0, 0, 0, b'd', 1, 0, 0, 0]);
    assert_eq!(&dir[10..], &out[..]);
}

#[test]
fn deserialize_string_stops_where_it_fails() {
    let data = [3u8, 0, 0, 0, b'a', b'b', b'c', 9];
    let mut offset = 0;
    assert_eq!(deserialize_string(&data, &mut offset), Some("abc".to_string()));
    assert_eq!(offset, 7);
    let mut late = 5;
    assert_eq!(deserialize_string(&data, &mut late), None);
    assert_eq!(late, 5);
    let long = [9u8, 0, 0, 0, b'a'];
    let mut o = 0;
    assert_eq!(deserialize_string(&long, &mut o), None);
    assert_eq!(o, 4);
    let bad = [2u8, 0, 0, 0, 0xff, 0xfe];
    let mut b = 0;
    assert_eq!(deserialize_string(&bad, &mut b), None);
    assert_eq!(b, 4);
    let mut beyond = 100;
    assert_eq!(deserialize_string(&data, &mut beyond), None);
    assert_eq!(beyond, 100);
}

#[test]
fn tree_survives_serialization() {
    let r = sample();
    let mut bytes = Vec::new();
    serialize_node(&r, &mut bytes);
    let mut offset = 0;
    let back = deserialize_node(&bytes, &mut offset).unwrap();
    assert_eq!(offset, bytes.len());
    let mut again = Vec::new();
    serialize_node(&back, &mut again);
    assert_eq!(again, bytes);
    assert_eq!(read(&back, "/home/user", "notes"), Some(b"abc\ndef\n".to_vec()));
    assert_eq!(read(&back, "/etc", "passwd"), Some(vec![0xff, 0xfe]));
}

#[test]
fn deserialize_node_rejects_truncated_data() {
    let mut bytes = Vec::new();
    serialize_node(&sample(), &mut bytes);
    for cut in [0usize, 1, 4, 9, bytes.len() - 1] {
        let mut offset = 0;
        assert!(deserialize_node(&bytes[..cut], &mut offset).is_none());
        assert!(offset <= cut);
    }
    let mut at_end = bytes.len();
    assert!(deserialize_node(&bytes, &mut at_end).is_none());
    assert_eq!(at_end, bytes.len());
}

#[test]
fn any_nonzero_kind_is_a_directory() {
    let data = [5u8, 1, 0, 0, 0, b'd', 0, 0, 0, 0];
    let mut offset = 0;
    let node = deserialize_node(&data, &mut offset).unwrap();
    assert!(node.is_dir());
    assert_eq!(node.name(), "d");
    assert_eq!(offset, 10);
}

#[test]
fn save_to_disk_writes_header_and_pads() {
    let r = sample();
    let image = save_to_disk(&r);
    assert_eq!(image.len() % 512, 0);
    assert_eq!(&image[..9], b"CHRONOSFS");
    assert_eq!(image[13], 1);
    let mut tree = Vec::new();
    serialize_node(&r, &mut tree);
    let size = u32::from_le_bytes([image[9], image[10], image[11], image[12]]) as usize;
    assert_eq!(size, 14 + tree.len());
    assert_eq!(&image[14..size], &tree[..]);
    assert!(image[size..].iter().all(|b| *b == 0));
    assert_eq!(image.len(), 512);
    let empty = save_to_disk(&root());
    assert_eq!(empty.len(), 512);
}

#[test]
fn save_to_disk_pads_exact_sectors_with_nothing() {
    let mut r = root();
    // 14 header + 10 root + file record of 1 + 5 + 4 + n bytes = 512
    assert!(touch(&mut r, "/", "f", vec![3u8; 512 - 14 - 10 - 10]));
    let image = save_to_disk(&r);
    assert_eq!(image.len(), 512);
    assert_eq!(image[511], 3);
}

#[test]
fn image_sectors_checks_the_header() {
    let image = save_to_disk(&sample());
    assert_eq!(image_sectors(&image[..512]), Some(1));
    assert_eq!(image_sectors(&image[..13]), None);
    let mut wrong = image.clone();
    wrong[0] = b'X';
    assert_eq!(image_sectors(&wrong), None);
    let mut zero = image.clone();
    zero[9..13].copy_from_slice(&0u32.to_le_bytes());
    assert_eq!(image_sectors(&zero), None);
    let mut big = image.clone();
    big[9..13].copy_from_slice(&(10 * 1024 * 1024 + 1u32).to_le_bytes());
    assert_eq!(image_sectors(&big), None);
    let mut max = image.clone();
    max[9..13].copy_from_slice(&(10 * 1024 * 1024u32).to_le_bytes());
    assert_eq!(image_sectors(&max), Some(0));
    let mut k = image.clone();
    k[9..13].copy_from_slice(&1025u32.to_le_bytes());
    assert_eq!(image_sectors(&k), Some(3));
}

#[test]
fn load_from_disk_replaces_the_tree() {
    let image = save_to_disk(&sample());
    let mut r = root();
    assert!(load_from_disk(&mut r, &image));
    assert_eq!(names(&r), vec!["etc", "home", "readme.txt"]);
    let mut keep = sample();
    assert!(!load_from_disk(&mut keep, &image[..20]));
    assert_eq!(names(&keep), vec!["etc", "home", "readme.txt"]);
    assert!(!load_from_disk(&mut keep, &[]));
}
