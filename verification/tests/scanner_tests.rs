use keycheck::scanner::{count_newlines, find_private_key, find_private_keys, FileEntry, Finding};

fn hex_key(fill: char) -> String {
    let mut s = String::from("0x");
    for _ in 0..64 {
        s.push(fill);
    }
    s
}

#[test]
fn test_count_newlines() {
    assert_eq!(count_newlines(""), 0);
    assert_eq!(count_newlines("no newline"), 0);
    assert_eq!(count_newlines("a\nb\n"), 2);
    assert_eq!(count_newlines("\n\n\n"), 3);
}

#[test]
fn test_find_private_key_line_numbers() {
    // marker at an offset preceded by exactly two newlines: line 3
    let content = format!("a\nbb\n{} trailing", hex_key('f'));
    assert_eq!(find_private_key(content.as_bytes()), Some(3));

    // marker at offset zero: line 1
    let content = hex_key('0');
    assert_eq!(find_private_key(content.as_bytes()), Some(1));

    // the first of two markers decides the line
    let content = format!("{}\nx\n{}\n", hex_key('a'), hex_key('b'));
    assert_eq!(find_private_key(content.as_bytes()), Some(1));
}

#[test]
fn test_find_private_key_rejects_near_misses() {
    assert_eq!(find_private_key(b""), None);
    assert_eq!(find_private_key(b"plain text, nothing secret"), None);

    // only 63 hex digits after the prefix
    let mut short = String::from("0x");
    for _ in 0..63 {
        short.push('a');
    }
    assert_eq!(find_private_key(short.as_bytes()), None);

    // a non-hex character inside the run
    let mut broken = String::from("0x");
    for _ in 0..32 {
        broken.push('a');
    }
    broken.push('g');
    for _ in 0..31 {
        broken.push('a');
    }
    assert_eq!(find_private_key(broken.as_bytes()), None);
}

#[test]
fn test_find_private_key_accepts_longer_runs() {
    // 65 hex digits still hold a 64-digit run at the same start
    let mut long = String::from("0x");
    for _ in 0..65 {
        long.push('c');
    }
    assert_eq!(find_private_key(long.as_bytes()), Some(1));
}

#[test]
fn test_find_private_keys() {
    let mut files = Vec::new();
    let mut expected = Vec::new();
    for i in 0..10 {
        let mut contents = String::new();
        for _ in 0..50 {
            contents.push_str("some ordinary line\n");
        }
        let key_start = contents.len();
        contents.push_str(&hex_key('d'));
        contents.push('\n');
        for _ in 0..49 {
            contents.push_str("another ordinary line\n");
        }
        let line = count_newlines(&contents[..key_start]) + 1;
        let path = format!("file{}.txt", i);
        expected.push((path.clone(), line));
        files.push(FileEntry { path, content: contents.into_bytes() });
    }
    let found = find_private_keys(&files);
    assert_eq!(found.len(), expected.len(), "Private keys count mismatch");
    for (path, line) in expected {
        let f = Finding { path: path.clone(), line };
        assert!(
            found.contains(&f),
            "Missing private key in file: {}:{}",
            path,
            line
        );
    }
}

#[test]
fn test_find_private_keys_skips_clean_files() {
    let files = vec![
        FileEntry { path: String::from("clean.txt"), content: b"hello\nworld\n".to_vec() },
        FileEntry {
            path: String::from("leaky.txt"),
            content: format!("x\n{}", hex_key('9')).into_bytes(),
        },
        FileEntry { path: String::from("empty.txt"), content: Vec::new() },
    ];
    let found = find_private_keys(&files);
    assert_eq!(found.len(), 1);
    assert_eq!(found[0], Finding { path: String::from("leaky.txt"), line: 2 });
}

#[test]
fn test_find_private_keys_keeps_duplicates_and_order() {
    let leak = format!("{}\n", hex_key('e'));
    let files = vec![
        FileEntry { path: String::from("a.txt"), content: leak.clone().into_bytes() },
        FileEntry { path: String::from("a.txt"), content: leak.into_bytes() },
    ];
    let found = find_private_keys(&files);
    assert_eq!(found.len(), 2);
    assert_eq!(found[0].path, "a.txt");
    assert_eq!(found[1].path, "a.txt");
    assert_eq!(found[0].line, 1);
    assert_eq!(found[1].line, 1);
}
