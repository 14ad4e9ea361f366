use ruiss::file_transfer::digest::FileDigest;
use ruiss::file_transfer::names::{
    candidate_name, resolve_download_dir, safe_relative_components, safe_single_name, split_name,
    temp_name, unique_logical_name, NameSearch, NameStep, PathStyle, UsedNames,
};
use ruiss::file_transfer::plan::{
    build_plan, build_roots, SendPlan, SourceEntry, SourceKind, TopEntry, TopKind,
};
use ruiss::file_transfer::receiver::{FileReceiver, Handling};
use ruiss::file_transfer::sender::{
    check_wait, BatchRun, FileSender, SendEvent, SendStep, CHUNK_SIZE,
};
use ruiss::file_transfer::update::{Effect, Status};
use ruiss::protocol::{Payload, TransferRoot};
use ruiss::text::{decimal_text, hex_text, trim};

const SECOND: u64 = 1_000_000_000;

#[test]
fn rejects_unsafe_remote_paths() {
    assert!(safe_relative_components("folder/file.txt").is_ok());
    assert!(safe_relative_components("../secret").is_err());
    assert!(safe_relative_components("C:\\secret").is_err());
    assert!(safe_relative_components("/secret").is_err());
}

#[test]
fn logical_names_do_not_collide() {
    let mut used = UsedNames::new();
    assert_eq!(unique_logical_name("a.txt", &mut used), "a.txt");
    assert_eq!(unique_logical_name("a.txt", &mut used), "a (1).txt");
}

fn entry(handle: u64, name: &str, kind: SourceKind) -> SourceEntry {
    SourceEntry { handle, shown: format!("/tmp/{name}"), name: name.to_string(), kind }
}

#[test]
fn folder_plan_preserves_tree_and_empty_directories() {
    let root_name = format!("ruiss-plan-{}", uuid::Uuid::new_v4());
    let nested = vec![entry(3, "hello.txt", SourceKind::File(5))];
    let root = entry(
        0,
        &root_name,
        SourceKind::Directory(vec![
            entry(1, "empty", SourceKind::Directory(Vec::new())),
            entry(2, "nested", SourceKind::Directory(nested)),
        ]),
    );

    let plan = build_plan(&vec![root]).unwrap();
    assert_eq!(plan.roots.len(), 1);
    assert_eq!(plan.total_bytes, 5);
    assert!(plan.directories.contains(&format!("{root_name}/empty")));
    assert!(plan
        .files
        .iter()
        .any(|file| file.relative == format!("{root_name}/nested/hello.txt")));
}

#[test]
fn names_are_split_before_their_extension() {
    let parts = |n: &str| split_name(n);
    assert_eq!(parts("a.tar.gz"), ("a.tar".to_string(), ".gz".to_string()));
    assert_eq!(parts(".profile"), (".profile".to_string(), String::new()));
    assert_eq!(parts("plain"), ("plain".to_string(), String::new()));
    assert_eq!(candidate_name("b.txt", 3), "b (3).txt");
    assert_eq!(temp_name("b.txt", "id"), ".b.txt.ruiss-id.part");
    let mut used = UsedNames::new();
    let mut seen: Vec<String> = Vec::new();
    for _ in 0..4 {
        let name = unique_logical_name("x", &mut used);
        assert!(!seen.contains(&name));
        seen.push(name);
    }
    assert_eq!(seen, vec!["x", "x (1)", "x (2)", "x (3)"]);
}

#[test]
fn received_files_get_the_first_free_name() {
    let find = |folder: &[&str], name: &str| {
        let (mut search, mut step) = NameSearch::new(name);
        loop {
            match step {
                NameStep::Take(n) => return n,
                NameStep::Check(n) => step = search.on_checked(folder.contains(&n.as_str())),
            }
        }
    };
    assert_eq!(find(&[], "a.txt"), "a.txt");
    assert_eq!(find(&["a.txt"], "a.txt"), "a (1).txt");
    assert_eq!(find(&["a.txt", "a (1).txt", "a (3).txt"], "a.txt"), "a (2).txt");
    assert_eq!(find(&["a (1).txt"], "a.txt"), "a.txt");
    assert_eq!(find(&["dir"], "dir"), "dir (1)");
}

#[test]
fn single_names_and_paths_stay_inside() {
    for style in [PathStyle::Slash, PathStyle::Drive] {
        assert_eq!(safe_single_name(style, "a.txt"), Some("a.txt".to_string()));
        assert_eq!(safe_single_name(style, "a/"), Some("a".to_string()));
        for bad in ["", ".", "..", "a/b", "/", "./a", "/a"] {
            assert_eq!(safe_single_name(style, bad), None, "{bad}");
        }
    }
    // A backslash and a drive mean something on one of the systems only.
    for name in ["C:", "C:x", "a\\b", "\\a"] {
        assert_eq!(safe_single_name(PathStyle::Drive, name), None, "{name}");
        assert_eq!(safe_single_name(PathStyle::Slash, name), Some(name.to_string()));
    }
    assert_eq!(
        safe_relative_components("a/./b//c"),
        Ok(vec!["a".to_string(), "b".to_string(), "c".to_string()])
    );
    assert_eq!(safe_relative_components(""), Err("文件路径为空".to_string()));
    assert_eq!(
        safe_relative_components("a/../b"),
        Err("对端发送了不安全的文件路径".to_string())
    );
}

#[test]
fn received_files_go_where_the_user_wants() {
    let dir = |c: &str, d: Option<&str>, h: Option<&str>| {
        resolve_download_dir(c, d.map(str::to_string), h.map(str::to_string), "/tmp".into())
    };
    assert_eq!(dir("  /x y ", Some("/d"), Some("/h")), "/x y");
    assert_eq!(dir(" \t", Some("/d"), Some("/h")), "/d");
    assert_eq!(dir("", None, Some("/h")), "/h");
    assert_eq!(dir("", None, None), "/tmp");
}

#[test]
fn numbers_and_digests_as_text() {
    assert_eq!(decimal_text(0), "0");
    assert_eq!(decimal_text(u64::MAX), u64::MAX.to_string());
    assert_eq!(hex_text(&[0, 15, 16, 255]), "000f10ff");
    let mut d = FileDigest::new();
    d.update(b"a");
    d.update(b"bc");
    assert_eq!(
        d.finish().unwrap(),
        "ba7816bf8f01cfea414140de5dae2223b00361a396177a9cb410ff61f20015ad"
    );
    assert_eq!(
        FileDigest::new().finish().unwrap(),
        "e3b0c44298fc1c149afbf4c8996fb92427ae41e4649b934ca495991b7852b855"
    );
    assert_eq!(trim(" \u{3000}a b\n"), "a b");
    assert_eq!(trim(&trim("\t x \t")), "x");
    for c in (0..=0x10ffff).filter_map(char::from_u32) {
        let white = matches!(
            c as u32,
            0x9..=0xd | 0x20 | 0x85 | 0xa0 | 0x1680 | 0x2000..=0x200a | 0x2028 | 0x2029 | 0x202f
                | 0x205f | 0x3000
        );
        assert_eq!(trim(&c.to_string()).is_empty(), white, "{c:?}");
    }
}

#[test]
fn plan_of_equal_names_and_of_what_cannot_be_sent() {
    let plan = build_plan(&vec![
        entry(1, "a.txt", SourceKind::File(3)),
        entry(2, "a.txt", SourceKind::File(4)),
    ])
    .unwrap();
    let names: Vec<&str> = plan.roots.iter().map(|r| r.name.as_str()).collect();
    assert_eq!(names, vec!["a.txt", "a (1).txt"]);
    assert_eq!(plan.total_bytes, 7);
    assert_eq!(plan.files[1].handle, 2);
    let fails = |kind| match build_plan(&vec![entry(1, "x", kind)]) {
        Ok(_) => panic!("this cannot be sent"),
        Err(e) => e,
    };
    assert_eq!(fails(SourceKind::Symlink), "暂不传输符号链接: /tmp/x");
    assert_eq!(fails(SourceKind::Other), "只支持普通文件和文件夹");
    let unnamed = SourceEntry { handle: 1, shown: "/".into(), name: String::new(), kind: SourceKind::File(1) };
    assert_eq!(build_plan(&vec![unnamed]).err(), Some("无效路径: /".to_string()));
}

#[test]
fn siblings_are_sent_by_name() {
    let file = |handle, name| entry(handle, name, SourceKind::File(1));
    let plan = build_plan(&vec![entry(
        0,
        "r",
        SourceKind::Directory(vec![
            file(1, "b"),
            entry(2, "nested", SourceKind::Directory(vec![file(3, "z"), file(4, "y")])),
            entry(5, "empty", SourceKind::Directory(Vec::new())),
            file(6, "a"),
            file(7, "B"),
            file(8, "ab"),
            file(9, "é"),
        ]),
    )])
    .unwrap();
    assert_eq!(plan.directories, vec!["r", "r/empty", "r/nested"]);
    let order: Vec<u64> = plan.files.iter().map(|f| f.handle).collect();
    assert_eq!(order, vec![7, 6, 8, 1, 4, 3, 9]);
    assert_eq!(plan.total_bytes, 7);
    // The first obstacle by name is the reason.
    let broken = |h, name, why: &str| entry(h, name, SourceKind::Unreadable(why.into()));
    let fails = build_plan(&vec![entry(
        0,
        "r",
        SourceKind::Directory(vec![broken(1, "z", "late"), broken(2, "c", "early")]),
    )]);
    assert_eq!(fails.err(), Some("early".to_string()));
}

fn top(name: &str, kind: TopKind) -> TopEntry {
    TopEntry { shown: format!("/tmp/{name}"), name: name.to_string(), kind }
}

#[test]
fn announced_roots_are_the_planned_ones() {
    let tops = vec![
        top("a.txt", TopKind::File),
        top("d", TopKind::Directory),
        top("a.txt", TopKind::File),
    ];
    let announced = build_roots(&tops).unwrap();
    assert_eq!(announced, vec![root("a.txt", false), root("d", true), root("a (1).txt", false)]);
    let inside = vec![entry(3, "x", SourceKind::File(2))];
    let plan = build_plan(&vec![
        entry(1, "a.txt", SourceKind::File(3)),
        entry(2, "d", SourceKind::Directory(inside)),
        entry(4, "a.txt", SourceKind::File(4)),
    ])
    .unwrap();
    assert_eq!(announced, plan.roots);
    let fails = |kind| build_roots(&vec![top("x", kind)]).unwrap_err();
    assert_eq!(fails(TopKind::Symlink), "暂不传输符号链接: /tmp/x");
    assert_eq!(fails(TopKind::Other), "只支持普通文件和文件夹");
    assert_eq!(fails(TopKind::Unreadable("gone".into())), "gone");
    assert_eq!(build_roots(&vec![top("", TopKind::File)]).unwrap_err(), "无效路径: /tmp/");
}

fn root(name: &str, is_dir: bool) -> TransferRoot {
    TransferRoot { name: name.to_string(), is_dir }
}

fn announce(r: &mut FileReceiver, files: u32, bytes: u64, clipboard: Option<&str>) -> Vec<Effect> {
    let roots = vec![root("dir", true)];
    let start = Payload::FileBatchStart {
        id: "b".into(),
        roots: roots.clone(),
        total_files: files,
        total_bytes: bytes,
        drop_at_cursor: false,
        drag_id: None,
        clipboard_id: clipboard.map(str::to_string),
    };
    match r.handle(&start, 0) {
        Handling::Reserve { wanted } => assert_eq!(wanted, vec![Some("dir".to_string())]),
        _ => panic!("roots are created first"),
    }
    let outcome = r.roots_reserved(
        "b",
        &roots,
        files,
        bytes,
        false,
        None,
        clipboard.map(str::to_string),
        Ok(None),
        &vec![Ok("/in/dir".to_string())],
        0,
    );
    assert_eq!(
        outcome.reply,
        Some(Payload::FileBatchReady { id: "b".into(), ok: true, error: None })
    );
    outcome.effects
}

fn open_file(r: &mut FileReceiver, size: u64) {
    let start = Payload::FileStart {
        id: "f".into(),
        batch_id: "b".into(),
        path: "dir/sub/a.txt".into(),
        size,
    };
    match r.handle(&start, 1) {
        Handling::OpenTemp { root, names } => {
            assert_eq!(root, "/in/dir");
            assert_eq!(names, vec!["sub".to_string(), "a.txt".to_string()]);
        }
        _ => panic!("a file is opened"),
    }
    let outcome = r.temp_opened(
        "f",
        "b",
        size,
        Ok(("/in/dir/sub/.a.part".to_string(), "/in/dir/sub/a.txt".to_string())),
        1,
    );
    assert_eq!(
        outcome.reply,
        Some(Payload::FileReady { id: "f".into(), ok: true, error: None })
    );
}

fn piece(r: &mut FileReceiver, seq: u32, data: &[u8]) -> Handling {
    r.handle(&Payload::FileChunk { id: "f".into(), seq, data: data.to_vec() }, 2)
}

const ABC: &str = "ba7816bf8f01cfea414140de5dae2223b00361a396177a9cb410ff61f20015ad";

fn end(sha256: &str) -> Payload {
    Payload::FileEnd { id: "f".into(), sha256: sha256.into() }
}

fn result_error(p: Option<Payload>) -> Option<String> {
    match p {
        Some(Payload::FileResult { ok, error, .. }) => {
            assert_eq!(ok, error.is_none());
            error
        }
        Some(Payload::FileBatchResult { ok, error, .. }) => {
            assert_eq!(ok, error.is_none());
            error
        }
        other => panic!("a result, not {other:?}"),
    }
}

fn done(h: Handling) -> (Option<Payload>, Vec<Effect>) {
    match h {
        Handling::Done(o) => (o.reply, o.effects),
        _ => panic!("nothing to do on the disk"),
    }
}

#[test]
fn file_arrives_whole() {
    let mut r = FileReceiver::new(PathStyle::Drive);
    announce(&mut r, 1, 3, None);
    match r.handle(&Payload::FileDirectory { batch_id: "b".into(), path: "dir/sub".into() }, 1) {
        Handling::MakeFolder { root, names } => {
            assert_eq!((root.as_str(), names), ("/in/dir", vec!["sub".to_string()]));
        }
        _ => panic!("a folder is made"),
    }
    r.folder_made("b", Ok(()), 1);
    open_file(&mut r, 3);
    assert!(matches!(piece(&mut r, 0, b"ab"), Handling::Write));
    assert_eq!(r.chunk_written("f", b"ab", Ok(()), 2).reply, None);
    assert!(matches!(piece(&mut r, 1, b"c"), Handling::Write));
    assert_eq!(r.chunk_written("f", b"c", Ok(()), 3).reply, None);
    match r.handle(&end(ABC), 4) {
        Handling::Finish { batch_id, temp, target } => {
            assert_eq!(batch_id, "b");
            assert_eq!(temp, "/in/dir/sub/.a.part");
            assert_eq!(target, "/in/dir/sub/a.txt");
        }
        _ => panic!("the file is moved to its place"),
    }
    let o = r.file_finished("f", "b", "/in/dir/sub/.a.part".into(), Ok(()), 4);
    assert_eq!(result_error(o.reply), None);
    let (reply, effects) = done(r.handle(&Payload::FileBatchEnd { id: "b".into() }, 5));
    assert_eq!(result_error(reply), None);
    assert!(effects.iter().any(|e| matches!(e, Effect::Update(u) if u.status == Status::Completed)));
}

#[test]
fn damaged_file_is_not_kept() {
    let mut r = FileReceiver::new(PathStyle::Drive);
    announce(&mut r, 1, 3, None);
    open_file(&mut r, 3);
    piece(&mut r, 0, b"abd");
    r.chunk_written("f", b"abd", Ok(()), 2);
    let (reply, effects) = done(r.handle(&end(ABC), 3));
    assert_eq!(result_error(reply), Some("文件校验失败，内容不完整".to_string()));
    assert!(effects.contains(&Effect::RemoveFile("/in/dir/sub/.a.part".into())));
    let (reply, _) = done(r.handle(&Payload::FileBatchEnd { id: "b".into() }, 4));
    assert_eq!(result_error(reply), Some("文件校验失败，内容不完整".to_string()));
}

#[test]
fn short_file_is_not_kept() {
    let mut r = FileReceiver::new(PathStyle::Drive);
    announce(&mut r, 1, 3, None);
    open_file(&mut r, 3);
    piece(&mut r, 0, b"ab");
    r.chunk_written("f", b"ab", Ok(()), 2);
    let (reply, _) = done(r.handle(&end(ABC), 3));
    assert_eq!(result_error(reply), Some("文件大小不符：期望 3，实际 2".to_string()));
}

#[test]
fn pieces_out_of_order_void_the_file() {
    let mut r = FileReceiver::new(PathStyle::Drive);
    announce(&mut r, 1, 3, None);
    open_file(&mut r, 3);
    let (reply, effects) = done(piece(&mut r, 1, b"b"));
    assert_eq!(result_error(reply), Some("数据块序号错误，期望 0，收到 1".to_string()));
    assert!(effects.contains(&Effect::RemoveFile("/in/dir/sub/.a.part".into())));
    let (reply, _) = done(r.handle(&end(ABC), 3));
    assert_eq!(result_error(reply), Some("文件任务不存在或已失败".to_string()));
    let (reply, _) = done(r.handle(&Payload::FileBatchEnd { id: "b".into() }, 4));
    assert_eq!(result_error(reply), Some("数据块序号错误，期望 0，收到 1".to_string()));
}

#[test]
fn more_than_announced_is_refused() {
    let mut r = FileReceiver::new(PathStyle::Drive);
    announce(&mut r, 1, 3, None);
    open_file(&mut r, 3);
    let (reply, _) = done(piece(&mut r, 0, b"abcd"));
    assert_eq!(result_error(reply), Some("收到的数据超过声明大小".to_string()));
    let (reply, _) = done(r.handle(&Payload::FileBatchEnd { id: "b".into() }, 4));
    assert_eq!(result_error(reply), Some("收到的数据超过声明大小".to_string()));
}

#[test]
fn incomplete_batch_fails() {
    let mut r = FileReceiver::new(PathStyle::Drive);
    announce(&mut r, 2, 3, None);
    let (reply, effects) = done(r.handle(&Payload::FileBatchEnd { id: "b".into() }, 4));
    assert_eq!(result_error(reply), Some("文件数量不符：期望 2，完成 0".to_string()));
    assert!(effects.iter().any(|e| matches!(e, Effect::CleanUp(_))));
    let (reply, _) = done(r.handle(&Payload::FileBatchEnd { id: "b".into() }, 5));
    assert_eq!(result_error(reply), Some("接收任务不存在".to_string()));
}

#[test]
fn paths_outside_the_announced_roots_are_refused() {
    let mut r = FileReceiver::new(PathStyle::Drive);
    announce(&mut r, 1, 3, None);
    let start = |path: &str| Payload::FileStart {
        id: "f".into(),
        batch_id: "b".into(),
        path: path.into(),
        size: 3,
    };
    for (path, expected) in [
        ("other/a", "文件不属于声明的根目录"),
        ("../a", "对端发送了不安全的文件路径"),
        ("", "文件路径为空"),
    ] {
        match done(r.handle(&start(path), 1)).0 {
            Some(Payload::FileReady { ok: false, error, .. }) => {
                assert_eq!(error.as_deref(), Some(expected));
            }
            other => panic!("{path} is refused, not {other:?}"),
        }
    }
}

#[test]
fn cancelled_batch_is_gone() {
    let mut r = FileReceiver::new(PathStyle::Drive);
    announce(&mut r, 1, 3, None);
    open_file(&mut r, 3);
    let (reply, effects) = done(r.handle(&Payload::FileBatchCancel { id: "b".into() }, 2));
    assert_eq!(result_error(reply), Some("发送端已取消".to_string()));
    assert!(effects.contains(&Effect::RemoveFile("/in/dir/sub/.a.part".into())));
    let (reply, _) = done(r.handle(&end(ABC), 3));
    assert!(result_error(reply).is_some());
    assert!(r.cancel_batch_with_reason("b", "again").is_empty());
}

#[test]
fn idle_batches_are_given_up() {
    let mut r = FileReceiver::new(PathStyle::Drive);
    announce(&mut r, 1, 3, None);
    assert!(r.cleanup_stale(60 * SECOND, 59 * SECOND).is_empty());
    let effects = r.cleanup_stale(60 * SECOND, 61 * SECOND);
    assert!(effects.iter().any(|e| matches!(
        e,
        Effect::Update(u) if u.error.as_deref() == Some("传输超时，已清理临时文件")
    )));
    assert!(r.cleanup_stale(60 * SECOND, 900 * SECOND).is_empty());
}

#[test]
fn only_the_current_copy_owns_the_clipboard() {
    for (current, owns) in [("c1", true), ("c2", false)] {
        let mut r = FileReceiver::new(PathStyle::Drive);
        assert!(r.begin_clipboard_revision(current));
        announce(&mut r, 0, 0, Some("c1"));
        let (reply, effects) = done(r.handle(&Payload::FileBatchEnd { id: "b".into() }, 5));
        assert_eq!(result_error(reply), None);
        let written = effects
            .iter()
            .any(|e| matches!(e, Effect::WriteClipboardFiles(p) if p[0] == "/in/dir"));
        assert_eq!(written, owns);
    }
}

fn plan() -> SendPlan {
    build_plan(&vec![entry(
        9,
        "dir",
        SourceKind::Directory(vec![entry(7, "a.txt", SourceKind::File(3))]),
    )])
    .unwrap()
}

fn transmit(step: SendStep) -> Payload {
    match step {
        SendStep::Transmit { payload, .. } => payload,
        _ => panic!("something is sent"),
    }
}

#[test]
fn sent_file_is_announced_read_and_confirmed() {
    let (mut run, first) = BatchRun::start("b", plan(), false, None, None);
    match transmit(first) {
        Payload::FileBatchStart { id, roots, total_files, total_bytes, .. } => {
            assert_eq!((id.as_str(), total_files, total_bytes), ("b", 1, 3));
            assert_eq!(roots, vec![root("dir", true)]);
        }
        _ => panic!("the batch is announced first"),
    }
    let mut go = |e: SendEvent| run.next_with_id(e, None, "f".into(), 0);
    assert!(matches!(go(SendEvent::Sent).0, SendStep::Await { waiter } if waiter == "b"));
    assert_eq!(
        transmit(go(SendEvent::Confirmed).0),
        Payload::FileDirectory { batch_id: "b".into(), path: "dir".into() }
    );
    assert_eq!(
        transmit(go(SendEvent::Sent).0),
        Payload::FileStart { id: "f".into(), batch_id: "b".into(), path: "dir/a.txt".into(), size: 3 }
    );
    assert!(matches!(go(SendEvent::Sent).0, SendStep::Await { waiter } if waiter == "f"));
    assert!(matches!(go(SendEvent::Confirmed).0, SendStep::Open { handle: 7, .. }));
    assert!(matches!(go(SendEvent::Opened).0, SendStep::Read { limit: CHUNK_SIZE }));
    assert_eq!(
        transmit(go(SendEvent::Data(b"abc".to_vec())).0),
        Payload::FileChunk { id: "f".into(), seq: 0, data: b"abc".to_vec() }
    );
    let (step, update) = go(SendEvent::Sent);
    assert!(matches!(step, SendStep::Read { limit: CHUNK_SIZE }));
    assert_eq!(update.unwrap().transferred, 3);
    assert_eq!(transmit(go(SendEvent::Data(Vec::new())).0), end(ABC));
    assert!(matches!(go(SendEvent::Sent).0, SendStep::Await { .. }));
    let (step, update) = go(SendEvent::Confirmed);
    assert_eq!(transmit(step), Payload::FileBatchEnd { id: "b".into() });
    assert_eq!(update.unwrap().files_done, 1);
    assert!(matches!(go(SendEvent::Sent).0, SendStep::Await { waiter } if waiter == "b"));
    let (step, update) = go(SendEvent::Confirmed);
    assert!(matches!(step, SendStep::Finished));
    assert_eq!(update.unwrap().status, Status::Completed);
}

#[test]
fn pieces_hold_at_most_256_kib() {
    let (mut run, _) = BatchRun::start("b", plan(), false, None, None);
    let mut go = |e: SendEvent| run.next_with_id(e, None, "f".into(), 0).0;
    for e in [SendEvent::Sent, SendEvent::Confirmed, SendEvent::Sent, SendEvent::Sent] {
        go(e);
    }
    go(SendEvent::Confirmed);
    assert!(matches!(go(SendEvent::Opened), SendStep::Read { limit: 262_144 }));
    match transmit(go(SendEvent::Data(vec![7; 262_144]))) {
        Payload::FileChunk { seq, data, .. } => assert_eq!((seq, data.len()), (0, 262_144)),
        _ => panic!("a piece is sent"),
    }
    assert!(matches!(go(SendEvent::Sent), SendStep::Read { limit: 262_144 }));
}

#[test]
fn stopped_batch_goes_no_further() {
    let (mut run, _) = BatchRun::start("b", plan(), false, None, None);
    run.next(SendEvent::Sent, None, 0);
    let (step, _) = run.next(SendEvent::Confirmed, Some("传输已取消".into()), 0);
    assert!(matches!(step, SendStep::Failed(e) if e == "传输已取消"));
    let (mut run, _) = BatchRun::start("b", plan(), false, None, None);
    let (step, _) = run.next(SendEvent::Failed("gone".into()), None, 0);
    assert!(matches!(step, SendStep::Failed(e) if e == "gone"));
}

fn error<T>(r: Result<T, String>) -> String {
    match r {
        Ok(_) => panic!("an error"),
        Err(e) => e,
    }
}

#[test]
fn books_of_the_sender() {
    let mut s: FileSender<&str> = FileSender::new();
    assert_eq!(error(s.send_paths(Vec::new(), true)), "没有选择文件或文件夹");
    assert_eq!(error(s.send_paths(vec!["/a"], false)), "对端未连接，无法发送");
    let q = s.send_paths(vec!["/a"], true).ok().unwrap();
    assert_eq!(q.id.len(), 36);
    assert_eq!(q.update.status, Status::Preparing);
    assert_eq!(s.ensure_not_cancelled(&q.id, true), Ok(()));
    assert_eq!(error(s.ensure_not_cancelled(&q.id, false)), "网络连接已断开");
    assert_eq!(s.cancel(&q.id), Payload::FileBatchCancel { id: q.id.clone() });
    assert_eq!(error(s.ensure_not_cancelled(&q.id, true)), "传输已取消");
    assert_eq!(s.paths_of(&q.id), Some(&vec!["/a"]));
    let again = s.retry(&q.id, true).ok().unwrap();
    assert_eq!(s.paths_of(&again.id), Some(&vec!["/a"]));
    assert_eq!(s.paths_of(&q.id), None);
    assert_ne!(again.id, q.id);
    assert_eq!(error(s.retry("unknown", true)), "找不到可重试的传输任务");
    assert!(s.batch_over(&again.id, Ok(())).is_none());
    assert_eq!(error(s.retry(&again.id, true)), "找不到可重试的传输任务");
}

#[test]
fn failed_batch_is_told_to_both_sides() {
    let mut s: FileSender<&str> = FileSender::new();
    let q = s.enqueue_with_id("b".into(), vec!["/a"], false, None, None, true).ok().unwrap();
    let (payload, update) = s.batch_over(&q.id, Err("broken".into())).unwrap();
    assert_eq!(payload, Payload::FileBatchCancel { id: "b".into() });
    assert_eq!((update.status, update.error.as_deref()), (Status::Failed, Some("broken")));
    s.cancel("b");
    let (_, update) = s.batch_over("b", Err("传输已取消".into())).unwrap();
    assert_eq!(update.status, Status::Cancelled);
}

#[test]
fn confirmations_reach_their_waiters() {
    let mut s: FileSender<&str> = FileSender::new();
    s.register_waiter("f");
    let refused = Payload::FileReady { id: "f".into(), ok: false, error: None };
    let (mine, c) = s.handle_result(&refused);
    let c = c.unwrap();
    assert!(mine && c.waiter == "f");
    assert_eq!(c.result, Err("对端接收失败".to_string()));
    let (mine, c) = s.handle_result(&refused);
    assert!(mine && c.is_none());
    s.register_waiter("f");
    s.drop_waiter("f");
    assert!(s.handle_result(&refused).1.is_none());
    assert!(!s.handle_result(&Payload::Heartbeat { seq: 1 }).0);
    assert_eq!(check_wait("f", None, 0, 119 * SECOND), None);
    assert_eq!(check_wait("f", None, 0, 120 * SECOND), Some("等待对端确认超时: f".to_string()));
    assert_eq!(check_wait("f", Some("stop".into()), 0, 0), Some("stop".to_string()));
}

#[test]
fn drag_is_sent_when_it_is_dropped() {
    let mut s: FileSender<&str> = FileSender::new();
    assert_eq!(error(s.offer_drag_paths(Vec::new(), true)), "no connected file drag");
    assert_eq!(error(s.offer_drag_paths(vec!["/a"], false)), "no connected file drag");
    let id = s.offer_drag_paths(vec!["/a"], true).unwrap();
    assert_eq!(
        s.drag_prepared(&id, &vec![top("a", TopKind::File)]),
        Ok(Payload::DragStart { id: id.clone(), roots: vec![root("a", false)] })
    );
    let q = s.commit_drag(&id, true).ok().unwrap();
    assert_eq!(q.drag_id, Some(id.clone()));
    assert_eq!(error(s.commit_drag(&id, true)), "drag session is no longer available");
    s.offer_drag_with_id("d".into(), vec!["/a"], true).unwrap();
    s.cancel_drag("d");
    assert_eq!(error(s.commit_drag("d", true)), "drag session is no longer available");
    s.offer_drag_with_id("d".into(), vec!["/a"], true).unwrap();
    assert!(s.drag_prepared("d", &vec![top("a", TopKind::Symlink)]).is_err());
    assert_eq!(error(s.commit_drag("d", true)), "drag session is no longer available");
}
