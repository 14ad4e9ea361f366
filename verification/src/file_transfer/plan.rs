//! What a batch of files and folders consists of.

use vstd::prelude::*;

use crate::file_transfer::names::{
    candidate, free_name, law_free_name_is_free, unique_logical_name, UsedNames,
};
use crate::protocol::TransferRoot;
use crate::table::Table;
use crate::text::{chars_of, texts};

verus! {

/// Something on the disk of the sending machine.
pub struct SourceEntry {
    /// By which the application finds it again.
    pub handle: u64,
    /// Its path, as it is shown to the user.
    pub shown: String,
    /// Its own name; empty where it has none that can be sent.
    pub name: String,
    pub kind: SourceKind,
}

/// What an entry is.
pub enum SourceKind {
    /// It could not be looked at, for this reason.
    Unreadable(String),
    Symlink,
    /// A folder with what it holds.
    Directory(Vec<SourceEntry>),
    /// A folder whose contents could not be read, for this reason.
    Unlistable(String),
    /// A file of this many bytes.
    File(u64),
    Other,
}

/// One of the chosen files and folders, without what is below it.
pub struct TopEntry {
    /// Its path, as it is shown to the user.
    pub shown: String,
    /// Its own name; empty where it has none that can be sent.
    pub name: String,
    pub kind: TopKind,
}

/// What one of the chosen files and folders is.
pub enum TopKind {
    /// It could not be looked at, for this reason.
    Unreadable(String),
    Symlink,
    Directory,
    File,
    Other,
}

/// A file to send.
pub struct SendFile {
    pub handle: u64,
    pub shown: String,
    /// Its path inside the batch.
    pub relative: String,
    pub size: u64,
}

/// Everything that a batch sends.
pub struct SendPlan {
    pub roots: Vec<TransferRoot>,
    pub directories: Vec<String>,
    pub files: Vec<SendFile>,
    pub total_bytes: u64,
}

/// A file to send.
pub struct FileView {
    pub handle: u64,
    pub shown: Seq<char>,
    pub relative: Seq<char>,
    pub size: u64,
}

/// Folders and files, with their paths inside the batch.
pub struct WalkView {
    pub directories: Seq<Seq<char>>,
    pub files: Seq<FileView>,
}

/// Everything that a batch sends: its roots (with whether each is a folder), and
/// what they hold.
pub struct PlanView {
    pub roots: Seq<(Seq<char>, bool)>,
    pub contents: WalkView,
}

impl SendFile {
    pub open spec fn file_view(self) -> FileView {
        FileView {
            handle: self.handle,
            shown: self.shown@,
            relative: self.relative@,
            size: self.size,
        }
    }
}

pub open spec fn file_views(files: Seq<SendFile>) -> Seq<FileView> {
    files.map_values(|f: SendFile| f.file_view())
}

pub open spec fn root_views(roots: Seq<TransferRoot>) -> Seq<(Seq<char>, bool)> {
    roots.map_values(|r: TransferRoot| (r.name@, r.is_dir))
}

impl SendPlan {
    pub open spec fn plan_view(self) -> PlanView {
        PlanView {
            roots: root_views(self.roots@),
            contents: WalkView {
                directories: texts(self.directories@),
                files: file_views(self.files@),
            },
        }
    }
}

impl WalkView {
    pub open spec fn nothing() -> Self {
        WalkView { directories: Seq::empty(), files: Seq::empty() }
    }

    pub open spec fn plus(self, other: Self) -> Self {
        WalkView {
            directories: self.directories + other.directories,
            files: self.files + other.files,
        }
    }
}

/// The path of `name` inside the folder `relative`.
pub open spec fn child_path(relative: Seq<char>, name: Seq<char>) -> Seq<char> {
    relative + seq!['/'] + name
}

/// What one entry of the folder `relative` adds to a batch, or the reason why
/// the batch cannot be sent. Links and special files are left out.
pub open spec fn walk_entry(e: SourceEntry, relative: Seq<char>) -> Result<WalkView, Seq<char>>
    decreases e, 0int,
{
    let path = child_path(relative, e.name@);
    match e.kind {
        SourceKind::Unreadable(reason) => Err(reason@),
        SourceKind::Unlistable(reason) => Err(reason@),
        SourceKind::Directory(children) => match walk_entries(children@, path) {
            Ok(inside) => Ok(
                WalkView { directories: seq![path], files: Seq::empty() }.plus(inside),
            ),
            Err(reason) => Err(reason),
        },
        SourceKind::File(size) => Ok(
            WalkView {
                directories: Seq::empty(),
                files: seq![FileView { handle: e.handle, shown: e.shown@, relative: path, size }],
            },
        ),
        SourceKind::Symlink => Ok(WalkView::nothing()),
        SourceKind::Other => Ok(WalkView::nothing()),
    }
}

/// What each entry of the folder `relative` adds to a batch.
pub open spec fn walk_each(es: Seq<SourceEntry>, relative: Seq<char>) -> Seq<
    Result<WalkView, Seq<char>>,
>
    decreases es, 0int,
{
    if es.len() == 0 {
        Seq::empty()
    } else {
        walk_each(es.subrange(0, es.len() - 1), relative).push(
            walk_entry(es[es.len() - 1], relative),
        )
    }
}

/// Several parts of a batch, one after the other; the first obstacle decides.
pub open spec fn gathered(parts: Seq<Result<WalkView, Seq<char>>>) -> Result<WalkView, Seq<char>>
    decreases parts.len(),
{
    if parts.len() == 0 {
        Ok(WalkView::nothing())
    } else {
        match gathered(parts.drop_last()) {
            Ok(before) => match parts.last() {
                Ok(w) => Ok(before.plus(w)),
                Err(reason) => Err(reason),
            },
            Err(reason) => Err(reason),
        }
    }
}

/// The names of entries.
pub open spec fn names_of(es: Seq<SourceEntry>) -> Seq<Seq<char>> {
    es.map_values(|e: SourceEntry| e.name@)
}

/// Those of `parts` that `order` tells, in that order.
pub open spec fn picked<T>(parts: Seq<T>, order: Seq<int>) -> Seq<T> {
    order.map_values(|i: int| parts[i])
}

/// What the entries of the folder `relative` add to a batch, one after the other in
/// the order of their names.
pub open spec fn walk_entries(es: Seq<SourceEntry>, relative: Seq<char>) -> Result<
    WalkView,
    Seq<char>,
>
    decreases es, 1int,
{
    gathered(picked(walk_each(es, relative), name_order(names_of(es))))
}

/// What one of the chosen files and folders becomes in the batch, under the name
/// `root`.
pub open spec fn plan_root(e: SourceEntry, root: Seq<char>) -> Result<WalkView, Seq<char>> {
    match e.kind {
        SourceKind::Directory(children) => match walk_entries(children@, root) {
            Ok(inside) => Ok(
                WalkView { directories: seq![root], files: Seq::empty() }.plus(inside),
            ),
            Err(reason) => Err(reason),
        },
        SourceKind::Unlistable(reason) => Err(reason@),
        SourceKind::File(size) => Ok(
            WalkView {
                directories: Seq::empty(),
                files: seq![FileView { handle: e.handle, shown: e.shown@, relative: root, size }],
            },
        ),
        _ => Err("只支持普通文件和文件夹"@),
    }
}

/// Why one of the chosen files and folders cannot be sent at all.
pub open spec fn obstacle(e: SourceEntry) -> Option<Seq<char>> {
    match e.kind {
        SourceKind::Unreadable(reason) => Some(reason@),
        SourceKind::Symlink => Some("暂不传输符号链接: "@ + e.shown@),
        _ => if e.name@.len() == 0 {
            Some("无效路径: "@ + e.shown@)
        } else {
            None
        },
    }
}

/// The names of the roots.
pub open spec fn root_names(roots: Seq<(Seq<char>, bool)>) -> Set<Seq<char>> {
    roots.map_values(|r: (Seq<char>, bool)| r.0).to_set()
}

/// The batch for the chosen files and folders, or the reason why there is none.
/// Roots with the same name are told apart by numbers.
pub open spec fn plan_of(es: Seq<SourceEntry>) -> Result<PlanView, Seq<char>>
    decreases es.len(),
{
    if es.len() == 0 {
        Ok(PlanView { roots: Seq::empty(), contents: WalkView::nothing() })
    } else {
        match plan_of(es.drop_last()) {
            Err(reason) => Err(reason),
            Ok(before) => {
                let e = es.last();
                let root = free_name(e.name@, root_names(before.roots));
                match (obstacle(e), plan_root(e, root)) {
                    (Some(reason), _) => Err(reason),
                    (None, Err(reason)) => Err(reason),
                    (None, Ok(w)) => Ok(
                        PlanView {
                            roots: before.roots.push((root, e.kind is Directory)),
                            contents: before.contents.plus(w),
                        },
                    ),
                }
            },
        }
    }
}

/// The number of bytes in some files.
pub open spec fn total_size(files: Seq<FileView>) -> nat
    decreases files.len(),
{
    if files.len() == 0 {
        0
    } else {
        total_size(files.drop_last()) + files.last().size as nat
    }
}

fn join_path(relative: &str, name: &str) -> (r: String)
    ensures
        r@ == child_path(relative@, name@),
{
    let mut r = relative.to_owned();
    r.push('/');
    r.push_str(name);
    assert(r@ =~= child_path(relative@, name@));
    r
}

fn with_path(text: &str, path: &str) -> (r: String)
    ensures
        r@ == text@ + path@,
{
    let mut r = text.to_owned();
    r.push_str(path);
    r
}

/// Adds one entry of the folder `relative`.
fn add_entry(
    e: &SourceEntry,
    relative: &str,
    directories: &mut Vec<String>,
    files: &mut Vec<SendFile>,
) -> (r: Result<(), String>)
    ensures
        match walk_entry(*e, relative@) {
            Ok(w) => {
                &&& r is Ok
                &&& texts(final(directories)@) == texts(old(directories)@) + w.directories
                &&& file_views(final(files)@) == file_views(old(files)@) + w.files
            },
            Err(reason) => r matches Err(text) && text@ == reason,
        },
    decreases *e,
{
    let path = join_path(relative, e.name.as_str());
    match &e.kind {
        SourceKind::Unreadable(reason) => Err(reason.clone()),
        SourceKind::Unlistable(reason) => Err(reason.clone()),
        SourceKind::Directory(children) => {
            directories.push(path.clone());
            assert(texts(directories@) =~= texts(old(directories)@) + seq![path@]);
            let r = walk_directory(children, path.as_str(), directories, files);
            proof {
                if let Ok(inside) = walk_entries(children@, path@) {
                    assert(texts(old(directories)@) + seq![path@] + inside.directories
                        =~= texts(old(directories)@) + (seq![path@] + inside.directories));
                    assert(Seq::<FileView>::empty() + inside.files =~= inside.files);
                }
            }
            r
        },
        SourceKind::File(size) => {
            files.push(
                SendFile { handle: e.handle, shown: e.shown.clone(), relative: path, size: *size },
            );
            proof {
                let w = walk_entry(*e, relative@)->Ok_0;
                assert(file_views(files@) =~= file_views(old(files)@) + w.files);
                assert(texts(directories@) =~= texts(old(directories)@) + w.directories);
            }
            Ok(())
        },
        SourceKind::Symlink | SourceKind::Other => {
            assert(file_views(files@) =~= file_views(old(files)@) + Seq::<FileView>::empty());
            assert(texts(directories@) =~= texts(old(directories)@) + Seq::<
                Seq<char>,
            >::empty());
            Ok(())
        },
    }
}

proof fn lemma_walk_each(es: Seq<SourceEntry>, relative: Seq<char>)
    ensures
        walk_each(es, relative).len() == es.len(),
        forall|i: int|
            0 <= i < es.len() ==> #[trigger] walk_each(es, relative)[i] == walk_entry(
                es[i],
                relative,
            ),
    decreases es.len(),
{
    if es.len() > 0 {
        lemma_walk_each(es.subrange(0, es.len() - 1), relative);
    }
}

/// Adds the entries of the folder `relative`, in the order of their names.
pub fn walk_directory(
    entries: &Vec<SourceEntry>,
    relative: &str,
    directories: &mut Vec<String>,
    files: &mut Vec<SendFile>,
) -> (r: Result<(), String>)
    ensures
        match walk_entries(entries@, relative@) {
            Ok(w) => {
                &&& r is Ok
                &&& texts(final(directories)@) == texts(old(directories)@) + w.directories
                &&& file_views(final(files)@) == file_views(old(files)@) + w.files
            },
            Err(reason) => r matches Err(text) && text@ == reason,
        },
    decreases *entries,
{
    let order: Vec<usize> = order_by_name(entries);
    let n: usize = order.len();
    let mut i: usize = 0;
    let ghost parts = picked(walk_each(entries@, relative@), name_order(names_of(entries@)));
    proof {
        lemma_name_order(names_of(entries@));
        lemma_walk_each(entries@, relative@);
        assert(parts.take(0) =~= Seq::<Result<WalkView, Seq<char>>>::empty());
        assert(texts(directories@) =~= texts(old(directories)@) + Seq::<Seq<char>>::empty());
        assert(file_views(files@) =~= file_views(old(files)@) + Seq::<FileView>::empty());
    }
    while i < n
        invariant
            n == order@.len(),
            n == parts.len(),
            i <= n,
            walk_entries(entries@, relative@) == gathered(parts),
            forall|k: int| 0 <= k < n ==> (#[trigger] order@[k]) < entries@.len(),
            forall|k: int|
                0 <= k < n ==> #[trigger] parts[k] == walk_entry(
                    entries@[order@[k] as int],
                    relative@,
                ),
            gathered(parts.take(i as int)) is Ok,
            texts(directories@) == texts(old(directories)@) + gathered(
                parts.take(i as int),
            )->Ok_0.directories,
            file_views(files@) == file_views(old(files)@) + gathered(
                parts.take(i as int),
            )->Ok_0.files,
        decreases n - i,
    {
        let ghost before = gathered(parts.take(i as int))->Ok_0;
        let ghost dirs = texts(directories@);
        let ghost fs = file_views(files@);
        proof {
            let next = parts.take(i + 1);
            assert(next.drop_last() =~= parts.take(i as int));
            assert(next.last() == parts[i as int]);
        }
        let at: usize = order[i];
        let r = add_entry(&entries[at], relative, directories, files);
        match r {
            Ok(()) => {
                proof {
                    let w = parts[i as int]->Ok_0;
                    assert(dirs + w.directories =~= texts(old(directories)@) + (
                    before.directories + w.directories));
                    assert(fs + w.files =~= file_views(old(files)@) + (before.files + w.files));
                }
            },
            Err(reason) => {
                proof {
                    lemma_obstacle_stays(parts, i + 1);
                }
                return Err(reason);
            },
        }
        i += 1;
    }
    assert(parts.take(n as int) =~= parts);
    Ok(())
}

proof fn lemma_obstacle_stays(parts: Seq<Result<WalkView, Seq<char>>>, k: int)
    requires
        0 <= k <= parts.len(),
        gathered(parts.take(k)) is Err,
    ensures
        gathered(parts) == gathered(parts.take(k)),
    decreases parts.len() - k,
{
    if k == parts.len() {
        assert(parts.take(k) =~= parts);
    } else {
        assert(parts.take(k + 1).drop_last() =~= parts.take(k));
        lemma_obstacle_stays(parts, k + 1);
    }
}

/// The order of texts: by the first character in which they differ.
pub open spec fn text_le(a: Seq<char>, b: Seq<char>) -> bool
    decreases a.len(),
{
    if a.len() == 0 {
        true
    } else if b.len() == 0 {
        false
    } else if a[0] != b[0] {
        a[0] < b[0]
    } else {
        text_le(a.skip(1), b.skip(1))
    }
}

proof fn lemma_text_le_total(a: Seq<char>, b: Seq<char>)
    ensures
        text_le(a, b) || text_le(b, a),
        text_le(a, a),
    decreases a.len(),
{
    if a.len() > 0 {
        lemma_text_le_total(a.skip(1), b.skip(1));
    }
}

proof fn lemma_text_le_transitive(a: Seq<char>, b: Seq<char>, c: Seq<char>)
    requires
        text_le(a, b),
        text_le(b, c),
    ensures
        text_le(a, c),
    decreases a.len(),
{
    if a.len() > 0 && b.len() > 0 && c.len() > 0 && a[0] == b[0] && b[0] == c[0] {
        lemma_text_le_transitive(a.skip(1), b.skip(1), c.skip(1));
    }
}

fn not_after(a: &str, b: &str) -> (r: bool)
    ensures
        r == text_le(a@, b@),
{
    let x = chars_of(a);
    let y = chars_of(b);
    let n: usize = x.len();
    let m: usize = y.len();
    let mut i: usize = 0;
    assert(a@.skip(0) =~= a@);
    assert(b@.skip(0) =~= b@);
    while i < n && i < m
        invariant
            x@ == a@,
            y@ == b@,
            n == x@.len(),
            m == y@.len(),
            i <= n,
            i <= m,
            text_le(a@, b@) == text_le(a@.skip(i as int), b@.skip(i as int)),
        decreases n - i,
    {
        if x[i] != y[i] {
            return x[i] < y[i];
        }
        assert(a@.skip(i as int).skip(1) =~= a@.skip(i + 1));
        assert(b@.skip(i as int).skip(1) =~= b@.skip(i + 1));
        i += 1;
    }
    i >= n
}

/// Puts `i` into `order` behind everything whose name does not come after its own.
pub open spec fn placed(order: Seq<int>, names: Seq<Seq<char>>, i: int) -> Seq<int>
    decreases order.len(),
{
    if order.len() == 0 || text_le(names[order.last()], names[i]) {
        order.push(i)
    } else {
        placed(order.drop_last(), names, i).push(order.last())
    }
}

/// The first `n` of several names in their order; those that are the same stay in the
/// order in which they are given.
pub open spec fn order_up_to(names: Seq<Seq<char>>, n: nat) -> Seq<int>
    decreases n,
{
    if n == 0 {
        Seq::empty()
    } else {
        placed(order_up_to(names, (n - 1) as nat), names, n - 1)
    }
}

/// Names in their order.
pub open spec fn name_order(names: Seq<Seq<char>>) -> Seq<int> {
    order_up_to(names, names.len())
}

/// Whether `order` goes up by name, and by position where names are the same.
pub open spec fn goes_up(order: Seq<int>, names: Seq<Seq<char>>) -> bool {
    forall|a: int, b: int|
        0 <= a < b < order.len() ==> {
            let i = #[trigger] order[a];
            let j = #[trigger] order[b];
            text_le(names[i], names[j]) && (names[i] == names[j] ==> i < j)
        }
}

/// Whether `order` holds every number below `n` once.
pub open spec fn each_once(order: Seq<int>, n: int) -> bool {
    &&& order.len() == n
    &&& order.no_duplicates()
    &&& forall|a: int| 0 <= a < order.len() ==> 0 <= #[trigger] order[a] < n
    &&& forall|i: int| 0 <= i < n ==> #[trigger] order.contains(i)
}

proof fn lemma_text_le_antisymmetric(a: Seq<char>, b: Seq<char>)
    requires
        text_le(a, b),
        text_le(b, a),
    ensures
        a == b,
    decreases a.len(),
{
    if a.len() > 0 && b.len() > 0 {
        lemma_text_le_antisymmetric(a.skip(1), b.skip(1));
        assert(a =~= seq![a[0]] + a.skip(1));
        assert(b =~= seq![b[0]] + b.skip(1));
    } else {
        assert(a =~= b);
    }
}

/// Where `i` is put.
proof fn lemma_placed(order: Seq<int>, names: Seq<Seq<char>>, i: int, p: int)
    requires
        0 <= p <= order.len(),
        forall|a: int| p <= a < order.len() ==> !text_le(names[#[trigger] order[a]], names[i]),
        p > 0 ==> text_le(names[order[p - 1]], names[i]),
    ensures
        placed(order, names, i) == order.insert(p, i),
    decreases order.len(),
{
    if p == order.len() {
        assert(order.insert(p, i) =~= order.push(i));
    } else {
        assert(order.last() == order[order.len() - 1]);
        lemma_placed(order.drop_last(), names, i, p);
        assert(order.drop_last().insert(p, i).push(order.last()) =~= order.insert(p, i));
    }
}

/// The place of `i` in an order that goes up.
proof fn lemma_place_exists(order: Seq<int>, names: Seq<Seq<char>>, i: int) -> (p: int)
    ensures
        0 <= p <= order.len(),
        forall|a: int| p <= a < order.len() ==> !text_le(names[#[trigger] order[a]], names[i]),
        p > 0 ==> text_le(names[order[p - 1]], names[i]),
    decreases order.len(),
{
    if order.len() == 0 || text_le(names[order.last()], names[i]) {
        order.len() as int
    } else {
        let before = order.drop_last();
        let p = lemma_place_exists(before, names, i);
        assert forall|a: int| p <= a < order.len() implies !text_le(
            names[#[trigger] order[a]],
            names[i],
        ) by {
            if a < order.len() - 1 {
                assert(before[a] == order[a]);
            }
        }
        p
    }
}

proof fn lemma_order_up_to(names: Seq<Seq<char>>, n: nat)
    requires
        n <= names.len(),
    ensures
        each_once(order_up_to(names, n), n as int),
        goes_up(order_up_to(names, n), names),
    decreases n,
{
    if n > 0 {
        let m = (n - 1) as nat;
        lemma_order_up_to(names, m);
        let before = order_up_to(names, m);
        let i = n - 1;
        let p = lemma_place_exists(before, names, i);
        lemma_placed(before, names, i, p);
        let order = order_up_to(names, n);
        assert(order == before.insert(p, i));
        assert forall|k: int| 0 <= k < n implies #[trigger] order.contains(k) by {
            if k == i {
                assert(order[p] == i);
            } else {
                assert(before.contains(k));
                let a = before.index_of(k);
                if a < p {
                    assert(order[a] == k);
                } else {
                    assert(order[a + 1] == k);
                }
            }
        }
        assert forall|a: int, b: int| 0 <= a < b < order.len() implies ({
            let x = #[trigger] order[a];
            let y = #[trigger] order[b];
            x != y && text_le(names[x], names[y]) && (names[x] == names[y] ==> x < y)
        }) by {
            let x = order[a];
            let y = order[b];
            if b == p {
                assert(x == before[a]);
                if a < p - 1 {
                    assert(text_le(names[before[a]], names[before[p - 1]]));
                    lemma_text_le_transitive(names[x], names[before[p - 1]], names[i]);
                }
            } else if a == p {
                assert(y == before[b - 1]);
                lemma_text_le_total(names[i], names[y]);
                lemma_text_le_total(names[y], names[y]);
            } else {
                let a0 = if a < p { a } else { a - 1 };
                let b0 = if b < p { b } else { b - 1 };
                assert(x == before[a0] && y == before[b0]);
            }
        }
        assert forall|a: int, b: int|
            0 <= a < order.len() && 0 <= b < order.len() && a != b implies order[a] != order[b] by {
            if a < b {
                assert(order[a] != order[b]);
            } else {
                assert(order[b] != order[a]);
            }
        }
    }
}

proof fn lemma_name_order(names: Seq<Seq<char>>)
    ensures
        each_once(name_order(names), names.len() as int),
        goes_up(name_order(names), names),
{
    lemma_order_up_to(names, names.len());
}

/// The entries of a folder are sent in the order of their names: each of them once,
/// and no name comes after a later one.
pub proof fn law_siblings_come_by_name(names: Seq<Seq<char>>, a: int, b: int)
    requires
        0 <= a < b < names.len(),
    ensures
        each_once(name_order(names), names.len() as int),
        text_le(names[name_order(names)[a]], names[name_order(names)[b]]),
        names[name_order(names)[a]] != names[name_order(names)[b]] ==> !text_le(
            names[name_order(names)[b]],
            names[name_order(names)[a]],
        ),
{
    lemma_name_order(names);
    let x = name_order(names)[a];
    let y = name_order(names)[b];
    if text_le(names[y], names[x]) {
        lemma_text_le_antisymmetric(names[x], names[y]);
    }
}

spec fn as_ints(v: Seq<usize>) -> Seq<int> {
    v.map_values(|i: usize| i as int)
}

/// Finds the place of the entry `i` among those before it, which are in order.
fn find_place(entries: &Vec<SourceEntry>, order: &Vec<usize>, i: usize) -> (p: usize)
    requires
        i < entries@.len(),
        forall|k: int| 0 <= k < order@.len() ==> (#[trigger] order@[k]) < entries@.len(),
        goes_up(as_ints(order@), names_of(entries@)),
    ensures
        p <= order@.len(),
        placed(as_ints(order@), names_of(entries@), i as int) == as_ints(order@).insert(
            p as int,
            i as int,
        ),
{
    let mut low: usize = 0;
    let mut high: usize = order.len();
    let ghost names = names_of(entries@);
    let ghost o = as_ints(order@);
    while low < high
        invariant
            low <= high <= order@.len(),
            i < entries@.len(),
            forall|k: int| 0 <= k < order@.len() ==> (#[trigger] order@[k]) < entries@.len(),
            o == as_ints(order@),
            names == names_of(entries@),
            goes_up(o, names),
            low > 0 ==> text_le(names[o[low - 1]], names[i as int]),
            forall|a: int|
                high <= a < o.len() ==> !text_le(names[#[trigger] o[a]], names[i as int]),
        decreases high - low,
    {
        let mid: usize = low + (high - low) / 2;
        let at: usize = order[mid];
        assert(o[mid as int] == at);
        if not_after(entries[at].name.as_str(), entries[i].name.as_str()) {
            low = mid + 1;
        } else {
            proof {
                assert forall|a: int| mid <= a < o.len() implies !text_le(
                    names[#[trigger] o[a]],
                    names[i as int],
                ) by {
                    if a > mid && text_le(names[o[a]], names[i as int]) {
                        assert(text_le(names[o[mid as int]], names[o[a]]));
                        lemma_text_le_transitive(names[at as int], names[o[a]], names[i as int]);
                    }
                }
            }
            high = mid;
        }
    }
    proof {
        lemma_placed(o, names, i as int, low as int);
    }
    low
}

/// Works out in which order the entries of a folder are sent.
fn order_by_name(entries: &Vec<SourceEntry>) -> (order: Vec<usize>)
    ensures
        as_ints(order@) == name_order(names_of(entries@)),
        order@.len() == entries@.len(),
        forall|k: int| 0 <= k < order@.len() ==> (#[trigger] order@[k]) < entries@.len(),
        forall|k: int|
            0 <= k < order@.len() ==> (#[trigger] order@[k]) as int == name_order(
                names_of(entries@),
            )[k],
{
    let n: usize = entries.len();
    let ghost names = names_of(entries@);
    let mut order: Vec<usize> = Vec::new();
    let mut i: usize = 0;
    assert(as_ints(order@) =~= order_up_to(names, 0));
    while i < n
        invariant
            n == entries@.len(),
            i <= n,
            names == names_of(entries@),
            as_ints(order@) == order_up_to(names, i as nat),
        decreases n - i,
    {
        let ghost before = as_ints(order@);
        proof {
            lemma_order_up_to(names, i as nat);
            assert forall|k: int| 0 <= k < order@.len() implies (#[trigger] order@[k])
                < entries@.len() by {
                assert(before[k] == order@[k]);
            }
        }
        let p: usize = find_place(entries, &order, i);
        order.insert(p, i);
        i += 1;
        assert(as_ints(order@) =~= before.insert(p as int, i - 1));
    }
    proof {
        lemma_order_up_to(names, n as nat);
        assert forall|k: int| 0 <= k < order@.len() implies (#[trigger] order@[k]) < entries@.len()
            && order@[k] as int == name_order(names)[k] by {
            assert(as_ints(order@)[k] == order@[k]);
        }
    }
    order
}

/// Puts the chosen files and folders together to a batch.
pub fn build_plan(entries: &Vec<SourceEntry>) -> (r: Result<SendPlan, String>)
    requires
        plan_of(entries@) matches Ok(p) ==> total_size(p.contents.files) <= u64::MAX,
    ensures
        match plan_of(entries@) {
            Ok(p) => r matches Ok(plan) && plan.plan_view() == p && plan.total_bytes == total_size(
                p.contents.files,
            ),
            Err(reason) => r matches Err(text) && text@ == reason,
        },
{
    let n: usize = entries.len();
    let mut roots: Vec<TransferRoot> = Vec::new();
    let mut directories: Vec<String> = Vec::new();
    let mut files: Vec<SendFile> = Vec::new();
    let mut used: UsedNames = Table::new();
    let mut i: usize = 0;
    proof {
        assert(entries@.take(0) =~= Seq::<SourceEntry>::empty());
        assert(root_views(roots@) =~= Seq::<(Seq<char>, bool)>::empty());
        assert(texts(directories@) =~= Seq::<Seq<char>>::empty());
        assert(file_views(files@) =~= Seq::<FileView>::empty());
        assert(root_names(root_views(roots@)) =~= used@.dom());
    }
    while i < n
        invariant
            n == entries@.len(),
            i <= n,
            used.wf(),
            used@.dom() == root_names(root_views(roots@)),
            plan_of(entries@.take(i as int)) is Ok,
            ({
                let p = plan_of(entries@.take(i as int))->Ok_0;
                &&& root_views(roots@) == p.roots
                &&& texts(directories@) == p.contents.directories
                &&& file_views(files@) == p.contents.files
            }),
        decreases n - i,
    {
        let ghost before = plan_of(entries@.take(i as int))->Ok_0;
        let e: &SourceEntry = &entries[i];
        proof {
            let next = entries@.take(i + 1);
            assert(next.drop_last() =~= entries@.take(i as int));
            assert(next.last() == *e);
            if plan_of(next) is Err {
                lemma_plan_obstacle_stays(entries@, i + 1);
            }
        }
        match &e.kind {
            SourceKind::Unreadable(reason) => {
                return Err(reason.clone());
            },
            SourceKind::Symlink => {
                return Err(with_path("暂不传输符号链接: ", e.shown.as_str()));
            },
            _ => {},
        }
        if e.name.as_str().is_empty() {
            return Err(with_path("无效路径: ", e.shown.as_str()));
        }
        let root = unique_logical_name(e.name.as_str(), &mut used);
        let ghost dirs0 = texts(directories@);
        let ghost files0 = file_views(files@);
        let is_dir: bool = match &e.kind {
            SourceKind::Directory(children) => {
                directories.push(root.clone());
                assert(texts(directories@) =~= dirs0 + seq![root@]);
                match walk_directory(children, root.as_str(), &mut directories, &mut files) {
                    Ok(()) => {},
                    Err(reason) => {
                        return Err(reason);
                    },
                }
                proof {
                    let inside = walk_entries(children@, root@)->Ok_0;
                    assert(dirs0 + seq![root@] + inside.directories =~= dirs0 + (seq![root@]
                        + inside.directories));
                    assert(files0 + inside.files =~= files0 + (Seq::<FileView>::empty()
                        + inside.files));
                }
                true
            },
            SourceKind::Unlistable(reason) => {
                return Err(reason.clone());
            },
            SourceKind::File(size) => {
                files.push(
                    SendFile {
                        handle: e.handle,
                        shown: e.shown.clone(),
                        relative: root.clone(),
                        size: *size,
                    },
                );
                proof {
                    let w = plan_root(*e, root@)->Ok_0;
                    assert(file_views(files@) =~= files0 + w.files);
                    assert(texts(directories@) =~= dirs0 + w.directories);
                }
                false
            },
            _ => {
                return Err("只支持普通文件和文件夹".to_owned());
            },
        };
        roots.push(TransferRoot { name: root, is_dir });
        proof {
            assert(root_views(roots@) =~= before.roots.push((root@, e.kind is Directory)));
            lemma_root_names_push(before.roots, (root@, e.kind is Directory));
            assert(used@.dom() =~= root_names(root_views(roots@)));
        }
        i += 1;
    }
    assert(entries@.take(n as int) =~= entries@);
    let total_bytes: u64 = sum_sizes(&files);
    Ok(SendPlan { roots, directories, files, total_bytes })
}

proof fn lemma_root_names_push(roots: Seq<(Seq<char>, bool)>, r: (Seq<char>, bool))
    ensures
        root_names(roots.push(r)) == root_names(roots).insert(r.0),
{
    let name = |r: (Seq<char>, bool)| r.0;
    assert(roots.push(r).map_values(name) =~= roots.map_values(name).push(r.0));
    let names = roots.map_values(name);
    assert forall|x: Seq<char>| #[trigger]
        names.push(r.0).to_set().contains(x) == names.to_set().insert(r.0).contains(x) by {
        if names.contains(x) {
            let k = choose|k: int| 0 <= k < names.len() && names[k] == x;
            assert(names.push(r.0)[k] == x);
        }
        assert(names.push(r.0)[names.len() as int] == r.0);
        if names.push(r.0).contains(x) && x != r.0 {
            let k = choose|k: int| 0 <= k < names.push(r.0).len() && names.push(r.0)[k] == x;
            assert(names[k] == x);
        }
    }
    assert(names.push(r.0).to_set() =~= names.to_set().insert(r.0));
}

proof fn lemma_plan_obstacle_stays(es: Seq<SourceEntry>, k: int)
    requires
        0 <= k <= es.len(),
        plan_of(es.take(k)) is Err,
    ensures
        plan_of(es) == plan_of(es.take(k)),
    decreases es.len() - k,
{
    if k == es.len() {
        assert(es.take(k) =~= es);
    } else {
        assert(es.take(k + 1).drop_last() =~= es.take(k));
        lemma_plan_obstacle_stays(es, k + 1);
    }
}

fn sum_sizes(files: &Vec<SendFile>) -> (total: u64)
    requires
        total_size(file_views(files@)) <= u64::MAX,
    ensures
        total == total_size(file_views(files@)),
{
    let n: usize = files.len();
    let mut total: u64 = 0;
    let mut i: usize = 0;
    let ghost views = file_views(files@);
    assert(views.take(0) =~= Seq::<FileView>::empty());
    while i < n
        invariant
            n == files@.len(),
            i <= n,
            views == file_views(files@),
            total == total_size(views.take(i as int)),
            total_size(views) <= u64::MAX,
        decreases n - i,
    {
        proof {
            assert(views.take(i + 1).drop_last() =~= views.take(i as int));
            lemma_total_size_grows(views, i + 1);
        }
        total = total + files[i].size;
        i += 1;
    }
    assert(views.take(n as int) =~= views);
    total
}

proof fn lemma_total_size_grows(files: Seq<FileView>, k: int)
    requires
        0 <= k <= files.len(),
    ensures
        total_size(files.take(k)) <= total_size(files),
    decreases files.len() - k,
{
    if k == files.len() {
        assert(files.take(k) =~= files);
    } else {
        assert(files.take(k + 1).drop_last() =~= files.take(k));
        lemma_total_size_grows(files, k + 1);
    }
}

/// Why one of the chosen files and folders cannot become a root.
pub open spec fn top_obstacle(t: TopEntry) -> Option<Seq<char>> {
    match t.kind {
        TopKind::Unreadable(reason) => Some(reason@),
        TopKind::Symlink => Some("暂不传输符号链接: "@ + t.shown@),
        _ => if t.name@.len() == 0 {
            Some("无效路径: "@ + t.shown@)
        } else if t.kind is Other {
            Some("只支持普通文件和文件夹"@)
        } else {
            None
        },
    }
}

/// The roots of the batch for the chosen files and folders, or the reason why there
/// are none. What is below a folder is not looked at.
pub open spec fn roots_of(ts: Seq<TopEntry>) -> Result<Seq<(Seq<char>, bool)>, Seq<char>>
    decreases ts.len(),
{
    if ts.len() == 0 {
        Ok(Seq::empty())
    } else {
        match roots_of(ts.drop_last()) {
            Err(reason) => Err(reason),
            Ok(before) => match top_obstacle(ts.last()) {
                Some(reason) => Err(reason),
                None => Ok(
                    before.push(
                        (
                            free_name(ts.last().name@, root_names(before)),
                            ts.last().kind is Directory,
                        ),
                    ),
                ),
            },
        }
    }
}

proof fn lemma_roots_obstacle_stays(ts: Seq<TopEntry>, k: int)
    requires
        0 <= k <= ts.len(),
        roots_of(ts.take(k)) is Err,
    ensures
        roots_of(ts) == roots_of(ts.take(k)),
    decreases ts.len() - k,
{
    if k == ts.len() {
        assert(ts.take(k) =~= ts);
    } else {
        assert(ts.take(k + 1).drop_last() =~= ts.take(k));
        lemma_roots_obstacle_stays(ts, k + 1);
    }
}

/// Works out the roots of a batch from the chosen files and folders alone, so that a
/// drag can be announced before any folder was read.
pub fn build_roots(entries: &Vec<TopEntry>) -> (r: Result<Vec<TransferRoot>, String>)
    ensures
        match roots_of(entries@) {
            Ok(roots) => r matches Ok(v) && root_views(v@) == roots,
            Err(reason) => r matches Err(text) && text@ == reason,
        },
{
    let n: usize = entries.len();
    let mut roots: Vec<TransferRoot> = Vec::new();
    let mut used: UsedNames = Table::new();
    let mut i: usize = 0;
    proof {
        assert(entries@.take(0) =~= Seq::<TopEntry>::empty());
        assert(root_views(roots@) =~= Seq::<(Seq<char>, bool)>::empty());
        assert(root_names(root_views(roots@)) =~= used@.dom());
    }
    while i < n
        invariant
            n == entries@.len(),
            i <= n,
            used.wf(),
            used@.dom() == root_names(root_views(roots@)),
            roots_of(entries@.take(i as int)) == Ok::<Seq<(Seq<char>, bool)>, Seq<char>>(
                root_views(roots@),
            ),
        decreases n - i,
    {
        let ghost before = root_views(roots@);
        let t: &TopEntry = &entries[i];
        proof {
            let next = entries@.take(i + 1);
            assert(next.drop_last() =~= entries@.take(i as int));
            assert(next.last() == *t);
            if roots_of(next) is Err {
                lemma_roots_obstacle_stays(entries@, i + 1);
            }
        }
        match &t.kind {
            TopKind::Unreadable(reason) => {
                return Err(reason.clone());
            },
            TopKind::Symlink => {
                return Err(with_path("暂不传输符号链接: ", t.shown.as_str()));
            },
            _ => {},
        }
        if t.name.as_str().is_empty() {
            return Err(with_path("无效路径: ", t.shown.as_str()));
        }
        let is_dir: bool = match &t.kind {
            TopKind::Directory => true,
            TopKind::File => false,
            _ => {
                return Err("只支持普通文件和文件夹".to_owned());
            },
        };
        let name = unique_logical_name(t.name.as_str(), &mut used);
        roots.push(TransferRoot { name, is_dir });
        proof {
            let r = roots@.last();
            assert(root_views(roots@) =~= before.push((r.name@, is_dir)));
            lemma_root_names_push(before, (r.name@, is_dir));
            assert(used@.dom() =~= root_names(root_views(roots@)));
        }
        i += 1;
    }
    assert(entries@.take(n as int) =~= entries@);
    Ok(roots)
}

/// Whether `t` is what is seen of `e` without looking below it.
pub open spec fn is_top_of(t: TopEntry, e: SourceEntry) -> bool {
    &&& t.shown@ == e.shown@
    &&& t.name@ == e.name@
    &&& match e.kind {
        SourceKind::Unreadable(reason) => t.kind matches TopKind::Unreadable(r) && r@ == reason@,
        SourceKind::Symlink => t.kind is Symlink,
        SourceKind::Directory(_) => t.kind is Directory,
        SourceKind::Unlistable(_) => t.kind is Directory,
        SourceKind::File(_) => t.kind is File,
        SourceKind::Other => t.kind is Other,
    }
}

/// A drag is announced with the roots that its batch will have: wherever the batch can
/// be planned, the chosen files and folders alone tell its roots, by name, kind and
/// order.
pub proof fn law_announced_roots_are_the_planned_ones(ts: Seq<TopEntry>, es: Seq<SourceEntry>)
    requires
        ts.len() == es.len(),
        forall|i: int| 0 <= i < es.len() ==> #[trigger] is_top_of(ts[i], es[i]),
        plan_of(es) is Ok,
    ensures
        roots_of(ts) == Ok::<Seq<(Seq<char>, bool)>, Seq<char>>(plan_of(es)->Ok_0.roots),
    decreases es.len(),
{
    if es.len() > 0 {
        let n = es.len() - 1;
        assert forall|i: int| 0 <= i < es.drop_last().len() implies #[trigger] is_top_of(
            ts.drop_last()[i],
            es.drop_last()[i],
        ) by {
            assert(is_top_of(ts[i], es[i]));
        }
        law_announced_roots_are_the_planned_ones(ts.drop_last(), es.drop_last());
        assert(is_top_of(ts[n], es[n]));
    }
}

/// Every chosen file or folder becomes one root, and no two roots have the same
/// name.
pub proof fn law_roots_are_told_apart(es: Seq<SourceEntry>)
    requires
        plan_of(es) is Ok,
    ensures
        plan_of(es)->Ok_0.roots.len() == es.len(),
        forall|i: int, j: int|
            0 <= i < j < es.len() ==> (#[trigger] plan_of(es)->Ok_0.roots[i]).0
                != (#[trigger] plan_of(es)->Ok_0.roots[j]).0,
        forall|i: int|
            0 <= i < es.len() ==> (#[trigger] plan_of(es)->Ok_0.roots[i]).1 == es[i].kind
                is Directory,
    decreases es.len(),
{
    if es.len() > 0 {
        law_roots_are_told_apart(es.drop_last());
        let before = plan_of(es.drop_last())->Ok_0;
        let names = before.roots.map_values(|r: (Seq<char>, bool)| r.0);
        vstd::seq_lib::seq_to_set_is_finite(names);
        law_free_name_is_free(es.last().name@, root_names(before.roots));
        assert forall|i: int| 0 <= i < before.roots.len() implies (#[trigger] before.roots[i]).0
            != free_name(es.last().name@, root_names(before.roots)) by {
            assert(names[i] == before.roots[i].0);
            assert(names.contains(before.roots[i].0));
        }
    }
}

/// Whether everything of `part` is in `whole`.
pub open spec fn within(part: WalkView, whole: WalkView) -> bool {
    &&& forall|d: Seq<char>| part.directories.contains(d) ==> whole.directories.contains(d)
    &&& forall|f: FileView| part.files.contains(f) ==> whole.files.contains(f)
}

proof fn lemma_plus_holds_both(a: WalkView, b: WalkView)
    ensures
        within(a, a.plus(b)),
        within(b, a.plus(b)),
{
    let w = a.plus(b);
    assert forall|d: Seq<char>| a.directories.contains(d) implies w.directories.contains(d) by {
        let k = a.directories.index_of(d);
        assert(w.directories[k] == d);
    }
    assert forall|d: Seq<char>| b.directories.contains(d) implies w.directories.contains(d) by {
        let k = b.directories.index_of(d);
        assert(w.directories[a.directories.len() + k] == d);
    }
    assert forall|f: FileView| a.files.contains(f) implies w.files.contains(f) by {
        let k = a.files.index_of(f);
        assert(w.files[k] == f);
    }
    assert forall|f: FileView| b.files.contains(f) implies w.files.contains(f) by {
        let k = b.files.index_of(f);
        assert(w.files[a.files.len() + k] == f);
    }
}

/// A folder is sent with everything in it: the folder itself, even an empty one,
/// and whatever each of its entries adds.
pub proof fn law_folders_are_sent_whole(es: Seq<SourceEntry>, relative: Seq<char>, i: int)
    requires
        walk_entries(es, relative) is Ok,
        0 <= i < es.len(),
    ensures
        walk_entry(es[i], relative) is Ok,
        within(walk_entry(es[i], relative)->Ok_0, walk_entries(es, relative)->Ok_0),
        es[i].kind is Directory ==> walk_entries(es, relative)->Ok_0.directories.contains(
            child_path(relative, es[i].name@),
        ),
        es[i].kind matches SourceKind::File(size) ==> walk_entries(
            es,
            relative,
        )->Ok_0.files.contains(
            FileView {
                handle: es[i].handle,
                shown: es[i].shown@,
                relative: child_path(relative, es[i].name@),
                size,
            },
        ),
{
    let names = names_of(es);
    let parts = picked(walk_each(es, relative), name_order(names));
    lemma_walk_each(es, relative);
    lemma_name_order(names);
    assert(name_order(names).contains(i));
    let k = name_order(names).index_of(i);
    assert(parts[k] == walk_entry(es[i], relative));
    lemma_gathered_holds(parts, k);
    let w = walk_entry(es[i], relative)->Ok_0;
    if es[i].kind is Directory {
        assert(w.directories[0] == child_path(relative, es[i].name@));
    }
    if let SourceKind::File(size) = es[i].kind {
        assert(w.files[0].relative == child_path(relative, es[i].name@));
    }
}

proof fn lemma_gathered_holds(parts: Seq<Result<WalkView, Seq<char>>>, k: int)
    requires
        0 <= k < parts.len(),
        gathered(parts) is Ok,
    ensures
        parts[k] is Ok,
        within(parts[k]->Ok_0, gathered(parts)->Ok_0),
    decreases parts.len(),
{
    lemma_plus_holds_both(gathered(parts.drop_last())->Ok_0, parts.last()->Ok_0);
    if k < parts.len() - 1 {
        lemma_gathered_holds(parts.drop_last(), k);
    }
}

/// The bytes in the files of an entry and of everything below it; links are not
/// followed.
pub open spec fn bytes_in(e: SourceEntry) -> nat
    decreases e,
{
    match e.kind {
        SourceKind::Directory(children) => bytes_in_all(children@),
        SourceKind::File(size) => size as nat,
        _ => 0,
    }
}

pub open spec fn bytes_in_all(es: Seq<SourceEntry>) -> nat
    decreases es,
{
    if es.len() == 0 {
        0
    } else {
        bytes_in_all(es.subrange(0, es.len() - 1)) + bytes_in(es[es.len() - 1])
    }
}

proof fn lemma_total_size_plus(a: Seq<FileView>, b: Seq<FileView>)
    ensures
        total_size(a + b) == total_size(a) + total_size(b),
    decreases b.len(),
{
    if b.len() == 0 {
        assert(a + b =~= a);
    } else {
        assert((a + b).drop_last() =~= a + b.drop_last());
        lemma_total_size_plus(a, b.drop_last());
    }
}

proof fn lemma_entry_bytes(e: SourceEntry, relative: Seq<char>)
    requires
        walk_entry(e, relative) is Ok,
    ensures
        total_size(walk_entry(e, relative)->Ok_0.files) == bytes_in(e),
    decreases e,
{
    let path = child_path(relative, e.name@);
    match e.kind {
        SourceKind::Directory(children) => {
            lemma_entries_bytes(children@, path);
            let inside = walk_entries(children@, path)->Ok_0;
            assert(Seq::<FileView>::empty() + inside.files =~= inside.files);
        },
        SourceKind::File(size) => {
            let files = walk_entry(e, relative)->Ok_0.files;
            assert(files.drop_last() =~= Seq::<FileView>::empty());
            assert(total_size(Seq::<FileView>::empty()) == 0);
        },
        _ => {},
    }
}

/// The sum of the numbers that `order` tells.
spec fn sum_at(order: Seq<int>, sizes: Seq<nat>) -> nat
    decreases order.len(),
{
    if order.len() == 0 {
        0
    } else {
        sum_at(order.drop_last(), sizes) + sizes[order.last()]
    }
}

proof fn lemma_gathered_bytes(
    each: Seq<Result<WalkView, Seq<char>>>,
    order: Seq<int>,
    sizes: Seq<nat>,
)
    requires
        gathered(picked(each, order)) is Ok,
        forall|a: int|
            0 <= a < order.len() && each[#[trigger] order[a]] is Ok ==> total_size(
                each[order[a]]->Ok_0.files,
            ) == sizes[order[a]],
    ensures
        total_size(gathered(picked(each, order))->Ok_0.files) == sum_at(order, sizes),
    decreases order.len(),
{
    let parts = picked(each, order);
    if order.len() > 0 {
        let before = order.drop_last();
        assert(parts.drop_last() =~= picked(each, before));
        assert forall|a: int| 0 <= a < before.len() && each[#[trigger] before[a]] is Ok implies
            total_size(each[before[a]]->Ok_0.files) == sizes[before[a]] by {
            assert(before[a] == order[a]);
        }
        lemma_gathered_bytes(each, before, sizes);
        assert(parts.last() == each[order.last()]);
        assert(order.last() == order[order.len() - 1]);
        lemma_total_size_plus(
            gathered(parts.drop_last())->Ok_0.files,
            parts.last()->Ok_0.files,
        );
    }
}

proof fn lemma_placed_sum(order: Seq<int>, names: Seq<Seq<char>>, i: int, sizes: Seq<nat>)
    ensures
        sum_at(placed(order, names, i), sizes) == sum_at(order, sizes) + sizes[i],
    decreases order.len(),
{
    let after = placed(order, names, i);
    if order.len() == 0 || text_le(names[order.last()], names[i]) {
        assert(after.drop_last() =~= order);
    } else {
        lemma_placed_sum(order.drop_last(), names, i, sizes);
        assert(after.drop_last() =~= placed(order.drop_last(), names, i));
    }
}

proof fn lemma_ordered_sum(es: Seq<SourceEntry>, sizes: Seq<nat>, n: nat)
    requires
        n <= es.len(),
        forall|i: int| 0 <= i < es.len() ==> #[trigger] sizes[i] == bytes_in(es[i]),
    ensures
        sum_at(order_up_to(names_of(es), n), sizes) == bytes_in_all(es.take(n as int)),
    decreases n,
{
    if n > 0 {
        let m = (n - 1) as nat;
        lemma_ordered_sum(es, sizes, m);
        lemma_placed_sum(order_up_to(names_of(es), m), names_of(es), m as int, sizes);
        let first = es.take(n as int);
        assert(first.subrange(0, first.len() - 1) =~= es.take(m as int));
        assert(first[first.len() - 1] == es[m as int]);
        assert(sizes[m as int] == bytes_in(es[m as int]));
    }
}

proof fn lemma_entries_bytes(es: Seq<SourceEntry>, relative: Seq<char>)
    requires
        walk_entries(es, relative) is Ok,
    ensures
        total_size(walk_entries(es, relative)->Ok_0.files) == bytes_in_all(es),
    decreases es,
{
    let each = walk_each(es, relative);
    let order = name_order(names_of(es));
    let sizes = Seq::new(es.len(), |i: int| bytes_in(es[i]));
    lemma_walk_each(es, relative);
    lemma_name_order(names_of(es));
    assert forall|a: int| 0 <= a < order.len() && each[#[trigger] order[a]] is Ok implies
        total_size(each[order[a]]->Ok_0.files) == sizes[order[a]] by {
        lemma_entry_bytes(es[order[a]], relative);
    }
    lemma_gathered_bytes(each, order, sizes);
    lemma_ordered_sum(es, sizes, es.len());
    assert(es.take(es.len() as int) =~= es);
}

/// A batch announces as many bytes as the chosen files and folders hold.
pub proof fn law_batch_size_is_the_size_on_disk(es: Seq<SourceEntry>)
    requires
        plan_of(es) is Ok,
    ensures
        total_size(plan_of(es)->Ok_0.contents.files) == bytes_in_all(es),
    decreases es.len(),
{
    if es.len() > 0 {
        assert(es.drop_last() =~= es.subrange(0, es.len() - 1));
        law_batch_size_is_the_size_on_disk(es.drop_last());
        let before = plan_of(es.drop_last())->Ok_0;
        let e = es.last();
        let root = free_name(e.name@, root_names(before.roots));
        let w = plan_root(e, root)->Ok_0;
        match e.kind {
            SourceKind::Directory(children) => {
                lemma_entries_bytes(children@, root);
                let inside = walk_entries(children@, root)->Ok_0;
                assert(Seq::<FileView>::empty() + inside.files =~= inside.files);
            },
            SourceKind::File(size) => {
                assert(w.files.drop_last() =~= Seq::<FileView>::empty());
                assert(total_size(Seq::<FileView>::empty()) == 0);
            },
            _ => {},
        }
        assert(total_size(w.files) == bytes_in(e));
        lemma_total_size_plus(before.contents.files, w.files);
    }
}

/// What one entry of a folder adds: a file itself, at its name below the folder, with its
/// own contents and size; a folder itself first and then what is in it; links and special
/// files nothing. What cannot be read stops the batch, with the reason.
pub proof fn law_what_an_entry_adds(e: SourceEntry, relative: Seq<char>)
    ensures
        e.kind matches SourceKind::File(size) ==> walk_entry(e, relative) matches Ok(w)
            && w.directories.len() == 0 && w.files == seq![
            FileView {
                handle: e.handle,
                shown: e.shown@,
                relative: relative.push('/') + e.name@,
                size,
            },
        ],
        e.kind matches SourceKind::Directory(children) ==> match walk_entries(
            children@,
            relative.push('/') + e.name@,
        ) {
            Ok(inside) => walk_entry(e, relative) matches Ok(w) && w.directories == seq![
                relative.push('/') + e.name@,
            ] + inside.directories && w.files == inside.files,
            Err(reason) => walk_entry(e, relative) matches Err(r) && r == reason,
        },
        e.kind is Symlink || e.kind is Other ==> (walk_entry(e, relative) matches Ok(w)
            && w.directories.len() == 0 && w.files.len() == 0),
        e.kind matches SourceKind::Unreadable(reason) ==> walk_entry(e, relative) matches Err(r)
            && r == reason@,
        e.kind matches SourceKind::Unlistable(reason) ==> walk_entry(e, relative) matches Err(r)
            && r == reason@,
{
    assert(child_path(relative, e.name@) =~= relative.push('/') + e.name@);
    if let SourceKind::Directory(children) = e.kind {
        if let Ok(inside) = walk_entries(children@, child_path(relative, e.name@)) {
            assert(Seq::<FileView>::empty() + inside.files =~= inside.files);
        }
    }
}

/// What the entries of a folder add stands one behind the other, in the order of their
/// names, and the first that cannot be read decides.
pub proof fn law_entries_are_added_in_order(
    parts: Seq<Result<WalkView, Seq<char>>>,
    last: Result<WalkView, Seq<char>>,
)
    ensures
        gathered(Seq::empty()) matches Ok(w) && w.directories.len() == 0 && w.files.len() == 0,
        gathered(parts) matches Err(reason) ==> gathered(parts.push(last)) matches Err(r) && r
            == reason,
        gathered(parts) is Ok && last is Err ==> gathered(parts.push(last)) == last,
        gathered(parts) is Ok && last is Ok ==> {
            &&& gathered(parts.push(last)) is Ok
            &&& gathered(parts.push(last))->Ok_0.directories == gathered(parts)->Ok_0.directories
                + last->Ok_0.directories
            &&& gathered(parts.push(last))->Ok_0.files == gathered(parts)->Ok_0.files
                + last->Ok_0.files
        },
{
    assert(parts.push(last).drop_last() =~= parts);
}

/// The entries of a folder are added one by one: the folder holds what they add in the
/// order of their names, and names that are the same stay in the order given.
pub proof fn law_folder_is_the_sum_of_its_entries(es: Seq<SourceEntry>, relative: Seq<char>)
    ensures
        exists|order: Seq<int>, parts: Seq<Result<WalkView, Seq<char>>>|
            {
                &&& #[trigger] order.no_duplicates()
                &&& order.len() == es.len()
                &&& parts.len() == es.len()
                &&& forall|i: int| 0 <= i < es.len() ==> #[trigger] order.contains(i)
                &&& forall|a: int, b: int|
                    0 <= a < b < order.len() ==> text_le(
                        es[#[trigger] order[a]].name@,
                        es[#[trigger] order[b]].name@,
                    ) && (es[order[a]].name@ == es[order[b]].name@ ==> order[a] < order[b])
                &&& forall|a: int|
                    0 <= a < order.len() ==> #[trigger] parts[a] == walk_entry(
                        es[order[a]],
                        relative,
                    )
                &&& walk_entries(es, relative) == #[trigger] gathered(parts)
            },
{
    let names = names_of(es);
    let order = name_order(names);
    lemma_name_order(names);
    lemma_walk_each(es, relative);
    let parts = picked(walk_each(es, relative), order);
    assert forall|a: int, b: int| 0 <= a < b < order.len() implies text_le(
        es[#[trigger] order[a]].name@,
        es[#[trigger] order[b]].name@,
    ) && (es[order[a]].name@ == es[order[b]].name@ ==> order[a] < order[b]) by {
        assert(names[order[a]] == es[order[a]].name@);
        assert(names[order[b]] == es[order[b]].name@);
    }
    assert(order.no_duplicates());
    assert(walk_entries(es, relative) == gathered(parts));
}

/// A text comes before another where it is the beginning of it, or has the lower
/// character at the first place where they differ.
pub proof fn law_order_of_texts(a: Seq<char>, b: Seq<char>, i: int)
    requires
        0 <= i <= a.len(),
        i <= b.len(),
        a.take(i) == b.take(i),
        i < a.len() && i < b.len() ==> a[i] != b[i],
    ensures
        text_le(a, b) == (i == a.len() || (i < b.len() && a[i] < b[i])),
    decreases i,
{
    if i > 0 {
        let x = a.skip(1);
        let y = b.skip(1);
        assert(a[0] == a.take(i)[0]);
        assert(b[0] == b.take(i)[0]);
        assert(x.take(i - 1) =~= a.take(i).skip(1));
        assert(y.take(i - 1) =~= b.take(i).skip(1));
        if i < a.len() && i < b.len() {
            assert(x[i - 1] == a[i]);
            assert(y[i - 1] == b[i]);
        }
        law_order_of_texts(x, y, i - 1);
        assert(text_le(a, b) == text_le(x, y));
    }
}

/// Each of the chosen files and folders adds one root. The root has the name of what was
/// chosen, or that name with a number; it is a folder where that is one. A file is sent at
/// the name of its root; a folder is the first of the new folders, and what is in it lies
/// below it. Everything else of the batch stays.
pub proof fn law_what_a_chosen_entry_adds(es: Seq<SourceEntry>, e: SourceEntry)
    requires
        plan_of(es.push(e)) is Ok,
    ensures
        plan_of(es) is Ok,
        ({
            let old = plan_of(es)->Ok_0;
            let new = plan_of(es.push(e))->Ok_0;
            let root = new.roots.last();
            &&& new.roots.len() == old.roots.len() + 1
            &&& new.roots.drop_last() == old.roots
            &&& root.1 == (e.kind is Directory)
            &&& exists|i: nat| root.0 == #[trigger] candidate(e.name@, i)
            &&& (forall|r: int| 0 <= r < old.roots.len() ==> (#[trigger] old.roots[r]).0 != e.name@)
                ==> root.0 == e.name@
            &&& e.kind matches SourceKind::File(size) ==> {
                &&& new.contents.directories == old.contents.directories
                &&& new.contents.files == old.contents.files.push(
                    FileView { handle: e.handle, shown: e.shown@, relative: root.0, size },
                )
            }
            &&& e.kind matches SourceKind::Directory(children) ==> walk_entries(
                children@,
                root.0,
            ) matches Ok(inside) && new.contents.directories == old.contents.directories.push(
                root.0,
            ) + inside.directories && new.contents.files == old.contents.files + inside.files
            &&& e.kind is File || e.kind is Directory
        }),
{
    let all = es.push(e);
    assert(all.drop_last() =~= es);
    let old = plan_of(es)->Ok_0;
    let new = plan_of(all)->Ok_0;
    let used = root_names(old.roots);
    let names = old.roots.map_values(|r: (Seq<char>, bool)| r.0);
    vstd::seq_lib::seq_to_set_is_finite(names);
    law_free_name_is_free(e.name@, used);
    let root = free_name(e.name@, used);
    assert(new.roots.drop_last() =~= old.roots);
    if forall|r: int| 0 <= r < old.roots.len() ==> (#[trigger] old.roots[r]).0 != e.name@ {
        assert(!used.contains(e.name@)) by {
            if names.contains(e.name@) {
                let k = names.index_of(e.name@);
                assert(names[k] == old.roots[k].0);
            }
        }
        assert(candidate(e.name@, 0) == e.name@);
    }
    match e.kind {
        SourceKind::File(size) => {
            let f = FileView { handle: e.handle, shown: e.shown@, relative: root, size };
            assert(old.contents.files + seq![f] =~= old.contents.files.push(f));
            assert(old.contents.directories + Seq::<Seq<char>>::empty()
                =~= old.contents.directories);
        },
        SourceKind::Directory(children) => {
            let inside = walk_entries(children@, root)->Ok_0;
            assert(old.contents.directories + (seq![root] + inside.directories)
                =~= old.contents.directories.push(root) + inside.directories);
            assert(old.contents.files + (Seq::<FileView>::empty() + inside.files)
                =~= old.contents.files + inside.files);
        },
        _ => {},
    }
}

/// When a batch cannot be sent, and what is said: the first of the chosen files and
/// folders that stands in the way decides.
pub proof fn law_what_stops_a_batch(es: Seq<SourceEntry>, e: SourceEntry)
    ensures
        plan_of(Seq::empty()) is Ok,
        plan_of(es) is Err ==> plan_of(es.push(e)) == plan_of(es),
        plan_of(es) is Ok ==> {
            &&& e.kind matches SourceKind::Unreadable(reason) ==> plan_of(es.push(e)) matches Err(r)
                && r == reason@
            &&& e.kind is Symlink ==> (plan_of(es.push(e)) matches Err(r) && r
                == "暂不传输符号链接: "@ + e.shown@)
            &&& e.name@.len() == 0 && !(e.kind is Unreadable) && !(e.kind is Symlink) ==> (plan_of(
                es.push(e),
            ) matches Err(r) && r == "无效路径: "@ + e.shown@)
            &&& e.name@.len() > 0 ==> {
                &&& e.kind matches SourceKind::Unlistable(reason) ==> plan_of(
                    es.push(e),
                ) matches Err(r) && r == reason@
                &&& e.kind is Other ==> (plan_of(es.push(e)) matches Err(r) && r
                    == "只支持普通文件和文件夹"@)
                &&& e.kind is File ==> plan_of(es.push(e)) is Ok
            }
        },
{
    assert(es.push(e).drop_last() =~= es);
}

/// When no drag can be announced, and what is said; otherwise each of the chosen files
/// and folders adds one root, as it does to a batch.
pub proof fn law_what_stops_a_drag(ts: Seq<TopEntry>, t: TopEntry)
    ensures
        roots_of(ts) is Err ==> roots_of(ts.push(t)) == roots_of(ts),
        roots_of(ts) matches Ok(before) ==> {
            &&& t.kind matches TopKind::Unreadable(reason) ==> roots_of(ts.push(t)) matches Err(r)
                && r == reason@
            &&& t.kind is Symlink ==> (roots_of(ts.push(t)) matches Err(r) && r
                == "暂不传输符号链接: "@ + t.shown@)
            &&& t.name@.len() == 0 && !(t.kind is Unreadable) && !(t.kind is Symlink) ==> (roots_of(
                ts.push(t),
            ) matches Err(r) && r == "无效路径: "@ + t.shown@)
            &&& t.name@.len() > 0 && t.kind is Other ==> (roots_of(ts.push(t)) matches Err(r) && r
                == "只支持普通文件和文件夹"@)
            &&& t.name@.len() > 0 && (t.kind is File || t.kind is Directory) ==> {
                &&& roots_of(ts.push(t)) is Ok
                &&& roots_of(ts.push(t))->Ok_0.len() == before.len() + 1
                &&& roots_of(ts.push(t))->Ok_0.drop_last() == before
                &&& roots_of(ts.push(t))->Ok_0.last().1 == (t.kind is Directory)
                &&& exists|i: nat|
                    roots_of(ts.push(t))->Ok_0.last().0 == #[trigger] candidate(t.name@, i)
            }
        },
{
    assert(ts.push(t).drop_last() =~= ts);
    if let Ok(before) = roots_of(ts) {
        let names = before.map_values(|r: (Seq<char>, bool)| r.0);
        vstd::seq_lib::seq_to_set_is_finite(names);
        law_free_name_is_free(t.name@, root_names(before));
        if roots_of(ts.push(t)) is Ok {
            assert(roots_of(ts.push(t))->Ok_0.drop_last() =~= before);
        }
    }
}

/// What a plan says is what it holds, each root, folder and file in its place.
pub proof fn law_plans_mean_what_they_hold(p: SendPlan, i: int)
    ensures
        p.plan_view().roots.len() == p.roots@.len(),
        p.plan_view().contents.directories.len() == p.directories@.len(),
        p.plan_view().contents.files.len() == p.files@.len(),
        0 <= i < p.roots@.len() ==> p.plan_view().roots[i] == (p.roots@[i].name@, p.roots@[i].is_dir),
        0 <= i < p.directories@.len() ==> p.plan_view().contents.directories[i]
            == p.directories@[i]@,
        0 <= i < p.files@.len() ==> {
            let f = p.plan_view().contents.files[i];
            &&& f.handle == p.files@[i].handle
            &&& f.shown == p.files@[i].shown@
            &&& f.relative == p.files@[i].relative@
            &&& f.size == p.files@[i].size
        },
{
}

} // verus!
