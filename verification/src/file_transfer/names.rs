//! Names of files and folders: keeping them apart, and keeping what the peer
//! sends inside the folder it is meant for.

use vstd::prelude::*;

use crate::table::Table;
use crate::text::{
    chars_of, decimal, decimal_text, decimal_value, joined, lemma_decimal_value, opt_text, text_of,
    texts, trim, trimmed,
};

verus! {

/// Names that are already taken.
pub type UsedNames = Table<()>;

/// Where the extension of a name begins: at its last dot, unless that is the
/// first character; at the end where there is no such dot.
pub open spec fn extension_start(name: Seq<char>) -> int {
    let dot = last_dot(name);
    if dot > 0 { dot } else { name.len() as int }
}

/// The position of the last dot, or -1.
pub open spec fn last_dot(s: Seq<char>) -> int
    decreases s.len(),
{
    if s.len() == 0 {
        -1
    } else if s.last() == '.' {
        s.len() - 1
    } else {
        last_dot(s.drop_last())
    }
}

/// A name without its extension.
pub open spec fn stem(name: Seq<char>) -> Seq<char> {
    name.take(extension_start(name))
}

/// The extension of a name, with its dot.
pub open spec fn extension(name: Seq<char>) -> Seq<char> {
    name.skip(extension_start(name))
}

proof fn lemma_last_dot(s: Seq<char>)
    ensures
        -1 <= last_dot(s) < s.len(),
        last_dot(s) >= 0 ==> s[last_dot(s)] == '.',
        forall|i: int| last_dot(s) < i < s.len() ==> s[i] != '.',
    decreases s.len(),
{
    if s.len() > 0 && s.last() != '.' {
        lemma_last_dot(s.drop_last());
        assert forall|i: int| last_dot(s) < i < s.len() implies s[i] != '.' by {
            if i < s.len() - 1 {
                assert(s.drop_last()[i] != '.');
            }
        }
    }
}

/// Splits a name into what stands before its extension and the extension.
pub fn split_name(name: &str) -> (parts: (String, String))
    ensures
        parts.0@ == stem(name@),
        parts.1@ == extension(name@),
{
    let chars = chars_of(name);
    let n: usize = chars.len();
    let mut i: usize = n;
    assert(name@.take(n as int) =~= name@);
    while i > 0
        invariant
            i <= n,
            n == chars@.len(),
            chars@ == name@,
            last_dot(name@) == last_dot(name@.take(i as int)),
        decreases i,
    {
        assert(name@.take(i as int).drop_last() =~= name@.take(i - 1));
        if chars[i - 1] == '.' {
            let dot: usize = i - 1;
            let at: usize = if dot > 0 { dot } else { n };
            let parts = (
                text_of(chars.as_slice(), 0, at),
                text_of(chars.as_slice(), at, n),
            );
            assert(parts.0@ =~= stem(name@));
            assert(parts.1@ =~= extension(name@));
            return parts;
        }
        i -= 1;
    }
    assert(name@.take(0) =~= Seq::<char>::empty());
    let parts = (text_of(chars.as_slice(), 0, n), String::new());
    assert(parts.0@ =~= stem(name@));
    assert(parts.1@ =~= extension(name@));
    parts
}

/// The `i`-th name to try for a file called `name`: the name itself, then
/// `stem (1).ext`, `stem (2).ext` and so on.
pub open spec fn candidate(name: Seq<char>, i: nat) -> Seq<char> {
    if i == 0 {
        name
    } else {
        stem(name) + seq![' ', '('] + decimal(i) + seq![')'] + extension(name)
    }
}

/// The `i`-th name to try for a file called `name`.
pub fn candidate_name(name: &str, i: u64) -> (r: String)
    ensures
        r@ == candidate(name@, i as nat),
{
    if i == 0 {
        return name.to_owned();
    }
    let (before, after) = split_name(name);
    let number = decimal_text(i);
    let mut r = before;
    r.push(' ');
    r.push('(');
    r.push_str(number.as_str());
    r.push(')');
    r.push_str(after.as_str());
    assert(r@ =~= candidate(name@, i as nat));
    r
}

/// The names to try for a file are all different, so a free one is always
/// found.
pub proof fn law_candidates_differ(name: Seq<char>, i: nat, j: nat)
    requires
        i != j,
    ensures
        candidate(name, i) != candidate(name, j),
{
    lemma_last_dot(name);
    let n = stem(name).len() as int;
    let e = extension(name).len() as int;
    lemma_decimal_value(i);
    lemma_decimal_value(j);
    if i == 0 {
        assert(candidate(name, j).len() > name.len());
    } else if j == 0 {
        assert(candidate(name, i).len() > name.len());
    } else if candidate(name, i) == candidate(name, j) {
        let c = candidate(name, i);
        let k = c.len() - e - 1;
        assert(c.subrange(n + 2, k) =~= decimal(i));
        assert(candidate(name, j).subrange(n + 2, k) =~= decimal(j));
    }
}

/// Whether the first `k` names to try are all taken.
pub open spec fn taken_up_to(name: Seq<char>, used: Set<Seq<char>>, k: nat) -> bool {
    forall|i: nat| i < k ==> used.contains(#[trigger] candidate(name, i))
}

/// Whether the `k`-th name to try is the first free one.
pub open spec fn first_free(name: Seq<char>, used: Set<Seq<char>>, k: nat) -> bool {
    taken_up_to(name, used, k) && !used.contains(candidate(name, k))
}

/// The first free name for a file called `name`.
pub open spec fn free_name(name: Seq<char>, used: Set<Seq<char>>) -> Seq<char> {
    candidate(name, choose|k: nat| first_free(name, used, k))
}

proof fn lemma_free_name(name: Seq<char>, used: Set<Seq<char>>, k: nat)
    requires
        first_free(name, used, k),
    ensures
        free_name(name, used) == candidate(name, k),
{
    let c = choose|c: nat| first_free(name, used, c);
    assert(first_free(name, used, c));
    if c < k {
        assert(used.contains(candidate(name, c)));
    } else if k < c {
        assert(used.contains(candidate(name, k)));
    }
}

/// There is always a free name, and it is free.
pub proof fn law_free_name_is_free(name: Seq<char>, used: Set<Seq<char>>)
    requires
        used.finite(),
    ensures
        !used.contains(free_name(name, used)),
        !used.contains(name) ==> free_name(name, used) == name,
{
    if forall|k: nat| !first_free(name, used, k) {
        lemma_all_taken(name, used, used.len() + 1);
        lemma_taken_is_bounded(name, used, used.len() + 1);
        assert(false);
    }
    let k = choose|k: nat| first_free(name, used, k);
    lemma_free_name(name, used, k);
    if !used.contains(name) {
        assert(candidate(name, 0) == name);
        assert(first_free(name, used, 0));
        lemma_free_name(name, used, 0);
    }
}

proof fn lemma_all_taken(name: Seq<char>, used: Set<Seq<char>>, k: nat)
    requires
        forall|i: nat| !first_free(name, used, i),
    ensures
        taken_up_to(name, used, k),
    decreases k,
{
    if k > 0 {
        let j = (k - 1) as nat;
        lemma_all_taken(name, used, j);
        assert(!first_free(name, used, j));
        assert forall|i: nat| i < k implies used.contains(#[trigger] candidate(name, i)) by {
            if i < j {
                assert(used.contains(candidate(name, i)));
            }
        }
    }
}

proof fn lemma_taken_is_bounded(name: Seq<char>, used: Set<Seq<char>>, k: nat)
    requires
        used.finite(),
        taken_up_to(name, used, k),
    ensures
        k <= used.len(),
{
    let tried = Seq::new(k, |i: int| candidate(name, i as nat));
    assert forall|i: int, j: int|
        0 <= i < tried.len() && 0 <= j < tried.len() && i != j implies tried[i] != tried[j] by {
        law_candidates_differ(name, i as nat, j as nat);
    }
    tried.unique_seq_to_set();
    assert forall|s: Seq<char>| #[trigger] tried.to_set().contains(s) implies used.contains(s) by {
        let i = choose|i: int| 0 <= i < tried.len() && tried[i] == s;
        assert(used.contains(candidate(name, i as nat)));
    }
    vstd::set_lib::lemma_len_subset(tried.to_set(), used);
}

/// The search for a free name in a folder that only the application can look into.
pub struct NameSearch {
    pub name: String,
    /// How many names were found taken.
    pub tried: u64,
}

/// What the search for a free name needs next.
#[derive(Debug)]
pub enum NameStep {
    /// Look whether this name is taken.
    Check(String),
    /// This name is free.
    Take(String),
}

impl NameSearch {
    /// Whether `r` is what the search needs once the name that was to be checked is taken,
    /// or not, and `after` how far it has come then.
    pub open spec fn goes_on(self, taken: bool, r: NameStep, after: NameSearch) -> bool {
        &&& after.name@ == self.name@
        &&& after.tried == self.tried + (if taken {
            1int
        } else {
            0
        })
        &&& match r {
            NameStep::Check(n) => taken && n@ == candidate(self.name@, after.tried as nat),
            NameStep::Take(n) => !taken && n@ == candidate(self.name@, self.tried as nat),
        }
    }

    /// Begins with `name` itself.
    pub fn new(name: &str) -> (r: (Self, NameStep))
        ensures
            r.0.name@ == name@,
            r.0.tried == 0,
            r.1 matches NameStep::Check(n) && n@ == candidate(name@, 0),
    {
        (NameSearch { name: name.to_owned(), tried: 0 }, NameStep::Check(candidate_name(name, 0)))
    }

    /// The name that was to be checked is taken, or not: the next one is tried, or this
    /// one is it.
    pub fn on_checked(&mut self, taken: bool) -> (r: NameStep)
        requires
            taken ==> old(self).tried < u64::MAX,
        ensures
            final(self).name@ == old(self).name@,
            final(self).tried == old(self).tried + (if taken {
                1int
            } else {
                0
            }),
            match r {
                NameStep::Check(n) => taken && n@ == candidate(
                    old(self).name@,
                    final(self).tried as nat,
                ),
                NameStep::Take(n) => !taken && n@ == candidate(
                    old(self).name@,
                    old(self).tried as nat,
                ),
            },
            old(self).goes_on(taken, r, *final(self)),
    {
        if taken {
            self.tried += 1;
            NameStep::Check(candidate_name(self.name.as_str(), self.tried))
        } else {
            NameStep::Take(candidate_name(self.name.as_str(), self.tried))
        }
    }
}

/// The first `k` names to try.
pub open spec fn tried_names(name: Seq<char>, k: nat) -> Set<Seq<char>> {
    Set::new(|s: Seq<char>| exists|i: nat| i < k && s == #[trigger] candidate(name, i))
}

/// Where the first `k` names were found taken and the next one free, the search takes
/// the first free name: of a folder that holds just the names found taken, and of every
/// folder that answers so.
pub proof fn law_search_takes_the_first_free_name(
    name: Seq<char>,
    k: nat,
    folder: Set<Seq<char>>,
)
    ensures
        free_name(name, tried_names(name, k)) == candidate(name, k),
        taken_up_to(name, folder, k) && !folder.contains(candidate(name, k)) ==> free_name(
            name,
            folder,
        ) == candidate(name, k),
{
    let tried = tried_names(name, k);
    assert(taken_up_to(name, tried, k));
    if tried.contains(candidate(name, k)) {
        let i = choose|i: nat| i < k && candidate(name, k) == #[trigger] candidate(name, i);
        law_candidates_differ(name, i, k);
    }
    lemma_free_name(name, tried, k);
    if taken_up_to(name, folder, k) && !folder.contains(candidate(name, k)) {
        lemma_free_name(name, folder, k);
    }
}

/// Finds a name that is not taken, trying `name` first and then numbered ones,
/// and takes it.
pub fn unique_logical_name(name: &str, used: &mut UsedNames) -> (r: String)
    requires
        old(used).wf(),
    ensures
        final(used).wf(),
        r@ == free_name(name@, old(used)@.dom()),
        final(used)@ == old(used)@.insert(r@, ()),
        !old(used)@.contains_key(r@),
{
    let size: usize = used.len();
    let mut i: u64 = 0;
    loop
        invariant
            used.wf(),
            *used == *old(used),
            used@.dom().finite(),
            size == used@.dom().len(),
            taken_up_to(name@, used@.dom(), i as nat),
        decreases size - i,
    {
        proof {
            lemma_taken_is_bounded(name@, used@.dom(), i as nat);
        }
        let wanted = candidate_name(name, i);
        if !used.contains(wanted.as_str()) {
            used.insert(wanted.as_str(), ());
            proof {
                lemma_free_name(name@, old(used)@.dom(), i as nat);
            }
            return wanted;
        }
        proof {
            assert(taken_up_to(name@, used@.dom(), i as nat + 1)) by {
                assert forall|j: nat| j < i as nat + 1 implies used@.dom().contains(
                    #[trigger] candidate(name@, j),
                ) by {
                    if j == i {
                        assert(used@.contains_key(candidate(name@, j)));
                    }
                }
            }
            lemma_taken_is_bounded(name@, used@.dom(), i as nat + 1);
        }
        i += 1;
    }
}

/// How a system reads paths.
#[derive(Debug, Clone, Copy, PartialEq, Eq, Structural)]
pub enum PathStyle {
    /// A slash separates names; every other character may be part of one.
    Slash,
    /// A slash and a backslash separate names, and a path may begin with a drive.
    Drive,
}

/// The style in which the paths of a batch are read on every system, so that a path
/// means the same wherever it came from.
pub const BATCH_PATHS: PathStyle = PathStyle::Drive;

pub open spec fn is_separator(style: PathStyle, c: char) -> bool {
    c == '/' || (style == PathStyle::Drive && c == '\\')
}

fn separates(style: PathStyle, c: char) -> (r: bool)
    ensures
        r == is_separator(style, c),
{
    c == '/' || (style == PathStyle::Drive && c == '\\')
}

/// The pieces of a path between its separators.
pub open spec fn pieces(style: PathStyle, path: Seq<char>) -> Seq<Seq<char>>
    decreases path.len(),
{
    if path.len() == 0 {
        seq![Seq::empty()]
    } else {
        let before = pieces(style, path.drop_last());
        if is_separator(style, path.last()) {
            before.push(Seq::empty())
        } else {
            before.drop_last().push(before.last().push(path.last()))
        }
    }
}

pub open spec fn here() -> Seq<char> {
    seq!['.']
}

pub open spec fn parent() -> Seq<char> {
    seq!['.', '.']
}

pub open spec fn is_letter(c: char) -> bool {
    'a' <= c <= 'z' || 'A' <= c <= 'Z'
}

/// Whether a path begins with a drive, like `C:`.
pub open spec fn has_drive(style: PathStyle, path: Seq<char>) -> bool {
    style == PathStyle::Drive && path.len() >= 2 && is_letter(path[0]) && path[1] == ':'
}

/// Whether a path can lead out of the folder it is meant for: it has a drive or
/// a root, begins at the current folder, or goes up.
pub open spec fn leads_out(style: PathStyle, path: Seq<char>) -> bool {
    ||| has_drive(style, path)
    ||| path.len() > 0 && is_separator(style, path[0])
    ||| pieces(style, path)[0] == here()
    ||| pieces(style, path).contains(parent())
}

/// Whether a piece of a path names something.
pub open spec fn is_named(piece: Seq<char>) -> bool {
    piece.len() > 0 && piece != here()
}

/// The names along a path.
pub open spec fn path_names(style: PathStyle, path: Seq<char>) -> Seq<Seq<char>> {
    pieces(style, path).filter(|p: Seq<char>| is_named(p))
}

proof fn lemma_pieces_nonempty(style: PathStyle, path: Seq<char>)
    ensures
        pieces(style, path).len() >= 1,
    decreases path.len(),
{
    if path.len() > 0 {
        lemma_pieces_nonempty(style, path.drop_last());
    }
}

fn split_path(style: PathStyle, path: &Vec<char>) -> (r: Vec<String>)
    ensures
        texts(r@) == pieces(style, path@),
        r@.len() >= 1,
{
    let n: usize = path.len();
    let mut done: Vec<String> = Vec::new();
    let mut current = String::new();
    let mut i: usize = 0;
    proof {
        assert(path@.take(0) =~= Seq::<char>::empty());
        assert(texts(done@).push(current@) =~= pieces(style, path@.take(0)));
    }
    while i < n
        invariant
            n == path@.len(),
            i <= n,
            texts(done@).push(current@) == pieces(style, path@.take(i as int)),
        decreases n - i,
    {
        let ghost so_far = texts(done@).push(current@);
        assert(path@.take(i + 1).drop_last() =~= path@.take(i as int));
        assert(so_far.drop_last() =~= texts(done@));
        let c: char = path[i];
        if separates(style, c) {
            done.push(current);
            current = String::new();
            assert(texts(done@) =~= so_far);
        } else {
            current.push(c);
        }
        i += 1;
    }
    assert(path@.take(n as int) =~= path@);
    done.push(current);
    assert(texts(done@) =~= pieces(style, path@));
    done
}

fn is_here(s: &str) -> (r: bool)
    ensures
        r == (s@ == here()),
{
    let c = chars_of(s);
    let r = c.len() == 1 && c[0] == '.';
    proof {
        if r {
            assert(s@ =~= here());
        }
    }
    r
}

fn is_parent(s: &str) -> (r: bool)
    ensures
        r == (s@ == parent()),
{
    let c = chars_of(s);
    let r = c.len() == 2 && c[0] == '.' && c[1] == '.';
    proof {
        if r {
            assert(s@ =~= parent());
        }
    }
    r
}

/// The names along a path, unless it leads out of its folder.
fn contained_names(style: PathStyle, path: &str) -> (r: Option<Vec<String>>)
    ensures
        r is Some == !leads_out(style, path@),
        r matches Some(v) ==> texts(v@) == path_names(style, path@),
{
    let chars = chars_of(path);
    let n: usize = chars.len();
    if style == PathStyle::Drive && n >= 2 && chars[1] == ':' && (('a' <= chars[0] && chars[0]
        <= 'z') || ('A' <= chars[0] && chars[0] <= 'Z')) {
        return None;
    }
    if n > 0 && separates(style, chars[0]) {
        return None;
    }
    let parts = split_path(style, &chars);
    assert(texts(parts@)[0] == parts@[0]@);
    if is_here(parts[0].as_str()) {
        return None;
    }
    let m: usize = parts.len();
    let mut names: Vec<String> = Vec::new();
    let mut i: usize = 0;
    let ghost keep = |p: Seq<char>| is_named(p);
    while i < m
        invariant
            m == parts@.len(),
            i <= m,
            texts(parts@) == pieces(style, path@),
            keep == (|p: Seq<char>| is_named(p)),
            texts(names@) == texts(parts@).take(i as int).filter(keep),
            forall|j: int| 0 <= j < i ==> #[trigger] texts(parts@)[j] != parent(),
        decreases m - i,
    {
        let part: &String = &parts[i];
        if is_parent(part.as_str()) {
            assert(pieces(style, path@)[i as int] == parent());
            assert(pieces(style, path@).contains(parent()));
            return None;
        }
        let ghost before = texts(names@);
        let ghost t = texts(parts@);
        assert(t.take(i + 1).drop_last() =~= t.take(i as int));
        assert(t.take(i + 1).last() == part@);
        proof {
            reveal(Seq::filter);
        }
        if !part.as_str().is_empty() && !is_here(part.as_str()) {
            names.push(part.clone());
            assert(texts(names@) =~= before.push(part@));
        }
        i += 1;
    }
    assert(texts(parts@).take(m as int) =~= texts(parts@));
    assert(!pieces(style, path@).contains(parent()));
    Some(names)
}

/// The one name that `name` consists of, or nothing where it is not a single
/// name that stays inside its folder.
pub open spec fn single_name(style: PathStyle, name: Seq<char>) -> Option<Seq<char>> {
    if !leads_out(style, name) && path_names(style, name).len() == 1 {
        Some(path_names(style, name)[0])
    } else {
        None
    }
}

/// Checks that `name` is a single name on a system that reads paths in the given style,
/// and returns it.
pub fn safe_single_name(style: PathStyle, name: &str) -> (r: Option<String>)
    ensures
        match single_name(style, name@) {
            Some(n) => r matches Some(s) && s@ == n,
            None => r is None,
        },
{
    match contained_names(style, name) {
        Some(names) => {
            assert(texts(names@).len() == names@.len());
            if names.len() == 1 {
                assert(texts(names@)[0] == names@[0]@);
                Some(names[0].clone())
            } else {
                None
            }
        },
        None => None,
    }
}

/// Splits a path that the peer sent into its names. A path that leads out of
/// its folder is refused, and so is one that names nothing.
pub fn safe_relative_components(path: &str) -> (r: Result<Vec<String>, String>)
    ensures
        match r {
            Ok(v) => {
                &&& !leads_out(BATCH_PATHS, path@)
                &&& path_names(BATCH_PATHS, path@).len() > 0
                &&& texts(v@) == path_names(BATCH_PATHS, path@)
            },
            Err(e) => if leads_out(BATCH_PATHS, path@) {
                e@ == "对端发送了不安全的文件路径"@
            } else {
                path_names(BATCH_PATHS, path@).len() == 0 && e@ == "文件路径为空"@
            },
        },
{
    match contained_names(BATCH_PATHS, path) {
        Some(names) => {
            assert(texts(names@).len() == names@.len());
            if names.len() == 0 {
                Err("文件路径为空".to_owned())
            } else {
                Ok(names)
            }
        },
        None => Err("对端发送了不安全的文件路径".to_owned()),
    }
}

/// Whether a text can be the name of something inside a folder: it is not
/// empty, holds no separator and is neither the folder itself nor its parent.
pub open spec fn plain_name(style: PathStyle, s: Seq<char>) -> bool {
    &&& s.len() > 0
    &&& s != here()
    &&& s != parent()
    &&& forall|i: int| 0 <= i < s.len() ==> !is_separator(style, #[trigger] s[i])
}

proof fn lemma_pieces_hold_no_separator(style: PathStyle, path: Seq<char>)
    ensures
        forall|k: int, i: int|
            0 <= k < pieces(style, path).len() && 0 <= i < pieces(style, path)[k].len()
                ==> !is_separator(style, #[trigger] pieces(style, path)[k][i]),
    decreases path.len(),
{
    if path.len() > 0 {
        let before = pieces(style, path.drop_last());
        lemma_pieces_nonempty(style, path.drop_last());
        lemma_pieces_hold_no_separator(style, path.drop_last());
        assert forall|k: int, i: int|
            0 <= k < pieces(style, path).len() && 0 <= i < pieces(
                style,
                path,
            )[k].len() implies !is_separator(style, #[trigger] pieces(style, path)[k][i]) by {
            if k < before.len() - 1 {
                assert(pieces(style, path)[k] == before[k]);
                assert(!is_separator(style, before[k][i]));
            } else if k == before.len() - 1 {
                if is_separator(style, path.last()) {
                    assert(pieces(style, path)[k] == before[k]);
                    assert(!is_separator(style, before[k][i]));
                } else if i < before.last().len() {
                    assert(!is_separator(style, before[k][i]));
                }
            }
        }
    }
}

proof fn lemma_filter_within(s: Seq<Seq<char>>, keep: spec_fn(Seq<char>) -> bool)
    ensures
        forall|i: int|
            0 <= i < s.filter(keep).len() ==> s.contains(#[trigger] s.filter(keep)[i]) && keep(
                s.filter(keep)[i],
            ),
    decreases s.len(),
{
    reveal(Seq::filter);
    if s.len() > 0 {
        let t = s.drop_last();
        lemma_filter_within(t, keep);
        assert forall|i: int| 0 <= i < s.filter(keep).len() implies s.contains(
            #[trigger] s.filter(keep)[i],
        ) && keep(s.filter(keep)[i]) by {
            if i < t.filter(keep).len() {
                let x = t.filter(keep)[i];
                assert(t.contains(x));
                let k = choose|k: int| 0 <= k < t.len() && t[k] == x;
                assert(s[k] == x);
            } else {
                assert(s[s.len() - 1] == s.last());
            }
        }
    }
}

/// Every name that is accepted from the peer is the plain name of something
/// inside the folder: following the names one after the other never leaves it.
pub proof fn law_accepted_names_stay_inside(style: PathStyle, path: Seq<char>)
    requires
        !leads_out(style, path),
    ensures
        forall|i: int|
            0 <= i < path_names(style, path).len() ==> plain_name(
                style,
                #[trigger] path_names(style, path)[i],
            ),
        single_name(style, path) matches Some(n) ==> plain_name(style, n),
{
    lemma_pieces_hold_no_separator(style, path);
    let keep = |p: Seq<char>| is_named(p);
    lemma_filter_within(pieces(style, path), keep);
    assert forall|i: int| 0 <= i < path_names(style, path).len() implies plain_name(
        style,
        #[trigger] path_names(style, path)[i],
    ) by {
        let p = path_names(style, path)[i];
        assert(pieces(style, path).contains(p) && keep(p));
        let k = choose|k: int| 0 <= k < pieces(style, path).len() && pieces(style, path)[k] == p;
        assert forall|j: int| 0 <= j < p.len() implies !is_separator(style, #[trigger] p[j]) by {
            assert(!is_separator(style, pieces(style, path)[k][j]));
        }
    }
}

/// The name under which a file is written until it is complete.
pub open spec fn part_name(file_name: Seq<char>, id: Seq<char>) -> Seq<char> {
    seq!['.'] + file_name + ".ruiss-"@ + id + ".part"@
}

/// The name under which the file `file_name` is written while the transfer `id`
/// runs.
pub fn temp_name(file_name: &str, id: &str) -> (r: String)
    ensures
        r@ == part_name(file_name@, id@),
{
    let mut r = String::new();
    r.push('.');
    r.push_str(file_name);
    r.push_str(".ruiss-");
    r.push_str(id);
    r.push_str(".part");
    assert(r@ =~= part_name(file_name@, id@));
    r
}

/// Where received files go: where the user wants them, else to the folder for
/// downloads, else to the home folder, else to the one for temporary files.
pub open spec fn chosen_dir(
    configured: Seq<char>,
    downloads: Option<Seq<char>>,
    home: Option<Seq<char>>,
    temp: Seq<char>,
) -> Seq<char> {
    if trimmed(configured).len() > 0 {
        trimmed(configured)
    } else {
        match (downloads, home) {
            (Some(d), _) => d,
            (None, Some(h)) => h,
            (None, None) => temp,
        }
    }
}

/// Chooses where received files go.
pub fn resolve_download_dir(
    configured: &str,
    downloads: Option<String>,
    home: Option<String>,
    temp: String,
) -> (dir: String)
    ensures
        dir@ == chosen_dir(configured@, opt_text(downloads), opt_text(home), temp@),
{
    let wanted = trim(configured);
    if !wanted.as_str().is_empty() {
        return wanted;
    }
    match (downloads, home) {
        (Some(d), _) => d,
        (None, Some(h)) => h,
        (None, None) => temp,
    }
}

/// A name is its stem and its extension. The extension begins with the last dot and holds
/// no other; a dot at the very start begins none.
pub proof fn law_names_are_split_at_the_last_dot(name: Seq<char>)
    ensures
        stem(name) + extension(name) == name,
        extension(name).len() > 0 ==> {
            &&& extension(name)[0] == '.'
            &&& stem(name).len() > 0
            &&& forall|i: int| 0 < i < extension(name).len() ==> #[trigger] extension(name)[i] != '.'
        },
        extension(name).len() == 0 ==> forall|i: int|
            0 < i < name.len() ==> #[trigger] name[i] != '.',
{
    lemma_last_dot(name);
    assert(stem(name) + extension(name) =~= name);
}

/// A numbered name keeps stem and extension, with the number in brackets between them.
pub proof fn law_numbered_names_keep_stem_and_extension(name: Seq<char>, i: nat)
    requires
        i > 0,
    ensures
        candidate(name, 0) == name,
        exists|number: Seq<char>|
            decimal_value(number) == i && candidate(name, i) == stem(name) + seq![' ', '(']
                + #[trigger] (number + seq![')']) + extension(name),
{
    lemma_decimal_value(i);
    let number = decimal(i);
    assert(candidate(name, i) =~= stem(name) + seq![' ', '('] + (number + seq![')'])
        + extension(name));
}

/// The unfinished file of a transfer is hidden, begins with the name of the file and holds
/// the transfer, so that two transfers never share one.
pub proof fn law_unfinished_files_are_apart(file: Seq<char>, id: Seq<char>, other: Seq<char>)
    requires
        id != other,
        id.len() == other.len(),
    ensures
        part_name(file, id)[0] == '.',
        part_name(file, id).subrange(1, 1 + file.len() as int) == file,
        part_name(file, id) != part_name(file, other),
{
    reveal_strlit(".ruiss-");
    reveal_strlit(".part");
    let p = part_name(file, id);
    let q = part_name(file, other);
    assert(p.subrange(1, 1 + file.len() as int) =~= file);
    let a = 1 + file.len() as int + 7;
    let b = a + id.len() as int;
    assert(p.subrange(a, b) =~= id);
    assert(q.subrange(a, b) =~= other);
}

/// Joining the pieces of a path with slashes gives the path back, with every separator a
/// slash: nothing is lost, and no piece holds a separator.
pub proof fn law_paths_are_cut_at_their_separators(style: PathStyle, path: Seq<char>)
    ensures
        joined(pieces(style, path), seq!['/']).len() == path.len(),
        forall|i: int|
            0 <= i < path.len() ==> (#[trigger] joined(pieces(style, path), seq!['/'])[i]) == if path[i]
                == '/' || (style == PathStyle::Drive && path[i] == '\\') {
                '/'
            } else {
                path[i]
            },
    decreases path.len(),
{
    if path.len() == 0 {
        assert(pieces(style, path).len() == 1);
    } else {
        let init = path.drop_last();
        let c = path.last();
        law_paths_are_cut_at_their_separators(style, init);
        lemma_pieces_nonempty(style, init);
        let before = pieces(style, init);
        let all = pieces(style, path);
        let slash = seq!['/'];
        if is_separator(style, c) {
            assert(all.drop_last() =~= before);
            assert(joined(all, slash) =~= joined(before, slash).push('/'));
        } else {
            assert(all.drop_last() =~= before.drop_last());
            assert(all.last() == before.last().push(c));
            assert(joined(all, slash) =~= joined(before, slash).push(c));
        }
        assert forall|i: int| 0 <= i < path.len() implies (#[trigger] joined(all, slash)[i])
            == if path[i] == '/' || (style == PathStyle::Drive && path[i] == '\\') {
            '/'
        } else {
            path[i]
        } by {
            if i < init.len() {
                assert(joined(all, slash)[i] == joined(before, slash)[i]);
                assert(init[i] == path[i]);
            }
        }
    }
}

/// Which paths are refused: one that begins with a separator or with a drive, one whose
/// first piece is a dot, and one that goes up. On a system without drives a colon and a
/// backslash are characters like any other.
pub proof fn law_which_paths_lead_out(path: Seq<char>, i: int)
    ensures
        path.len() > 0 && (path[0] == '/' || path[0] == '\\') ==> leads_out(BATCH_PATHS, path),
        path.len() > 1 && path[1] == ':' && ('a' <= path[0] <= 'z' || 'A' <= path[0] <= 'Z')
            ==> leads_out(BATCH_PATHS, path),
        path.len() > 0 && path[0] == '/' ==> leads_out(PathStyle::Slash, path),
        0 <= i < pieces(BATCH_PATHS, path).len() && pieces(BATCH_PATHS, path)[i] == seq!['.', '.']
            ==> leads_out(BATCH_PATHS, path),
        0 <= i < pieces(PathStyle::Slash, path).len() && pieces(PathStyle::Slash, path)[i] == seq![
            '.',
            '.',
        ] ==> leads_out(PathStyle::Slash, path),
        pieces(BATCH_PATHS, path)[0] == seq!['.'] ==> leads_out(BATCH_PATHS, path),
{
}

/// A text without separators that is neither empty nor made of dots alone is accepted, as
/// the one name that it is; on the system with drives it must not begin with one.
pub proof fn law_plain_names_are_accepted(style: PathStyle, name: Seq<char>)
    requires
        name.len() > 0,
        forall|i: int| 0 <= i < name.len() ==> #[trigger] name[i] != '/' && name[i] != '\\',
        name != seq!['.'],
        name != seq!['.', '.'],
        name.len() < 2 || name[1] != ':',
    ensures
        pieces(style, name) == seq![name],
        !leads_out(style, name),
        path_names(style, name) == seq![name],
        single_name(style, name) == Some(name),
{
    lemma_one_piece(style, name);
    let p = pieces(style, name);
    assert(p[0] == name);
    reveal(Seq::filter);
    assert(p.drop_last() =~= Seq::<Seq<char>>::empty());
    assert(p.drop_last().filter(|q: Seq<char>| is_named(q)) =~= Seq::<Seq<char>>::empty());
    assert(path_names(style, name) =~= seq![name]);
    if p.contains(parent()) {
        let k = choose|k: int| 0 <= k < p.len() && p[k] == parent();
        assert(p[k] == name);
    }
}

proof fn lemma_one_piece(style: PathStyle, name: Seq<char>)
    requires
        forall|i: int| 0 <= i < name.len() ==> #[trigger] name[i] != '/' && name[i] != '\\',
    ensures
        pieces(style, name) == seq![name],
    decreases name.len(),
{
    if name.len() > 0 {
        let init = name.drop_last();
        assert forall|i: int| 0 <= i < init.len() implies #[trigger] init[i] != '/' && init[i]
            != '\\' by {
            assert(init[i] == name[i]);
        }
        lemma_one_piece(style, init);
        assert(name.last() == name[name.len() - 1]);
        assert(init.push(name.last()) =~= name);
        assert(pieces(style, name) =~= seq![name]);
    } else {
        assert(name =~= Seq::<char>::empty());
    }
}

/// Received files go where the user wants them; without a wish to the downloads, else to
/// the home folder, else to the temporary files.
pub proof fn law_where_received_files_go(
    configured: Seq<char>,
    downloads: Seq<char>,
    home: Seq<char>,
    temp: Seq<char>,
)
    ensures
        trimmed(configured).len() > 0 ==> chosen_dir(configured, Some(downloads), Some(home), temp)
            == trimmed(configured) && chosen_dir(configured, None, None, temp) == trimmed(configured),
        trimmed(configured).len() == 0 ==> {
            &&& chosen_dir(configured, Some(downloads), Some(home), temp) == downloads
            &&& chosen_dir(configured, Some(downloads), None, temp) == downloads
            &&& chosen_dir(configured, None, Some(home), temp) == home
            &&& chosen_dir(configured, None, None, temp) == temp
        },
{
}

/// A free name is the first of the names to try that is not taken.
pub proof fn law_free_name_is_the_first(name: Seq<char>, used: Set<Seq<char>>)
    requires
        used.finite(),
    ensures
        exists|k: nat|
            {
                &&& free_name(name, used) == #[trigger] candidate(name, k)
                &&& forall|i: nat| i < k ==> used.contains(#[trigger] candidate(name, i))
                &&& !used.contains(candidate(name, k))
            },
{
    if forall|k: nat| !first_free(name, used, k) {
        lemma_all_taken(name, used, used.len() + 1);
        lemma_taken_is_bounded(name, used, used.len() + 1);
        assert(false);
    }
    let k = choose|k: nat| first_free(name, used, k);
    lemma_free_name(name, used, k);
    assert(free_name(name, used) == candidate(name, k));
}

/// The search on the disk takes the name that it has just found free, and otherwise goes
/// on with the next number; it never passes a number over.
pub proof fn law_search_passes_no_name_over(
    search: NameSearch,
    taken: bool,
    r: NameStep,
    after: NameSearch,
    next: NameStep,
    end: NameSearch,
)
    requires
        search.goes_on(taken, r, after),
        after.goes_on(false, next, end),
    ensures
        !taken ==> (r matches NameStep::Take(n) && n@ == candidate(
            search.name@,
            search.tried as nat,
        )),
        taken ==> (r matches NameStep::Check(n) && n@ == candidate(
            search.name@,
            (search.tried + 1) as nat,
        ) && (next matches NameStep::Take(m) && m@ == n@)),
        after.name@ == search.name@,
{
}

proof fn lemma_pieces_behind(style: PathStyle, path: Seq<char>, name: Seq<char>)
    requires
        forall|i: int| 0 <= i < name.len() ==> #[trigger] name[i] != '/' && name[i] != '\\',
    ensures
        pieces(style, path.push('/') + name) == pieces(style, path).push(name),
    decreases name.len(),
{
    let whole = path.push('/') + name;
    if name.len() == 0 {
        assert(whole =~= path.push('/'));
        assert(whole.drop_last() =~= path);
        assert(name =~= Seq::<char>::empty());
    } else {
        let init = name.drop_last();
        assert forall|i: int| 0 <= i < init.len() implies #[trigger] init[i] != '/' && init[i]
            != '\\' by {
            assert(init[i] == name[i]);
        }
        lemma_pieces_behind(style, path, init);
        assert(whole.drop_last() =~= path.push('/') + init);
        assert(whole.last() == name[name.len() - 1]);
        let before = pieces(style, path).push(init);
        assert(before.drop_last() =~= pieces(style, path));
        assert(init.push(name.last()) =~= name);
        assert(pieces(style, whole) =~= pieces(style, path).push(name));
    }
}

/// The names along a path are what stands between its slashes, in order; an empty piece
/// and a dot are no names.
pub proof fn law_names_along_a_path(style: PathStyle, path: Seq<char>, name: Seq<char>)
    requires
        forall|i: int| 0 <= i < name.len() ==> #[trigger] name[i] != '/' && name[i] != '\\',
    ensures
        name.len() > 0 && name != seq!['.'] ==> path_names(style, path.push('/') + name)
            == path_names(style, path).push(name),
        name.len() == 0 || name == seq!['.'] ==> path_names(style, path.push('/') + name)
            == path_names(style, path),
{
    lemma_pieces_behind(style, path, name);
    let named = |p: Seq<char>| is_named(p);
    let before = pieces(style, path);
    reveal(Seq::filter);
    assert(before.push(name).drop_last() =~= before);
    assert(before.push(name).last() == name);
}

/// What goes below another name is no single name.
pub proof fn law_a_path_is_no_single_name(style: PathStyle, first: Seq<char>, second: Seq<char>)
    requires
        first.len() > 0,
        second.len() > 0,
        first != seq!['.'],
        second != seq!['.'],
        forall|i: int| 0 <= i < first.len() ==> #[trigger] first[i] != '/' && first[i] != '\\',
        forall|i: int| 0 <= i < second.len() ==> #[trigger] second[i] != '/' && second[i] != '\\',
    ensures
        path_names(style, first.push('/') + second) == seq![first, second],
        single_name(style, first.push('/') + second) is None,
{
    lemma_one_piece(style, first);
    reveal(Seq::filter);
    let p = pieces(style, first);
    assert(p.drop_last() =~= Seq::<Seq<char>>::empty());
    assert(p.drop_last().filter(|q: Seq<char>| is_named(q)) =~= Seq::<Seq<char>>::empty());
    assert(path_names(style, first) =~= seq![first]);
    law_names_along_a_path(style, first, second);
}

/// A path is refused for no other reason than these: it begins with a separator or with a
/// drive, its first piece is a dot, or one of its pieces goes up. A dot further on is
/// harmless, and so are names that only begin with dots.
pub proof fn law_no_other_paths_lead_out(path: Seq<char>)
    ensures
        leads_out(PathStyle::Slash, path) ==> {
            ||| path.len() > 0 && path[0] == '/'
            ||| pieces(PathStyle::Slash, path)[0] == seq!['.']
            ||| exists|i: int|
                0 <= i < pieces(PathStyle::Slash, path).len() && #[trigger] pieces(
                    PathStyle::Slash,
                    path,
                )[i] == seq!['.', '.']
        },
        leads_out(PathStyle::Drive, path) ==> {
            ||| path.len() > 0 && (path[0] == '/' || path[0] == '\\')
            ||| path.len() > 1 && path[1] == ':' && ('a' <= path[0] <= 'z' || 'A' <= path[0] <= 'Z')
            ||| pieces(PathStyle::Drive, path)[0] == seq!['.']
            ||| exists|i: int|
                0 <= i < pieces(PathStyle::Drive, path).len() && #[trigger] pieces(
                    PathStyle::Drive,
                    path,
                )[i] == seq!['.', '.']
        },
{
}

/// The name of an unfinished file ends with the transfer and `.part`, so that it is told
/// from every finished one.
pub proof fn law_unfinished_files_are_marked(file: Seq<char>, id: Seq<char>)
    ensures
        part_name(file, id).len() == file.len() + id.len() + 13,
        part_name(file, id).subrange(8 + file.len() as int, 8 + file.len() as int + id.len() as int)
            == id,
        part_name(file, id).skip(8 + file.len() as int + id.len() as int) == ".part"@,
        part_name(file, id).subrange(1 + file.len() as int, 8 + file.len() as int) == ".ruiss-"@,
{
    reveal_strlit(".ruiss-");
    reveal_strlit(".part");
    let p = part_name(file, id);
    let n = file.len() as int;
    assert(p.subrange(8 + n, 8 + n + id.len() as int) =~= id);
    assert(p.skip(8 + n + id.len() as int) =~= ".part"@);
    assert(p.subrange(1 + n, 8 + n) =~= ".ruiss-"@);
}

} // verus!
