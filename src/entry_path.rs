//! Confinement of archive entry names to the destination directory.
use vstd::prelude::*;
use crate::text::{push_char, str_equal};

verus! {

pub open spec fn is_separator(c: char) -> bool {
    c == '/' || c == '\\'
}

/// The pieces of `s` between separators, empty pieces included.
pub open spec fn split_path(s: Seq<char>) -> Seq<Seq<char>>
    decreases s.len(),
{
    if s.len() == 0 {
        seq![Seq::<char>::empty()]
    } else {
        let init = split_path(s.drop_last());
        if is_separator(s.last()) {
            init.push(Seq::<char>::empty())
        } else {
            init.update(init.len() - 1, init.last().push(s.last()))
        }
    }
}

/// A piece that names a drive, a device or an alternate stream.
pub open spec fn has_colon(c: Seq<char>) -> bool {
    c.contains(':')
}

/// A drive designator such as `C:`, which makes a name absolute.
pub open spec fn is_drive_prefix(c: Seq<char>) -> bool {
    &&& c.len() == 2
    &&& c[1] == ':'
    &&& (('a' <= c[0] && c[0] <= 'z') || ('A' <= c[0] && c[0] <= 'Z'))
}

/// The pieces without a leading drive designator: an absolute prefix is
/// removed, so the rest is taken relative to the destination.
pub open spec fn strip_drive(parts: Seq<Seq<char>>) -> Seq<Seq<char>> {
    if parts.len() > 0 && is_drive_prefix(parts[0]) {
        parts.drop_first()
    } else {
        parts
    }
}

/// Resolves pieces lexically from the destination root: empty and `.` pieces
/// vanish, `..` climbs one level, and the result is `None` when a `..` climbs
/// above the root or a piece holds a colon (on the host such a piece names a
/// drive or a stream, which lies outside the destination).
pub open spec fn resolve(parts: Seq<Seq<char>>) -> Option<Seq<Seq<char>>>
    decreases parts.len(),
{
    if parts.len() == 0 {
        Some(Seq::<Seq<char>>::empty())
    } else {
        match resolve(parts.drop_last()) {
            None => None,
            Some(acc) => {
                let c = parts.last();
                if c.len() == 0 || c == "."@ {
                    Some(acc)
                } else if c == ".."@ {
                    if acc.len() == 0 {
                        None
                    } else {
                        Some(acc.drop_last())
                    }
                } else if has_colon(c) {
                    None
                } else {
                    Some(acc.push(c))
                }
            },
        }
    }
}

/// The components under the destination that an entry name denotes (none at
/// all for the destination itself), or `None` when the name leaves the
/// destination.
pub open spec fn sanitize_spec(name: Seq<char>) -> Option<Seq<Seq<char>>> {
    resolve(strip_drive(split_path(name)))
}

/// Whether a stored name is written as a directory (it ends with a separator).
pub open spec fn names_directory(name: Seq<char>) -> bool {
    name.len() > 0 && is_separator(name.last())
}

/// Whether an entry stands for a directory: it is written as one, or it
/// resolves to the destination directory itself.
pub open spec fn denotes_directory(name: Seq<char>) -> bool {
    names_directory(name) || sanitize_spec(name) == Some(Seq::<Seq<char>>::empty())
}

pub open spec fn views(v: Seq<String>) -> Seq<Seq<char>> {
    v.map_values(|s: String| s@)
}

/// A component that stays where it is put: not empty, not `.` or `..`, without
/// separators or colons.
pub open spec fn plain_component(c: Seq<char>) -> bool {
    &&& c.len() > 0
    &&& c != "."@
    &&& c != ".."@
    &&& !has_colon(c)
    &&& forall|j: int| 0 <= j < c.len() ==> !is_separator(#[trigger] c[j])
}

/// Once a prefix of the pieces escapes, every longer sequence escapes too.
proof fn lemma_resolve_failure_persists(parts: Seq<Seq<char>>, k: int)
    requires
        0 <= k <= parts.len(),
        resolve(parts.subrange(0, k)) is None,
    ensures
        resolve(parts) is None,
    decreases parts.len(),
{
    if k < parts.len() {
        assert(parts.drop_last().subrange(0, k) == parts.subrange(0, k));
        lemma_resolve_failure_persists(parts.drop_last(), k);
    } else {
        assert(parts.subrange(0, k) == parts);
    }
}

proof fn lemma_split_has_no_separators(s: Seq<char>)
    ensures
        split_path(s).len() > 0,
        forall|i: int, j: int|
            0 <= i < split_path(s).len() && 0 <= j < split_path(s)[i].len()
                ==> !is_separator(#[trigger] split_path(s)[i][j]),
    decreases s.len(),
{
    if s.len() > 0 {
        lemma_split_has_no_separators(s.drop_last());
        let init = split_path(s.drop_last());
        if !is_separator(s.last()) {
            assert forall|i: int, j: int|
                0 <= i < split_path(s).len() && 0 <= j < split_path(s)[i].len()
                    implies !is_separator(#[trigger] split_path(s)[i][j]) by {
                if i < init.len() - 1 {
                    assert(split_path(s)[i] == init[i]);
                } else if j < init.last().len() {
                    assert(split_path(s)[i][j] == init.last()[j]);
                }
            }
        } else {
            assert forall|i: int, j: int|
                0 <= i < split_path(s).len() && 0 <= j < split_path(s)[i].len()
                    implies !is_separator(#[trigger] split_path(s)[i][j]) by {
                assert(split_path(s)[i] == init[i]);
            }
        }
    }
}

proof fn lemma_resolve_keeps_plain(parts: Seq<Seq<char>>)
    requires
        forall|i: int, j: int|
            0 <= i < parts.len() && 0 <= j < parts[i].len() ==> !is_separator(#[trigger] parts[i][j]),
    ensures
        resolve(parts) matches Some(acc) ==> forall|k: int|
            0 <= k < acc.len() ==> plain_component(#[trigger] acc[k]),
    decreases parts.len(),
{
    if parts.len() > 0 {
        let init = parts.drop_last();
        assert forall|i: int, j: int| 0 <= i < init.len() && 0 <= j < init[i].len()
            implies !is_separator(#[trigger] init[i][j]) by {
            assert(init[i] == parts[i]);
        }
        lemma_resolve_keeps_plain(init);
        let c = parts.last();
        assert forall|j: int| 0 <= j < c.len() implies !is_separator(#[trigger] c[j]) by {
            assert(c[j] == parts[parts.len() - 1][j]);
        }
    }
}

/// Confinement: every component of an accepted entry name is a plain name, so
/// joining the components below the destination directory cannot leave it.
pub proof fn lemma_sanitized_path_is_confined(name: Seq<char>)
    ensures
        sanitize_spec(name) matches Some(p) ==> forall|k: int|
            0 <= k < p.len() ==> plain_component(#[trigger] p[k]),
{
    lemma_split_has_no_separators(name);
    let parts = split_path(name);
    let kept = strip_drive(parts);
    assert forall|i: int, j: int| 0 <= i < kept.len() && 0 <= j < kept[i].len()
        implies !is_separator(#[trigger] kept[i][j]) by {
        if parts.len() > 0 && is_drive_prefix(parts[0]) {
            assert(kept[i] == parts[i + 1]);
        }
    }
    lemma_resolve_keeps_plain(kept);
}

proof fn lemma_split_after_separator(s: Seq<char>, t: Seq<char>)
    requires
        s.len() > 0,
        is_separator(s.last()),
    ensures
        split_path(s + t) == split_path(s).drop_last() + split_path(t),
    decreases t.len(),
{
    lemma_split_has_no_separators(s);
    lemma_split_has_no_separators(t);
    if t.len() == 0 {
        assert(s + t == s);
        assert(split_path(s).drop_last() + split_path(t) =~= split_path(s));
    } else {
        let u = s + t;
        assert(u.drop_last() == s + t.drop_last());
        assert(u.last() == t.last());
        lemma_split_after_separator(s, t.drop_last());
        lemma_split_has_no_separators(t.drop_last());
        let a = split_path(s).drop_last();
        let b = split_path(t.drop_last());
        if is_separator(t.last()) {
            assert((a + b).push(Seq::<char>::empty()) =~= a + b.push(Seq::<char>::empty()));
        } else {
            assert((a + b).update((a + b).len() - 1, (a + b).last().push(t.last())) =~= a + b.update(
                b.len() - 1,
                b.last().push(t.last()),
            ));
        }
    }
}

/// A name that starts by climbing out of the destination (`../` or `..\`) is
/// rejected, whatever follows.
pub proof fn lemma_leading_parent_is_rejected(sep: char, rest: Seq<char>)
    requires
        is_separator(sep),
    ensures
        sanitize_spec(seq!['.', '.', sep] + rest) is None,
{
    let head = seq!['.', '.', sep];
    lemma_split_after_separator(head, rest);
    assert(head.drop_last() == seq!['.', '.']);
    assert(seq!['.', '.'].drop_last() == seq!['.']);
    assert(seq!['.'].drop_last() == Seq::<char>::empty());
    reveal_with_fuel(split_path, 4);
    assert(split_path(seq!['.']) =~= seq![seq!['.']]);
    assert(seq!['.'].push('.') =~= seq!['.', '.']);
    assert(seq!['.', '.'].last() == '.');
    assert(split_path(seq!['.', '.']) =~= seq![seq!['.', '.']]);
    assert(split_path(head) =~= seq![seq!['.', '.'], Seq::<char>::empty()]);
    let parts = split_path(head + rest);
    lemma_split_has_no_separators(rest);
    assert(parts[0] == seq!['.', '.']);
    assert(!is_drive_prefix(parts[0]));
    assert(strip_drive(parts) == parts);
    reveal_strlit("..");
    reveal_strlit(".");
    assert(seq!['.', '.'] =~= ".."@);
    assert(".."@.len() == 2 && "."@.len() == 1);
    let first = parts.subrange(0, 1);
    assert(first.drop_last() == Seq::<Seq<char>>::empty());
    assert(first.last() == ".."@);
    assert(resolve(Seq::<Seq<char>>::empty()) == Some(Seq::<Seq<char>>::empty()));
    assert(".."@ != "."@);
    assert(resolve(first) is None);
    lemma_resolve_failure_persists(parts, 1);
}

/// A sanitized entry path: components relative to the destination directory.
#[derive(Debug)]
pub struct EntryPath {
    pub components: Vec<String>,
    pub is_dir: bool,
}

impl EntryPath {
    pub open spec fn view_components(&self) -> Seq<Seq<char>> {
        views(self.components@)
    }
}

fn split_pieces(name: &str) -> (r: Vec<String>)
    ensures
        views(r@) == split_path(name@),
{
    let n = name.unicode_len();
    let mut pieces: Vec<String> = Vec::new();
    let mut current = String::new();
    let mut i: usize = 0;
    assert(name@.subrange(0, 0) == Seq::<char>::empty());
    while i < n
        invariant
            n == name@.len(),
            i <= n,
            views(pieces@).push(current@) == split_path(name@.subrange(0, i as int)),
        decreases n - i,
    {
        let c = name.get_char(i);
        proof {
            let s = name@.subrange(0, i + 1);
            assert(s.drop_last() == name@.subrange(0, i as int));
            assert(s.last() == c);
        }
        if c == '/' || c == '\\' {
            let done = current;
            proof {
                assert(views(pieces@.push(done)) == views(pieces@).push(done@));
            }
            pieces.push(done);
            current = String::new();
        } else {
            push_char(&mut current, c);
        }
        i = i + 1;
    }
    assert(name@.subrange(0, n as int) == name@);
    let last = current;
    proof {
        assert(views(pieces@.push(last)) == views(pieces@).push(last@));
    }
    pieces.push(last);
    pieces
}

fn contains_colon(s: &str) -> (r: bool)
    ensures
        r == has_colon(s@),
{
    let n = s.unicode_len();
    let mut i: usize = 0;
    while i < n
        invariant
            n == s@.len(),
            i <= n,
            forall|j: int| 0 <= j < i ==> s@[j] != ':',
        decreases n - i,
    {
        if s.get_char(i) == ':' {
            assert(s@[i as int] == ':');
            return true;
        }
        i = i + 1;
    }
    false
}

fn is_drive_piece(s: &str) -> (r: bool)
    ensures
        r == is_drive_prefix(s@),
{
    if s.unicode_len() != 2 {
        return false;
    }
    let c = s.get_char(0);
    s.get_char(1) == ':' && (('a' <= c && c <= 'z') || ('A' <= c && c <= 'Z'))
}

/// Resolves a stored entry name to components under the destination
/// directory; `None` when the name leaves the destination. A name that
/// resolves to the destination itself gives no components and counts as a
/// directory.
pub fn sanitize_entry_name(name: &str) -> (r: Option<EntryPath>)
    ensures
        r is None <==> sanitize_spec(name@) is None,
        r matches Some(p) ==> sanitize_spec(name@) == Some(p.view_components())
            && p.is_dir == denotes_directory(name@),
{
    let pieces = split_pieces(name);
    let ghost all = split_path(name@);
    let start: usize = if pieces.len() > 0 && is_drive_piece(pieces[0].as_str()) {
        1
    } else {
        0
    };
    let ghost parts = strip_drive(all);
    assert(parts == all.subrange(start as int, all.len() as int));
    let mut acc: Vec<String> = Vec::new();
    let mut i: usize = start;
    assert(parts.subrange(0, 0) == Seq::<Seq<char>>::empty());
    while i < pieces.len()
        invariant
            parts == strip_drive(split_path(name@)),
            views(pieces@) == all,
            parts == all.subrange(start as int, all.len() as int),
            start <= i <= pieces.len(),
            resolve(parts.subrange(0, i - start)) == Some(views(acc@)),
        decreases pieces.len() - i,
    {
        let piece = &pieces[i];
        let ghost k = i - start;
        proof {
            let pre = parts.subrange(0, k + 1);
            assert(pre.drop_last() == parts.subrange(0, k));
            assert(pre.last() == piece@);
        }
        if piece.unicode_len() == 0 || str_equal(piece.as_str(), ".") {
        } else if str_equal(piece.as_str(), "..") {
            if acc.len() == 0 {
                proof {
                    let pre = parts.subrange(0, k + 1);
                    assert(views(acc@).len() == 0);
                    assert(resolve(pre) is None);
                    lemma_resolve_failure_persists(parts, k + 1);
                }
                return None;
            }
            let ghost before = acc@;
            acc.pop();
            proof {
                assert(views(acc@) =~= views(before).drop_last());
            }
        } else if contains_colon(piece.as_str()) {
            proof {
                let pre = parts.subrange(0, k + 1);
                assert(resolve(pre) is None);
                lemma_resolve_failure_persists(parts, k + 1);
            }
            return None;
        } else {
            let kept = piece.clone();
            proof {
                assert(views(acc@.push(kept)) =~= views(acc@).push(kept@));
            }
            acc.push(kept);
        }
        i = i + 1;
    }
    assert(parts.subrange(0, pieces.len() - start) == parts);
    let n = name.unicode_len();
    let written_as_dir = n > 0 && {
        let c = name.get_char(n - 1);
        c == '/' || c == '\\'
    };
    proof {
        assert(views(acc@).len() == 0 ==> views(acc@) =~= Seq::<Seq<char>>::empty());
    }
    let is_dir = written_as_dir || acc.len() == 0;
    Some(EntryPath { components: acc, is_dir })
}

} // verus!
