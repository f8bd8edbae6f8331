//! Entry paths inside a pass repository, read the way `std::path` reads a
//! relative path whose segments are separated by single `/` characters.

use vstd::prelude::*;

use crate::text::{concat_strs, string_of};

verus! {

/// Position of the last occurrence of `c` in `s`, or -1.
pub open spec fn last_index_of(s: Seq<char>, c: char) -> int
    decreases s.len(),
{
    if s.len() == 0 {
        -1
    } else if s.last() == c {
        s.len() - 1
    } else {
        last_index_of(s.drop_last(), c)
    }
}

/// Where the last segment of a path starts.
pub open spec fn name_start(p: Seq<char>) -> int {
    last_index_of(p, '/') + 1
}

/// The length of a path once trailing separators and trailing `.` segments are
/// dropped, which name nothing of their own.
pub open spec fn trimmed_len(p: Seq<char>) -> nat
    decreases p.len(),
{
    if p.len() > 0 && p.last() == '/' {
        trimmed_len(p.drop_last())
    } else if p.len() >= 2 && p.last() == '.' && p[p.len() - 2] == '/' {
        trimmed_len(p.drop_last())
    } else {
        p.len()
    }
}

/// The path without its trailing separators and trailing `.` segments.
pub open spec fn trimmed(p: Seq<char>) -> Seq<char> {
    p.subrange(0, trimmed_len(p) as int)
}

/// The segment after the last separator, if it names a file or directory
/// (an empty segment, `.` and `..` name none).
pub open spec fn last_segment_name(t: Seq<char>) -> Option<Seq<char>> {
    let seg = t.subrange(name_start(t), t.len() as int);
    if seg.len() == 0 || seg == seq!['.'] || seg == seq!['.', '.'] {
        None
    } else {
        Some(seg)
    }
}

/// The last segment of a path, if it names a file or directory
/// (`Path::file_name`: trailing separators and `.` segments are skipped).
pub open spec fn file_name(p: Seq<char>) -> Option<Seq<char>> {
    last_segment_name(trimmed(p))
}

/// Where the stem of a file name ends: at its last `.`, unless that dot
/// is absent or leads the name.
pub open spec fn stem_end(name: Seq<char>) -> int {
    let k = last_index_of(name, '.');
    if k <= 0 {
        name.len() as int
    } else {
        k
    }
}

/// The file name without its extension (`Path::file_stem`).
pub open spec fn file_stem(p: Seq<char>) -> Option<Seq<char>> {
    match file_name(p) {
        Some(name) => Some(name.subrange(0, stem_end(name))),
        None => None,
    }
}

/// The path with the extension of its file name removed
/// (`PathBuf::set_extension("")`).
pub open spec fn without_extension(p: Seq<char>) -> Seq<char> {
    match file_name(p) {
        Some(name) => p.subrange(0, name_start(trimmed(p)) + stem_end(name)),
        None => p,
    }
}

/// `root` joined with `rel` (`Path::join`): an absolute `rel` replaces the root,
/// otherwise one separator is put between them when the root needs one.
pub open spec fn join(root: Seq<char>, rel: Seq<char>) -> Seq<char> {
    if rel.len() > 0 && rel[0] == '/' {
        rel
    } else if root.len() == 0 || root.last() == '/' {
        root + rel
    } else {
        root + seq!['/'] + rel
    }
}

/// The part of `full` below `root`, when `full` lies under `root`.
pub open spec fn strip_root(root: Seq<char>, full: Seq<char>) -> Option<Seq<char>> {
    if root.is_prefix_of(full) {
        let rest = full.subrange(root.len() as int, full.len() as int);
        if rest.len() == 0 {
            Some(rest)
        } else if rest[0] == '/' {
            Some(rest.drop_first())
        } else if root.len() > 0 && root.last() == '/' {
            Some(rest)
        } else {
            None
        }
    } else {
        None
    }
}

proof fn lemma_last_index_bounds(s: Seq<char>, c: char)
    ensures
        -1 <= last_index_of(s, c) < s.len(),
        last_index_of(s, c) >= 0 ==> s[last_index_of(s, c)] == c,
        forall|j: int| last_index_of(s, c) < j < s.len() ==> s[j] != c,
    decreases s.len(),
{
    if s.len() > 0 && s.last() != c {
        lemma_last_index_bounds(s.drop_last(), c);
        assert forall|j: int| last_index_of(s, c) < j < s.len() implies s[j] != c by {
            if j < s.len() - 1 {
                assert(s.drop_last()[j] == s[j]);
            }
        }
    }
}

proof fn lemma_trimmed_len_bound(p: Seq<char>)
    ensures
        trimmed_len(p) <= p.len(),
    decreases p.len(),
{
    if p.len() > 0 {
        lemma_trimmed_len_bound(p.drop_last());
    }
}

/// The length of `p` once trailing separators and trailing `.` segments are dropped.
fn trim_bound(p: &Vec<char>) -> (r: usize)
    ensures
        r == trimmed_len(p@),
        r <= p@.len(),
{
    proof {
        lemma_trimmed_len_bound(p@);
    }
    let mut i = p.len();
    assert(p@.subrange(0, p@.len() as int) =~= p@);
    while i > 0
        invariant
            i <= p@.len(),
            trimmed_len(p@) == trimmed_len(p@.subrange(0, i as int)),
        decreases i,
    {
        let ghost pre = p@.subrange(0, i as int);
        assert(pre.drop_last() =~= p@.subrange(0, i - 1));
        if p[i - 1] == '/' {
            i = i - 1;
        } else if i >= 2 && p[i - 1] == '.' && p[i - 2] == '/' {
            assert(pre[pre.len() - 2] == p@[i - 2]);
            i = i - 1;
        } else {
            proof {
                if i >= 2 {
                    assert(pre[pre.len() - 2] == p@[i - 2]);
                }
            }
            return i;
        }
    }
    assert(p@.subrange(0, 0).len() == 0);
    0
}

/// The first `n` characters of `p`.
fn prefix_chars(p: &Vec<char>, n: usize) -> (r: Vec<char>)
    requires
        n <= p@.len(),
    ensures
        r@ == p@.subrange(0, n as int),
{
    let mut out: Vec<char> = Vec::new();
    let mut i: usize = 0;
    while i < n
        invariant
            i <= n <= p@.len(),
            out@ == p@.subrange(0, i as int),
        decreases n - i,
    {
        out.push(p[i]);
        assert(out@ =~= p@.subrange(0, i + 1));
        i = i + 1;
    }
    out
}

/// One past the position of the last occurrence of `c` in `s` (0 when there is none).
pub fn after_last(s: &Vec<char>, c: char) -> (r: usize)
    ensures
        r == last_index_of(s@, c) + 1,
        r <= s@.len(),
{
    let mut i = s.len();
    assert(s@.subrange(0, s@.len() as int) =~= s@);
    while i > 0
        invariant
            i <= s@.len(),
            last_index_of(s@, c) == last_index_of(s@.subrange(0, i as int), c),
        decreases i,
    {
        let ghost pre = s@.subrange(0, i as int);
        assert(pre.drop_last() =~= s@.subrange(0, i - 1));
        if s[i - 1] == c {
            return i;
        }
        i = i - 1;
    }
    assert(s@.subrange(0, 0) =~= Seq::<char>::empty());
    0
}

/// The characters of `s` from `from` up to `to`, as a string.
pub fn substring(s: &Vec<char>, from: usize, to: usize) -> (r: String)
    requires
        from <= to <= s@.len(),
    ensures
        r@ == s@.subrange(from as int, to as int),
{
    let mut part: Vec<char> = Vec::new();
    let mut i = from;
    while i < to
        invariant
            from <= i <= to <= s@.len(),
            part@ == s@.subrange(from as int, i as int),
        decreases to - i,
    {
        part.push(s[i]);
        assert(part@ =~= s@.subrange(from as int, i + 1));
        i = i + 1;
    }
    string_of(&part)
}

/// Where the last segment of an already trimmed path `p` starts, and whether it
/// names a file.
fn name_bounds(p: &Vec<char>) -> (r: (usize, bool))
    ensures
        r.0 == name_start(p@),
        r.0 <= p@.len(),
        r.1 == last_segment_name(p@) is Some,
{
    proof {
        lemma_last_index_bounds(p@, '/');
    }
    let start = after_last(p, '/');
    let len = p.len() - start;
    let named = if len == 0 {
        false
    } else if len == 1 && p[start] == '.' {
        false
    } else if len == 2 && p[start] == '.' && p[start + 1] == '.' {
        false
    } else {
        true
    };
    proof {
        let seg = p@.subrange(start as int, p@.len() as int);
        let one = seq!['.'];
        let two = seq!['.', '.'];
        assert(seg.len() == len);
        assert(one.len() == 1 && one[0] == '.');
        assert(two.len() == 2 && two[0] == '.' && two[1] == '.');
        if len == 1 {
            if p@[start as int] == '.' {
                assert(seg =~= one);
            } else {
                assert(seg[0] != one[0]);
            }
        }
        if len == 2 {
            if p@[start as int] == '.' && p@[start + 1] == '.' {
                assert(seg =~= two);
            } else {
                assert(seg[0] != two[0] || seg[1] != two[1]);
            }
        }
    }
    (start, named)
}

/// Where the stem of the file name that starts at `start` ends, counted in `p`.
fn stem_bound(p: &Vec<char>, start: usize) -> (r: usize)
    requires
        start <= p@.len(),
    ensures
        r == start + stem_end(p@.subrange(start as int, p@.len() as int)),
        start <= r <= p@.len(),
{
    proof {
        lemma_last_index_bounds(p@.subrange(start as int, p@.len() as int), '.');
    }
    let ghost name = p@.subrange(start as int, p@.len() as int);
    let mut i = p.len();
    assert(name.subrange(0, p@.len() - start) =~= name);
    while i > start
        invariant
            start <= i <= p@.len(),
            name == p@.subrange(start as int, p@.len() as int),
            last_index_of(name, '.') == last_index_of(name.subrange(0, i - start), '.'),
        decreases i,
    {
        let ghost pre = name.subrange(0, i - start);
        assert(pre.drop_last() =~= name.subrange(0, i - 1 - start));
        if p[i - 1] == '.' {
            assert(pre.last() == '.');
            if i - 1 == start {
                return p.len();
            }
            return i - 1;
        }
        i = i - 1;
    }
    assert(name.subrange(0, 0) =~= Seq::<char>::empty());
    p.len()
}

/// The file stem of a path (`Path::file_stem`).
pub fn path_file_stem(path: &str) -> (r: Option<String>)
    ensures
        r matches Some(s) ==> file_stem(path@) == Some(s@),
        r is None ==> file_stem(path@) is None,
{
    let p = crate::text::chars_of(path);
    let t = prefix_chars(&p, trim_bound(&p));
    let (start, named) = name_bounds(&t);
    if !named {
        return None;
    }
    let end = stem_bound(&t, start);
    proof {
        let name = t@.subrange(start as int, t@.len() as int);
        assert(name.subrange(0, stem_end(name)) =~= t@.subrange(start as int, end as int));
    }
    Some(substring(&t, start, end))
}

/// The path with the extension of its file name removed.
pub fn path_without_extension(path: &str) -> (r: String)
    ensures
        r@ == without_extension(path@),
{
    let p = crate::text::chars_of(path);
    let t = prefix_chars(&p, trim_bound(&p));
    let (start, named) = name_bounds(&t);
    if !named {
        assert(p@.subrange(0, p@.len() as int) =~= p@);
        return substring(&p, 0, p.len());
    }
    let end = stem_bound(&t, start);
    substring(&p, 0, end)
}


/// `root` joined with `rel` (`Path::join`).
pub fn join_paths(root: &str, rel: &str) -> (r: String)
    ensures
        r@ == join(root@, rel@),
{
    let rc = crate::text::chars_of(rel);
    let oc = crate::text::chars_of(root);
    if rc.len() > 0 && rc[0] == '/' {
        return rel.to_owned();
    }
    if oc.len() == 0 || oc[oc.len() - 1] == '/' {
        return concat_strs(root, rel);
    }
    let with_sep = concat_strs(root, "/");
    proof {
        reveal_strlit("/");
    }
    assert(with_sep@ =~= root@ + seq!['/']);
    concat_strs(with_sep.as_str(), rel)
}

/// Whether `prefix` is a prefix of `s`.
fn chars_start_with(s: &Vec<char>, prefix: &Vec<char>) -> (r: bool)
    ensures
        r == prefix@.is_prefix_of(s@),
{
    if prefix.len() > s.len() {
        return false;
    }
    let mut i: usize = 0;
    while i < prefix.len()
        invariant
            prefix@.len() <= s@.len(),
            i <= prefix@.len(),
            forall|j: int| 0 <= j < i ==> prefix@[j] == s@[j],
        decreases prefix@.len() - i,
    {
        if prefix[i] != s[i] {
            return false;
        }
        i = i + 1;
    }
    true
}

/// The part of `full` below `root`, when `full` lies under `root`.
pub fn strip_root_of(root: &str, full: &str) -> (r: Option<String>)
    ensures
        r matches Some(s) ==> strip_root(root@, full@) == Some(s@),
        r is None ==> strip_root(root@, full@) is None,
{
    let oc = crate::text::chars_of(root);
    let fc = crate::text::chars_of(full);
    if !chars_start_with(&fc, &oc) {
        return None;
    }
    let n = oc.len();
    let m = fc.len();
    if n == m {
        return Some(substring(&fc, n, m));
    }
    if fc[n] == '/' {
        let r = substring(&fc, n + 1, m);
        assert(fc@.subrange(n as int, m as int).drop_first() =~= fc@.subrange(n + 1, m as int));
        return Some(r);
    }
    if n > 0 && oc[n - 1] == '/' {
        return Some(substring(&fc, n, m));
    }
    None
}

/// The suffix that names an encrypted pass entry.
pub open spec fn gpg_suffix() -> Seq<char> {
    seq!['.', 'g', 'p', 'g']
}

/// Whether a file name ends with `.gpg`.
pub open spec fn is_gpg_name(name: Seq<char>) -> bool {
    gpg_suffix().is_suffix_of(name)
}

/// Whether the last segment of `path` names a file ending with `.gpg`.
pub open spec fn names_gpg_file(path: Seq<char>) -> bool {
    match file_name(path) {
        Some(name) => is_gpg_name(name),
        None => false,
    }
}

/// Whether `s` ends with `.gpg`.
pub fn chars_end_with_gpg(s: &Vec<char>) -> (r: bool)
    ensures
        r == is_gpg_name(s@),
{
    let suffix: Vec<char> = vec!['.', 'g', 'p', 'g'];
    assert(suffix@ =~= gpg_suffix());
    let n = s.len();
    if n < 4 {
        return false;
    }
    let mut i: usize = 0;
    while i < 4
        invariant
            n == s@.len(),
            n >= 4,
            suffix@ == gpg_suffix(),
            i <= 4,
            forall|j: int| 0 <= j < i ==> suffix@[j] == s@[n - 4 + j],
        decreases 4 - i,
    {
        if suffix[i] != s[n - 4 + i] {
            return false;
        }
        i = i + 1;
    }
    true
}

/// Whether the last segment of `path` names a file ending with `.gpg`.
pub fn path_names_gpg_file(path: &str) -> (r: bool)
    ensures
        r == names_gpg_file(path@),
{
    let p = crate::text::chars_of(path);
    let t = prefix_chars(&p, trim_bound(&p));
    let (start, named) = name_bounds(&t);
    if !named {
        return false;
    }
    let mut name: Vec<char> = Vec::new();
    let mut i = start;
    while i < t.len()
        invariant
            start <= i <= t@.len(),
            name@ == t@.subrange(start as int, i as int),
        decreases t@.len() - i,
    {
        name.push(t[i]);
        assert(name@ =~= t@.subrange(start as int, i + 1));
        i = i + 1;
    }
    chars_end_with_gpg(&name)
}


/// What the user sees of a path is the path cut short: the extension is dropped,
/// directories are kept.
pub proof fn law_extension_removal_keeps_prefix(p: Seq<char>)
    ensures
        without_extension(p).is_prefix_of(p),
{
    lemma_trimmed_len_bound(p);
    lemma_last_index_bounds(trimmed(p), '/');
    match file_name(p) {
        Some(name) => {
            lemma_last_index_bounds(name, '.');
        },
        None => {},
    }
}

/// No empty segment: no two separators in a row.
pub open spec fn no_empty_segment(p: Seq<char>) -> bool {
    forall|i: int| 0 <= i < p.len() - 1 ==> !(p[i] == '/' && #[trigger] p[i + 1] == '/')
}

/// Joining an entry's path below the root back onto the root gives the file found
/// by the walk: an entry is read from the very file it was listed for.
pub proof fn law_joined_path_is_walked_path(root: Seq<char>, full: Seq<char>)
    requires
        root.len() > 0,
        no_empty_segment(full),
        strip_root(root, full) matches Some(rel) && rel.len() > 0,
    ensures
        join(root, strip_root(root, full)->0) == full,
{
    let rel = strip_root(root, full)->0;
    let rest = full.subrange(root.len() as int, full.len() as int);
    assert(root =~= full.subrange(0, root.len() as int));
    if rest[0] == '/' {
        assert(rel =~= full.subrange(root.len() + 1int, full.len() as int));
        if rel[0] == '/' {
            assert(full[root.len() as int] == '/' && full[root.len() + 1int] == '/');
        }
        if root.last() == '/' {
            assert(full[root.len() - 1] == '/' && full[root.len() - 1 + 1] == '/');
        }
        assert(root + seq!['/'] + rel =~= full);
    } else {
        assert(rel =~= rest);
        assert(root + rel =~= full);
    }
}

proof fn lemma_last_index_concat(s: Seq<char>, t: Seq<char>, c: char)
    ensures
        last_index_of(s + t, c) == (if last_index_of(t, c) >= 0 {
            s.len() + last_index_of(t, c)
        } else {
            last_index_of(s, c)
        }),
    decreases t.len(),
{
    if t.len() == 0 {
        assert(s + t =~= s);
    } else {
        assert((s + t).drop_last() =~= s + t.drop_last());
        assert((s + t).last() == t.last());
        lemma_last_index_concat(s, t.drop_last(), c);
    }
}

proof fn lemma_no_occurrence(t: Seq<char>, c: char)
    requires
        forall|j: int| 0 <= j < t.len() ==> t[j] != c,
    ensures
        last_index_of(t, c) == -1,
{
    lemma_last_index_bounds(t, c);
}

/// A path made of a directory part (empty, or ending with a separator), a name
/// without separators and the `.gpg` suffix names a `.gpg` file whose stem is
/// that name, and removing its extension leaves the directory part and the name:
/// only the last extension goes, whatever dots the name holds.
pub proof fn law_gpg_file_parts(dir: Seq<char>, name: Seq<char>)
    requires
        dir.len() == 0 || dir.last() == '/',
        name.len() > 0,
        forall|j: int| 0 <= j < name.len() ==> name[j] != '/',
    ensures
        file_name(dir + name + gpg_suffix()) == Some(name + gpg_suffix()),
        file_stem(dir + name + gpg_suffix()) == Some(name),
        without_extension(dir + name + gpg_suffix()) == dir + name,
        names_gpg_file(dir + name + gpg_suffix()),
{
    let g = gpg_suffix();
    let leaf = name + g;
    let p = dir + name + g;
    assert(p =~= dir + leaf);
    reveal_with_fuel(last_index_of, 5);
    assert(last_index_of(g, '/') == -1);
    assert(last_index_of(g, '.') == 0);
    lemma_no_occurrence(name, '/');
    lemma_last_index_concat(name, g, '/');
    lemma_last_index_concat(name, g, '.');
    lemma_last_index_concat(dir, leaf, '/');
    assert(last_index_of(leaf, '/') == -1);
    assert(last_index_of(leaf, '.') == name.len());
    if dir.len() > 0 {
        assert(last_index_of(dir, '/') == dir.len() - 1);
    }
    assert(name_start(p) == dir.len());
    assert(p.last() == 'g');
    assert(trimmed_len(p) == p.len());
    assert(trimmed(p) =~= p);
    assert(p.subrange(dir.len() as int, p.len() as int) =~= leaf);
    assert(leaf.len() >= 5);
    assert(leaf != seq!['.']);
    assert(leaf != seq!['.', '.']);
    assert(file_name(p) == Some(leaf));
    assert(stem_end(leaf) == name.len());
    assert(leaf.subrange(0, name.len() as int) =~= name);
    assert(p.subrange(0, (dir.len() + name.len()) as int) =~= dir + name);
    assert(g.is_suffix_of(leaf)) by {
        assert(leaf.subrange(leaf.len() - g.len(), leaf.len() as int) =~= g);
    }
}

} // verus!
