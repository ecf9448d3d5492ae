//! Paths are `/`-separated strings; only their final component, the file
//! name, is ever inspected.

use vstd::prelude::*;

verus! {

/// The path separator.
pub open spec fn is_separator(c: char) -> bool {
    c == '/'
}

/// Index of the first character of the final component of `p`.
pub open spec fn last_component_start(p: Seq<char>) -> int
    decreases p.len(),
{
    if p.len() == 0 {
        0
    } else if is_separator(p.last()) {
        p.len() as int
    } else {
        last_component_start(p.drop_last())
    }
}

/// The file name of `p`: its final component, absent when that component is
/// empty, `.` or `..`.
pub open spec fn file_name_of(p: Seq<char>) -> Option<Seq<char>> {
    let name = p.subrange(last_component_start(p), p.len() as int);
    if name.len() == 0 || name == seq!['.'] || name == seq!['.', '.'] {
        None
    } else {
        Some(name)
    }
}

/// `s` ends with `suffix`.
pub open spec fn ends_with(s: Seq<char>, suffix: Seq<char>) -> bool {
    suffix.len() <= s.len() && s.subrange(s.len() - suffix.len(), s.len() as int) == suffix
}

/// The file name of `p` ends with `suffix`; false when `p` has no file name.
pub open spec fn file_name_ends_with_spec(p: Seq<char>, suffix: Seq<char>) -> bool {
    match file_name_of(p) {
        Some(name) => ends_with(name, suffix),
        None => false,
    }
}

/// The file name of `p` with `suffix` removed, when it ends with `suffix`.
pub open spec fn file_name_trim_end_spec(p: Seq<char>, suffix: Seq<char>) -> Option<Seq<char>> {
    match file_name_of(p) {
        Some(name) => if ends_with(name, suffix) {
            Some(name.subrange(0, name.len() - suffix.len()))
        } else {
            None
        },
        None => None,
    }
}

/// The path of the entry `name` inside the directory `dir`.
pub open spec fn join_spec(dir: Seq<char>, name: Seq<char>) -> Seq<char> {
    if dir.len() == 0 {
        name
    } else if is_separator(dir.last()) {
        dir + name
    } else {
        dir + seq!['/'] + name
    }
}

/// The start of the final component is the position right after the last
/// separator, or 0 when there is none.
proof fn lemma_last_component_start_from_scan(p: Seq<char>, k: int)
    requires
        0 <= k <= p.len(),
        k > 0 ==> is_separator(p[k - 1]),
        forall|j: int| k <= j < p.len() ==> !is_separator(#[trigger] p[j]),
    ensures
        last_component_start(p) == k,
    decreases p.len(),
{
    if p.len() > 0 && k < p.len() {
        assert(!is_separator(p[p.len() - 1]));
        let q = p.drop_last();
        assert forall|j: int| k <= j < q.len() implies !is_separator(#[trigger] q[j]) by {
            assert(q[j] == p[j]);
        }
        if k > 0 {
            assert(q[k - 1] == p[k - 1]);
        }
        lemma_last_component_start_from_scan(q, k);
    }
}

/// Whether two strings hold the same characters.
pub fn str_eq(a: &str, b: &str) -> (r: bool)
    ensures
        r == (a@ == b@),
{
    let n = a.unicode_len();
    if n != b.unicode_len() {
        return false;
    }
    let mut i: usize = 0;
    while i < n
        invariant
            n == a@.len(),
            n == b@.len(),
            i <= n,
            forall|j: int| 0 <= j < i ==> a@[j] == b@[j],
        decreases n - i,
    {
        if a.get_char(i) != b.get_char(i) {
            return false;
        }
        i = i + 1;
    }
    assert(a@ =~= b@);
    true
}

/// Whether `s` ends with `suffix`, compared character by character.
pub fn str_ends_with(s: &str, suffix: &str) -> (r: bool)
    ensures
        r == ends_with(s@, suffix@),
{
    let n = s.unicode_len();
    let m = suffix.unicode_len();
    if m > n {
        return false;
    }
    let off: usize = n - m;
    let mut i: usize = 0;
    while i < m
        invariant
            n == s@.len(),
            m == suffix@.len(),
            off == n - m,
            i <= m,
            forall|j: int| 0 <= j < i ==> s@[off + j] == suffix@[j],
        decreases m - i,
    {
        if s.get_char(off + i) != suffix.get_char(i) {
            assert(s@.subrange(off as int, n as int)[i as int] != suffix@[i as int]);
            return false;
        }
        i = i + 1;
    }
    assert(s@.subrange(off as int, n as int) =~= suffix@);
    true
}

/// The file name of `path`, or `None` when its final component is empty,
/// `.` or `..`.
pub fn file_name(path: &str) -> (r: Option<&str>)
    ensures
        match r {
            Some(name) => file_name_of(path@) == Some(name@),
            None => file_name_of(path@) is None,
        },
{
    let n = path.unicode_len();
    let mut k: usize = n;
    while k > 0 && path.get_char(k - 1) != '/'
        invariant
            n == path@.len(),
            k <= n,
            forall|j: int| k <= j < n ==> !is_separator(#[trigger] path@[j]),
        decreases k,
    {
        k = k - 1;
    }
    proof {
        lemma_last_component_start_from_scan(path@, k as int);
    }
    let name = path.substring_char(k, n);
    let len = n - k;
    if len == 0 {
        return None;
    }
    if len == 1 && name.get_char(0) == '.' {
        assert(name@ =~= seq!['.']);
        return None;
    }
    if len == 2 && name.get_char(0) == '.' && name.get_char(1) == '.' {
        assert(name@ =~= seq!['.', '.']);
        return None;
    }
    assert(name@ != seq!['.'] && name@ != seq!['.', '.']) by {
        if len == 1 {
            assert(name@[0] != seq!['.'][0]);
        }
        if len == 2 {
            assert(name@[0] != seq!['.', '.'][0] || name@[1] != seq!['.', '.'][1]);
        }
    }
    Some(name)
}

/// Whether the file name of `path` ends with `suffix`.
pub fn file_name_ends_with(path: &str, suffix: &str) -> (r: bool)
    ensures
        r == file_name_ends_with_spec(path@, suffix@),
{
    match file_name(path) {
        Some(name) => str_ends_with(name, suffix),
        None => false,
    }
}

/// The file name of `path` with `suffix` removed, or `None` when the path has
/// no file name or the name does not end with `suffix`.
pub fn file_name_trim_end<'a>(path: &'a str, suffix: &str) -> (r: Option<&'a str>)
    ensures
        match r {
            Some(stem) => file_name_trim_end_spec(path@, suffix@) == Some(stem@),
            None => file_name_trim_end_spec(path@, suffix@) is None,
        },
{
    match file_name(path) {
        Some(name) => {
            if str_ends_with(name, suffix) {
                let n = name.unicode_len();
                let m = suffix.unicode_len();
                Some(name.substring_char(0, n - m))
            } else {
                None
            }
        },
        None => None,
    }
}

/// The path of the entry `name` inside the directory `dir`.
pub fn join(dir: &str, name: &str) -> (r: String)
    ensures
        r@ == join_spec(dir@, name@),
{
    let n = dir.unicode_len();
    if n == 0 {
        return name.to_owned();
    }
    let mut r = dir.to_owned();
    if dir.get_char(n - 1) != '/' {
        r.append("/");
        proof {
            reveal_strlit("/");
        }
    }
    r.append(name);
    r
}

/// `s` cannot end with `t` where `t` differs, at `i` characters from the end,
/// from a suffix `u` that `s` does end with.
pub proof fn lemma_differs_from_end(s: Seq<char>, t: Seq<char>, u: Seq<char>, i: int)
    requires
        ends_with(s, u),
        0 <= i < u.len(),
        i < t.len(),
        u[u.len() - 1 - i] != t[t.len() - 1 - i],
    ensures
        !ends_with(s, t),
{
    if ends_with(s, t) {
        assert(s.subrange(s.len() - u.len(), s.len() as int)[u.len() - 1 - i] == s[s.len() - 1 - i]);
        assert(s.subrange(s.len() - t.len(), s.len() as int)[t.len() - 1 - i] == s[s.len() - 1 - i]);
    }
}

/// The file name of an entry joined onto a directory is the entry's name,
/// when that name is a single component.
pub proof fn lemma_file_name_of_join(dir: Seq<char>, name: Seq<char>)
    requires
        name.len() > 0,
        name != seq!['.'],
        name != seq!['.', '.'],
        forall|i: int| 0 <= i < name.len() ==> !is_separator(#[trigger] name[i]),
    ensures
        file_name_of(join_spec(dir, name)) == Some(name),
{
    let p = join_spec(dir, name);
    let k = p.len() - name.len();
    assert forall|j: int| k <= j < p.len() implies !is_separator(#[trigger] p[j]) by {
        assert(p[j] == name[j - k]);
    }
    lemma_last_component_start_from_scan(p, k);
    assert(p.subrange(k, p.len() as int) =~= name);
}

} // verus!
