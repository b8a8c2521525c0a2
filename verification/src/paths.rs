//! Unix paths as character sequences, with the parts of `std::path` the library
//! relies on: joining, the final component, its stem and extension, and the
//! parent of a path.

use vstd::prelude::*;

use crate::text::{chars_of, push_chars, string_of};

verus! {

/// Whether a path starts at the root.
pub open spec fn is_absolute(p: Seq<char>) -> bool {
    p.len() > 0 && p[0] == '/'
}

/// `base.join(p)`: `p` itself when it is absolute, otherwise `p` appended after
/// a separator (none is added when `base` is empty or already ends in one).
pub open spec fn join(base: Seq<char>, p: Seq<char>) -> Seq<char> {
    if is_absolute(p) {
        p
    } else if base.len() > 0 && base.last() != '/' {
        base + seq!['/'] + p
    } else {
        base + p
    }
}

/// `p` with trailing separators and trailing `/.` components removed.
pub open spec fn trim_trailing(p: Seq<char>) -> Seq<char>
    decreases p.len(),
{
    if p.len() > 0 && p.last() == '/' {
        trim_trailing(p.drop_last())
    } else if p.len() >= 2 && p.last() == '.' && p[p.len() - 2] == '/' {
        trim_trailing(p.drop_last())
    } else {
        p
    }
}

/// Index just past the last separator in `p` (0 when there is none).
pub open spec fn last_sep_end(p: Seq<char>) -> nat
    decreases p.len(),
{
    if p.len() == 0 {
        0
    } else if p.last() == '/' {
        p.len()
    } else {
        last_sep_end(p.drop_last())
    }
}

/// The text after the last separator.
pub open spec fn last_segment(p: Seq<char>) -> Seq<char> {
    p.subrange(last_sep_end(p) as int, p.len() as int)
}

/// `Path::file_name`: the final component, unless the path ends in the root,
/// `.` or `..`.
pub open spec fn file_name(p: Seq<char>) -> Option<Seq<char>> {
    let seg = last_segment(trim_trailing(p));
    if seg.len() == 0 || seg == seq!['.'] || seg == seq!['.', '.'] {
        None
    } else {
        Some(seg)
    }
}

/// Index of the last `.` in `name`, if any.
pub open spec fn last_dot(name: Seq<char>) -> Option<nat>
    decreases name.len(),
{
    if name.len() == 0 {
        None
    } else if name.last() == '.' {
        Some((name.len() - 1) as nat)
    } else {
        last_dot(name.drop_last())
    }
}

/// `Path::file_stem` given the file name: the name before its last `.`, the
/// whole name when it has no `.` or its only `.` leads it.
pub open spec fn stem_of(name: Seq<char>) -> Seq<char> {
    match last_dot(name) {
        Some(i) => if i == 0 { name } else { name.subrange(0, i as int) },
        None => name,
    }
}

/// `Path::extension` given the file name: the text after its last `.`, unless
/// the name has no `.` or its only `.` leads it.
pub open spec fn extension_of(name: Seq<char>) -> Option<Seq<char>> {
    match last_dot(name) {
        Some(i) => if i == 0 { None } else { Some(name.subrange(i as int + 1, name.len() as int)) },
        None => None,
    }
}

/// A path written without redundant parts: not empty, no doubled separator,
/// no trailing separator (except for the root itself), and no `.` or `..`
/// component.
pub open spec fn is_plain(p: Seq<char>) -> bool {
    &&& p.len() > 0
    &&& (p.len() > 1 ==> p.last() != '/')
    &&& forall|i: int| 0 <= i < p.len() - 1 ==> !(#[trigger] p[i] == '/' && p[i + 1] == '/')
    &&& forall|i: int| 0 <= i < p.len() && #[trigger] p[i] == '.' ==> !(
        (i == 0 || p[i - 1] == '/') && (i + 1 == p.len() || p[i + 1] == '/'))
    &&& forall|i: int| 0 <= i < p.len() - 1 && #[trigger] p[i] == '.' && p[i + 1] == '.' ==> !(
        (i == 0 || p[i - 1] == '/') && (i + 2 == p.len() || p[i + 2] == '/'))
}

/// `Path::parent`: the path without its final component (trailing
/// separators and `.` components ignored), itself without trailing
/// separators; the root when only the root is left; nothing for the root
/// itself or an empty path.
pub open spec fn parent_of(p: Seq<char>) -> Option<Seq<char>> {
    let q = trim_trailing(p);
    if q.len() == 0 {
        None
    } else {
        let k = last_sep_end(q);
        if k == 0 {
            Some(Seq::<char>::empty())
        } else {
            let r = trim_trailing(q.subrange(0, k as int));
            if r.len() == 0 {
                Some(seq!['/'])
            } else {
                Some(r)
            }
        }
    }
}

/// `PathBuf::set_file_name` on a path that has a file name: the final
/// component replaced by `name` (the name joined onto the parent).
pub open spec fn with_file_name(p: Seq<char>, name: Seq<char>) -> Seq<char> {
    join(parent_of(p).unwrap_or(Seq::<char>::empty()), name)
}

/// The index past the last separator lies within the path, just after a
/// separator.
pub proof fn lemma_last_sep_end_bounds(p: Seq<char>)
    ensures
        last_sep_end(p) <= p.len(),
        last_sep_end(p) > 0 ==> p[last_sep_end(p) - 1] == '/',
        forall|i: int| last_sep_end(p) <= i < p.len() ==> p[i] != '/',
    decreases p.len(),
{
    if p.len() > 0 && p.last() != '/' {
        lemma_last_sep_end_bounds(p.drop_last());
        assert forall|i: int| last_sep_end(p) <= i < p.len() implies p[i] != '/' by {
            if i < p.len() - 1 {
                assert(p.drop_last()[i] == p[i]);
            }
        }
    }
}

/// Appending text without separators leaves the last separator where it was.
pub proof fn lemma_last_sep_end_append(s: Seq<char>, t: Seq<char>)
    requires
        forall|i: int| 0 <= i < t.len() ==> t[i] != '/',
    ensures
        last_sep_end(s + t) == last_sep_end(s),
    decreases t.len(),
{
    if t.len() == 0 {
        assert(s + t =~= s);
    } else {
        assert((s + t).last() == t.last());
        assert((s + t).drop_last() =~= s + t.drop_last());
        lemma_last_sep_end_append(s, t.drop_last());
    }
}

/// A plain path with a file name is its directory part (up to and including
/// the last separator) followed by the file name, and joining any relative
/// name onto its parent puts that name in place of the file name.
pub proof fn lemma_plain_parts(p: Seq<char>, x: Seq<char>)
    requires
        is_plain(p),
        file_name(p) is Some,
        x.len() > 0,
        x[0] != '/',
    ensures
        trim_trailing(p) == p,
        p != seq!['/'],
        parent_of(p) is Some,
        file_name(p)->0 == p.subrange(last_sep_end(p) as int, p.len() as int),
        p == p.subrange(0, last_sep_end(p) as int) + file_name(p)->0,
        join(parent_of(p)->0, x) == p.subrange(0, last_sep_end(p) as int) + x,
{
    let n = p.len();
    if n > 1 {
        assert(p.last() != '/');
    }
    if p.last() == '.' && n >= 2 && p[n - 2] == '/' {
        assert(p[n - 1] == '.');
    }
    assert(p != seq!['/']) by {
        if p =~= seq!['/'] {
            assert(p.last() == '/');
            let e = p.drop_last();
            assert(e =~= Seq::<char>::empty());
            assert(trim_trailing(e) == e);
            assert(trim_trailing(p) == trim_trailing(e));
            assert(last_segment(e) =~= Seq::<char>::empty());
            assert(file_name(p) is None);
        }
    }
    if p.len() > 0 && p.last() == '/' {
        assert(p.len() == 1);
        assert(p =~= seq!['/']);
    }
    assert(trim_trailing(p) == p);
    lemma_last_sep_end_bounds(p);
    let k = last_sep_end(p);
    assert(p =~= p.subrange(0, k as int) + p.subrange(k as int, n as int));
    if k >= 2 {
        assert(p[k - 1] == '/');
        assert(p[k - 2] != '/') by {
            if p[k - 2] == '/' {
                assert(p[k - 2] == '/' && p[k - 2 + 1] == '/');
            }
        }
        let t = p.subrange(0, k as int);
        let u = p.subrange(0, k - 1);
        assert(t.last() == '/');
        assert(t.drop_last() =~= u);
        assert(u.last() == p[k - 2]);
        if p[k - 2] == '.' && k >= 3 && p[k - 3] == '/' {
            assert(p[k - 2] == '.' && p[k - 3] == '/' && p[k - 1] == '/');
        }
        assert(trim_trailing(u) == u);
        assert(trim_trailing(t) == u);
        assert(u + seq!['/'] + x =~= p.subrange(0, k as int) + x);
    } else if k == 1 {
        let t = p.subrange(0, 1);
        assert(t.last() == '/');
        assert(t.drop_last() =~= Seq::<char>::empty());
        assert(trim_trailing(t.drop_last()) == Seq::<char>::empty());
        assert(seq!['/'] =~= p.subrange(0, 1));
    } else {
        assert(p.subrange(0, 0) =~= Seq::<char>::empty());
        assert(Seq::<char>::empty() + x =~= x);
    }
}

/// Index just past the last separator.
pub fn last_sep_end_exec(p: &Vec<char>) -> (k: usize)
    ensures
        k as nat == last_sep_end(p@),
        k <= p.len(),
{
    let mut k = p.len();
    assert(p@.subrange(0, k as int) =~= p@);
    while k > 0 && p[k - 1] != '/'
        invariant
            k <= p.len(),
            last_sep_end(p@) == last_sep_end(p@.subrange(0, k as int)),
        decreases k,
    {
        proof {
            assert(p@.subrange(0, k as int).drop_last() =~= p@.subrange(0, k - 1));
        }
        k = k - 1;
    }
    proof {
        if k > 0 {
            assert(p@.subrange(0, k as int).last() == '/');
        } else {
            assert(p@.subrange(0, 0) =~= Seq::<char>::empty());
        }
    }
    k
}

/// Removes trailing separators and trailing `/.` components.
pub fn trim_trailing_exec(p: &Vec<char>) -> (out: Vec<char>)
    ensures
        out@ == trim_trailing(p@),
{
    let mut k = p.len();
    assert(p@.subrange(0, k as int) =~= p@);
    while (k > 0 && p[k - 1] == '/') || (k >= 2 && p[k - 1] == '.' && p[k - 2] == '/')
        invariant
            k <= p.len(),
            trim_trailing(p@) == trim_trailing(p@.subrange(0, k as int)),
        decreases k,
    {
        proof {
            assert(p@.subrange(0, k as int).drop_last() =~= p@.subrange(0, k - 1));
        }
        k = k - 1;
    }
    let out = crate::text::sub_chars(p, 0, k);
    proof {
        let q = p@.subrange(0, k as int);
        assert(out@ == q);
        assert(trim_trailing(q) == q);
    }
    out
}

/// Index of the last `.`, if any.
pub fn last_dot_exec(name: &Vec<char>) -> (r: Option<usize>)
    ensures
        match r {
            Some(i) => last_dot(name@) == Some(i as nat) && i < name.len(),
            None => last_dot(name@) is None,
        },
{
    let mut k = name.len();
    assert(name@.subrange(0, k as int) =~= name@);
    while k > 0 && name[k - 1] != '.'
        invariant
            k <= name.len(),
            last_dot(name@) == last_dot(name@.subrange(0, k as int)),
        decreases k,
    {
        proof {
            assert(name@.subrange(0, k as int).drop_last() =~= name@.subrange(0, k - 1));
        }
        k = k - 1;
    }
    if k == 0 {
        proof {
            assert(name@.subrange(0, 0) =~= Seq::<char>::empty());
        }
        None
    } else {
        proof {
            assert(name@.subrange(0, k as int).last() == '.');
        }
        Some(k - 1)
    }
}

/// Whether a path is absolute.
pub fn is_absolute_exec(p: &Vec<char>) -> (r: bool)
    ensures
        r == is_absolute(p@),
{
    p.len() > 0 && p[0] == '/'
}

/// Whether a path is relative (does not start at the root).
pub fn is_relative(p: &str) -> (r: bool)
    ensures
        r == !is_absolute(p@),
{
    let c = chars_of(p);
    !is_absolute_exec(&c)
}

/// Joins `p` onto `base`.
pub fn join_chars(base: &Vec<char>, p: &Vec<char>) -> (out: Vec<char>)
    ensures
        out@ == join(base@, p@),
{
    if is_absolute_exec(p) {
        let mut out: Vec<char> = Vec::new();
        let mut i: usize = 0;
        while i < p.len()
            invariant
                i <= p.len(),
                out@ == p@.subrange(0, i as int),
            decreases p.len() - i,
        {
            out.push(p[i]);
            i = i + 1;
            assert(out@ =~= p@.subrange(0, i as int));
        }
        assert(p@.subrange(0, p.len() as int) =~= p@);
        out
    } else {
        let mut out = crate::text::sub_chars(base, 0, base.len());
        assert(out@ =~= base@);
        if base.len() > 0 && base[base.len() - 1] != '/' {
            out.push('/');
        }
        let ghost mid = out@;
        let mut i: usize = 0;
        while i < p.len()
            invariant
                i <= p.len(),
                out@ == mid + p@.subrange(0, i as int),
            decreases p.len() - i,
        {
            out.push(p[i]);
            i = i + 1;
            assert(out@ =~= mid + p@.subrange(0, i as int));
        }
        assert(p@.subrange(0, p.len() as int) =~= p@);
        assert(out@ =~= join(base@, p@));
        out
    }
}

/// `base.join(p)` on strings.
pub fn join_path(base: &str, p: &str) -> (out: String)
    ensures
        out@ == join(base@, p@),
{
    let b = chars_of(base);
    let q = chars_of(p);
    let j = join_chars(&b, &q);
    string_of(&j)
}

/// The final component of a path.
pub fn file_name_chars(p: &Vec<char>) -> (r: Option<Vec<char>>)
    ensures
        match r {
            Some(n) => file_name(p@) == Some(n@),
            None => file_name(p@) is None,
        },
{
    let q = trim_trailing_exec(p);
    let k = last_sep_end_exec(&q);
    let seg = crate::text::sub_chars(&q, k, q.len());
    if seg.len() == 0 || (seg.len() == 1 && seg[0] == '.') || (seg.len() == 2 && seg[0] == '.' && seg[1] == '.') {
        proof {
            if seg.len() == 1 {
                assert(seg@ =~= seq!['.']);
            }
            if seg.len() == 2 {
                assert(seg@ =~= seq!['.', '.']);
            }
        }
        None
    } else {
        proof {
            if seg@ == seq!['.'] {
                assert(seg@.len() == 1);
            }
            if seg@ == seq!['.', '.'] {
                assert(seg@.len() == 2);
            }
        }
        Some(seg)
    }
}

/// The file stem of a file name.
pub fn stem_chars(name: &Vec<char>) -> (s: Vec<char>)
    ensures
        s@ == stem_of(name@),
{
    match last_dot_exec(name) {
        Some(i) => {
            if i == 0 {
                crate::text::sub_chars(name, 0, name.len())
            } else {
                crate::text::sub_chars(name, 0, i)
            }
        },
        None => {
            let s = crate::text::sub_chars(name, 0, name.len());
            s
        },
    }
}

/// The extension of a file name.
pub fn extension_chars(name: &Vec<char>) -> (e: Option<Vec<char>>)
    ensures
        match e {
            Some(x) => extension_of(name@) == Some(x@),
            None => extension_of(name@) is None,
        },
{
    match last_dot_exec(name) {
        Some(i) => {
            if i == 0 {
                None
            } else {
                Some(crate::text::sub_chars(name, i + 1, name.len()))
            }
        },
        None => None,
    }
}

/// The parent of a path.
pub fn parent_chars(p: &Vec<char>) -> (r: Option<Vec<char>>)
    ensures
        match r {
            Some(x) => parent_of(p@) == Some(x@),
            None => parent_of(p@) is None,
        },
{
    let q = trim_trailing_exec(p);
    if q.len() == 0 {
        return None;
    }
    let k = last_sep_end_exec(&q);
    if k == 0 {
        return Some(Vec::new());
    }
    let pre = crate::text::sub_chars(&q, 0, k);
    let r = trim_trailing_exec(&pre);
    if r.len() == 0 {
        let mut root: Vec<char> = Vec::new();
        root.push('/');
        assert(root@ =~= seq!['/']);
        Some(root)
    } else {
        Some(r)
    }
}

/// Appends characters to a string built from a path.
pub fn path_string(p: &Vec<char>) -> (s: String)
    ensures
        s@ == p@,
{
    string_of(p)
}

/// Appends characters of `t` to `s`.
pub fn extend_chars(s: &mut Vec<char>, t: &Vec<char>)
    ensures
        final(s)@ == old(s)@ + t@,
{
    let ghost start = s@;
    let mut i: usize = 0;
    while i < t.len()
        invariant
            i <= t.len(),
            s@ == start + t@.subrange(0, i as int),
        decreases t.len() - i,
    {
        s.push(t[i]);
        i = i + 1;
        assert(s@ =~= start + t@.subrange(0, i as int));
    }
    assert(t@.subrange(0, t.len() as int) =~= t@);
}

} // verus!
