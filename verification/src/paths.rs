//! Unix path arithmetic on texts: the last component of a path, its
//! extension, and joining a component onto a base path.
use vstd::prelude::*;
use crate::text::owned;

verus! {

/// `p` without its trailing `/` separators.
pub open spec fn strip_trailing_separators(p: Seq<char>) -> Seq<char>
    decreases p.len(),
{
    if p.len() > 0 && p.last() == '/' {
        strip_trailing_separators(p.drop_last())
    } else {
        p
    }
}

/// The characters after the last `/` of `p` (all of `p` when it has none).
pub open spec fn final_segment(p: Seq<char>) -> Seq<char>
    decreases p.len(),
{
    if p.len() > 0 && p.last() != '/' {
        final_segment(p.drop_last()).push(p.last())
    } else {
        Seq::empty()
    }
}

pub proof fn lemma_strip_len(p: Seq<char>)
    ensures
        strip_trailing_separators(p).len() <= p.len(),
        strip_trailing_separators(p).len() > 0 ==> strip_trailing_separators(p).last() != '/',
        strip_trailing_separators(p) =~= p.take(strip_trailing_separators(p).len() as int),
    decreases p.len(),
{
    if p.len() > 0 && p.last() == '/' {
        lemma_strip_len(p.drop_last());
    }
}

pub proof fn lemma_final_segment_len(p: Seq<char>)
    ensures
        final_segment(p).len() <= p.len(),
        p.len() > 0 && p.last() != '/' ==> final_segment(p).len() > 0,
        final_segment(p) =~= p.skip(p.len() - final_segment(p).len()),
        forall|i: int| 0 <= i < final_segment(p).len() ==> final_segment(p)[i] != '/',
    decreases p.len(),
{
    if p.len() > 0 && p.last() != '/' {
        lemma_final_segment_len(p.drop_last());
    }
}

/// The last component of a path, as `Path::file_name` gives it on Unix:
/// repeated and trailing separators and `.` components are ignored, and a
/// path that ends in `..` (or has no normal component) has no file name.
pub open spec fn file_name_of(p: Seq<char>) -> Option<Seq<char>>
    decreases p.len(),
{
    let q = strip_trailing_separators(p);
    if q.len() == 0 {
        None
    } else {
        let seg = final_segment(q);
        let rest = q.take(q.len() - seg.len());
        if seg == seq!['.'] {
            proof {
                lemma_strip_len(p);
                lemma_final_segment_len(q);
            }
            file_name_of(rest)
        } else if seg == seq!['.', '.'] {
            None
        } else {
            Some(seg)
        }
    }
}

/// Index of the last `.` in `name`, or -1.
pub open spec fn last_dot(name: Seq<char>) -> int
    decreases name.len(),
{
    if name.len() == 0 {
        -1
    } else if name.last() == '.' {
        name.len() - 1
    } else {
        last_dot(name.drop_last())
    }
}

/// The extension of a file name, as `Path::extension` splits it: the text
/// after the last `.`, unless there is no `.` or the only `.` leads the name.
pub open spec fn name_extension(name: Seq<char>) -> Option<Seq<char>> {
    let k = last_dot(name);
    if name == seq!['.', '.'] || k <= 0 {
        None
    } else {
        Some(name.skip(k + 1))
    }
}

/// The extension of a path's last component (`Path::extension`).
pub open spec fn path_extension(p: Seq<char>) -> Option<Seq<char>> {
    match file_name_of(p) {
        Some(name) => name_extension(name),
        None => None,
    }
}

/// `part` joined onto `base` (`Path::join` on Unix): an absolute `part`
/// replaces `base`; otherwise a separator is put between them unless `base`
/// is empty or already ends in one.
pub open spec fn path_join(base: Seq<char>, part: Seq<char>) -> Seq<char> {
    if part.len() > 0 && part[0] == '/' {
        part
    } else if base.len() == 0 || base.last() == '/' {
        base + part
    } else {
        base + seq!['/'] + part
    }
}

/// The last component of `path`, if it has one (`Path::file_name`).
pub fn file_name(path: &str) -> (r: Option<String>)
    ensures
        r matches Some(s) ==> file_name_of(path@) == Some(s@),
        r is None ==> file_name_of(path@) is None,
{
    let ghost p = path@;
    let n = path.unicode_len();
    let mut end: usize = n;
    assert(p.take(n as int) =~= p);
    loop
        invariant
            n == p.len(),
            p == path@,
            end <= n,
            file_name_of(p) == file_name_of(p.take(end as int)),
        decreases end,
    {
        let ghost whole = p.take(end as int);
        // skip trailing separators
        let mut e: usize = end;
        while e > 0
            invariant
                e <= end <= n,
                n == p.len(),
                p == path@,
                strip_trailing_separators(whole) == strip_trailing_separators(p.take(e as int)),
                whole == p.take(end as int),
            ensures
                e <= end,
                strip_trailing_separators(whole) == strip_trailing_separators(p.take(e as int)),
                e > 0 ==> p[e - 1] != '/',
            decreases e,
        {
            if path.get_char(e - 1) != '/' {
                break;
            }
            assert(p.take(e as int).drop_last() =~= p.take(e - 1));
            e = e - 1;
        }
        let ghost q = p.take(e as int);
        assert(strip_trailing_separators(q) == q) by {
            if e > 0 {
                assert(q.last() == p[e - 1]);
            }
        }
        if e == 0 {
            return None;
        }
        // find the start of the final segment
        let mut s: usize = e;
        assert(p.subrange(e as int, e as int) =~= Seq::<char>::empty());
        while s > 0
            invariant
                s <= e <= n,
                n == p.len(),
                p == path@,
                q == p.take(e as int),
                final_segment(q) == final_segment(p.take(s as int)) + p.subrange(s as int, e as int),
            ensures
                s <= e,
                final_segment(q) == final_segment(p.take(s as int)) + p.subrange(s as int, e as int),
                s > 0 ==> p[s - 1] == '/',
            decreases s,
        {
            if path.get_char(s - 1) == '/' {
                break;
            }
            assert(p.take(s as int).drop_last() =~= p.take(s - 1));
            assert(p.take(s as int).last() == p[s - 1]);
            assert(p.subrange(s - 1, e as int) =~= seq![p[s - 1]] + p.subrange(s as int, e as int));
            s = s - 1;
        }
        let ghost seg = p.subrange(s as int, e as int);
        assert(final_segment(q) =~= seg) by {
            if s > 0 {
                assert(p.take(s as int).last() == p[s - 1]);
            }
            assert(final_segment(p.take(s as int)) =~= Seq::<char>::empty());
        }
        assert(q.take(q.len() - seg.len()) =~= p.take(s as int));
        let len = e - s;
        if len == 1 && path.get_char(s) == '.' {
            assert(seg =~= seq!['.']);
            end = s;
        } else if len == 2 && path.get_char(s) == '.' && path.get_char(s + 1) == '.' {
            assert(seg =~= seq!['.', '.']);
            return None;
        } else {
            assert(seg != seq!['.']) by {
                if seg == seq!['.'] {
                    assert(seg.len() == 1 && seg[0] == p[s as int]);
                }
            }
            assert(seg != seq!['.', '.']) by {
                if seg == seq!['.', '.'] {
                    assert(seg[0] == p[s as int] && seg[1] == p[s + 1]);
                }
            }
            return Some(owned(path.substring_char(s, e)));
        }
    }
}

/// The extension of a file name (`Path::extension` on a bare name).
fn extension_of_name(name: &str) -> (r: Option<String>)
    ensures
        r matches Some(s) ==> name_extension(name@) == Some(s@),
        r is None ==> name_extension(name@) is None,
{
    let ghost v = name@;
    let n = name.unicode_len();
    if n == 2 && name.get_char(0) == '.' && name.get_char(1) == '.' {
        assert(v =~= seq!['.', '.']);
        return None;
    }
    let mut k: usize = n;
    assert(v.take(n as int) =~= v);
    while k > 0
        invariant
            k <= n,
            n == v.len(),
            v == name@,
            last_dot(v) == last_dot(v.take(k as int)),
        ensures
            k <= n,
            last_dot(v) == last_dot(v.take(k as int)),
            k > 0 ==> v[k - 1] == '.',
        decreases k,
    {
        if name.get_char(k - 1) == '.' {
            break;
        }
        assert(v.take(k as int).drop_last() =~= v.take(k - 1));
        k = k - 1;
    }
    assert(k > 0 ==> last_dot(v.take(k as int)) == k - 1) by {
        if k > 0 {
            assert(v.take(k as int).last() == v[k - 1]);
        }
    }
    if k <= 1 {
        return None;
    }
    assert(v.subrange(k as int, n as int) =~= v.skip(k as int));
    Some(owned(name.substring_char(k, n)))
}

/// The extension of the last component of `path` (`Path::extension`).
pub fn extension_of(path: &str) -> (r: Option<String>)
    ensures
        r matches Some(s) ==> path_extension(path@) == Some(s@),
        r is None ==> path_extension(path@) is None,
{
    match file_name(path) {
        Some(name) => extension_of_name(name.as_str()),
        None => None,
    }
}

/// `part` joined onto `base` (`Path::join` on Unix).
pub fn join(base: &str, part: &str) -> (r: String)
    ensures
        r@ == path_join(base@, part@),
{
    let pn = part.unicode_len();
    if pn > 0 && part.get_char(0) == '/' {
        return owned(part);
    }
    let bn = base.unicode_len();
    let mut r = owned(base);
    if bn > 0 && base.get_char(bn - 1) != '/' {
        crate::text::push_char(&mut r, '/');
    }
    crate::text::push_text(&mut r, part);
    assert(r@ =~= path_join(base@, part@));
    r
}

} // verus!

verus! {

/// Joining a relative part keeps the base as a prefix.
pub proof fn lemma_join_keeps_base(base: Seq<char>, part: Seq<char>)
    requires
        part.len() == 0 || part[0] != '/',
    ensures
        path_join(base, part).len() >= base.len(),
        path_join(base, part).take(base.len() as int) == base,
{
    let r = path_join(base, part);
    if base.len() == 0 || base.last() == '/' {
        assert(r.take(base.len() as int) =~= base);
    } else {
        assert(r.take(base.len() as int) =~= base);
    }
}

/// Joining different relative parts onto one base gives different paths.
pub proof fn lemma_join_injective(base: Seq<char>, a: Seq<char>, b: Seq<char>)
    requires
        a.len() > 0 && a[0] != '/',
        b.len() > 0 && b[0] != '/',
        path_join(base, a) == path_join(base, b),
    ensures
        a == b,
{
    let ra = path_join(base, a);
    let rb = path_join(base, b);
    if base.len() == 0 || base.last() == '/' {
        assert(ra.skip(base.len() as int) =~= a);
        assert(rb.skip(base.len() as int) =~= b);
    } else {
        assert(ra.skip(base.len() as int + 1) =~= a);
        assert(rb.skip(base.len() as int + 1) =~= b);
    }
}

/// A relative part joined onto a base that is not empty and does not end in
/// a separator ends as the part does; joining the same such part onto two
/// such bases gives different paths unless the bases are equal.
pub proof fn lemma_join_base_injective(a: Seq<char>, b: Seq<char>, part: Seq<char>)
    requires
        a.len() > 0 && a.last() != '/',
        b.len() > 0 && b.last() != '/',
        part.len() > 0 && part[0] != '/',
    ensures
        path_join(a, part).len() > 0,
        path_join(a, part).last() == part.last(),
        path_join(a, part) == path_join(b, part) ==> a == b,
{
    let ra = path_join(a, part);
    let rb = path_join(b, part);
    assert(ra =~= a + seq!['/'] + part);
    assert(rb =~= b + seq!['/'] + part);
    assert(ra.last() == part.last());
    if ra == rb {
        assert(a.len() == b.len());
        assert(ra.take(a.len() as int) =~= a);
        assert(rb.take(b.len() as int) =~= b);
    }
}

} // verus!
