//! File-system path handling. Path syntax belongs to the host platform, so
//! the few path operations the planner needs are calls into `std::path`, and
//! their contracts state only what holds on every platform.

use crate::text::{chars_of, ends_with, string_of};
use vstd::prelude::*;

verus! {

/// A name that every platform reads as one plain path component: not empty,
/// not `.` or `..`, and free of `/`, `\` and `:`.
pub open spec fn is_plain_name(s: Seq<char>) -> bool {
    &&& s.len() > 0
    &&& s != seq!['.']
    &&& s != seq!['.', '.']
    &&& !s.contains('/')
    &&& !s.contains('\\')
    &&& !s.contains(':')
}

/// A path separator on some platform: `/` everywhere, `\` on Windows.
pub open spec fn is_sep(c: char) -> bool {
    c == '/' || c == '\\'
}

/// The text after the last `/` or `\` (all of `s` when it holds neither).
pub open spec fn final_name(s: Seq<char>) -> Seq<char>
    decreases s.len(),
{
    if s.len() == 0 {
        Seq::empty()
    } else if is_sep(s.last()) {
        Seq::empty()
    } else {
        final_name(s.drop_last()).push(s.last())
    }
}

/// No platform reads a prefix into `s`: it holds no `:` (drive letters) and
/// does not start with two separators (network shares, device and verbatim
/// paths).
pub open spec fn unprefixed(s: Seq<char>) -> bool {
    &&& !s.contains(':')
    &&& !(s.len() >= 2 && is_sep(s[0]) && is_sep(s[1]))
}

/// A path whose final component is a name on every platform: unprefixed,
/// not ending in a separator, and ending in a part other than `.` and `..`.
/// That part is then `final_name(s)` on Windows; on Unix the final
/// component ends with it.
pub open spec fn has_final_name(s: Seq<char>) -> bool {
    &&& s.len() > 0
    &&& unprefixed(s)
    &&& !is_sep(s.last())
    &&& final_name(s) != seq!['.']
    &&& final_name(s) != seq!['.', '.']
}

/// A path both platforms split alike and `Path::parent` returns as a prefix:
/// separators are `/` only, never doubled or trailing, no `:`, no `.` part,
/// and a final part that is a name.
pub open spec fn simple_path(s: Seq<char>) -> bool {
    &&& s.len() > 0
    &&& !s.contains('\\')
    &&& !s.contains(':')
    &&& s.last() != '/'
    &&& forall|i: int| #![trigger s[i]] 0 <= i < s.len() - 1 && s[i] == '/' ==> s[i + 1] != '/'
    &&& forall|i: int|
        #![trigger s[i]]
        0 <= i < s.len() && s[i] == '.' && (i == 0 || s[i - 1] == '/') ==> !(i + 1 == s.len()
            || s[i + 1] == '/')
    &&& final_name(s) != seq!['.', '.']
}

/// The index of the last `/` in `s`.
pub open spec fn last_slash(s: Seq<char>) -> Option<int>
    decreases s.len(),
{
    if s.len() == 0 {
        None
    } else if s.last() == '/' {
        Some(s.len() - 1)
    } else {
        last_slash(s.drop_last())
    }
}

/// `Path::parent` of a simple path, as text: empty for a single name, `/`
/// under the root, otherwise everything before the last `/`.
pub open spec fn parent_text(s: Seq<char>) -> Seq<char> {
    match last_slash(s) {
        None => Seq::empty(),
        Some(k) => if k == 0 {
            seq!['/']
        } else {
            s.take(k)
        },
    }
}

/// Starts with two separators: a network share, device or verbatim path on
/// Windows.
pub open spec fn starts_with_two_seps(s: Seq<char>) -> bool {
    s.len() >= 2 && is_sep(s[0]) && is_sep(s[1])
}

/// `part` can be pushed onto `base` the same way on every platform: `base`
/// does not start with two separators (which excludes Windows shares and
/// verbatim paths, whose text `push` may rewrite) and is not a bare drive
/// such as `C:` (onto which Windows adds no separator); `part` holds no `:`
/// and does not start with a separator, so it is relative everywhere. Bases
/// with a drive and a root or a path, such as `C:\dir`, are joinable.
pub open spec fn joinable(base: Seq<char>, part: Seq<char>) -> bool {
    &&& !starts_with_two_seps(base)
    &&& !(base.len() == 2 && base[1] == ':')
    &&& !part.contains(':')
    &&& !(part.len() > 0 && is_sep(part[0]))
}

/// What `PathBuf::push` makes of `base` and a relative `part`: the two
/// joined by the platform's separator (`/` or `\`), with none added after a
/// trailing separator. A trailing `\` is one only on Windows, so Unix adds
/// a `/` after it.
pub open spec fn join_shape(base: Seq<char>, part: Seq<char>, r: Seq<char>) -> bool {
    if base.len() == 0 || base.last() == '/' {
        r == base + part
    } else if base.last() == '\\' {
        r == base + part || r == base + seq!['/'] + part
    } else {
        r == base + seq!['/'] + part || r == base + seq!['\\'] + part
    }
}

/// `Path::file_name` (as UTF-8 text). The final component is never empty,
/// and the empty path has none. For a path without `\` it holds no `/`, and
/// when the path ends in a name, it is the text after the last `/`. Which
/// component is final in other paths (Windows drive, share and verbatim
/// paths, where `/` may not separate) is left unsaid.
#[verifier::external_body]
pub fn path_file_name(path: &str) -> (r: Option<String>)
    ensures
        r is Some ==> r.unwrap()@.len() > 0,
        path@.len() == 0 ==> r is None,
        !path@.contains('\\') && r is Some ==> !r.unwrap()@.contains('/'),
        !path@.contains('\\') && has_final_name(path@) ==> r is Some && r.unwrap()@ == final_name(
            path@,
        ),
        is_plain_name(path@) ==> r is Some && r.unwrap()@ == path@,
{
    std::path::Path::new(path).file_name().map(|n| n.to_string_lossy().into_owned())
}

/// `Path::join`: for a relative part pushed onto a joinable base, the base,
/// the platform's separator where one is needed, and the part (see
/// `join_shape`). Absolute and prefixed parts, share and verbatim bases
/// (whose text Windows may rewrite) and bare drives are left unsaid. A plain
/// name pushed onto an unprefixed base (other than a lone `\\`, after which
/// Unix adds a `/`) becomes the final component of a path that is itself
/// unprefixed.
#[verifier::external_body]
pub fn path_join(base: &str, part: &str) -> (r: String)
    ensures
        joinable(base@, part@) ==> join_shape(base@, part@, r@),
        unprefixed(base@) && base@ != seq!['\\'] && is_plain_name(part@) ==> has_final_name(r@)
            && final_name(r@) == part@,
{
    std::path::Path::new(base).join(part).to_string_lossy().into_owned()
}

/// `Path::with_file_name`: the empty path just takes the name; a simple path
/// keeps its parent (`parent_text`) and gets the relative name pushed onto
/// it (see `join_shape`). For any unprefixed path, a plain name becomes the
/// final component of a result that is itself unprefixed (the parent is a
/// prefix of the path's text). Other paths are left unsaid.
#[verifier::external_body]
pub fn path_with_file_name(path: &str, name: &str) -> (r: String)
    ensures
        path@.len() == 0 ==> r@ == name@,
        unprefixed(path@) && is_plain_name(name@) ==> has_final_name(r@) && final_name(r@)
            == name@,
        simple_path(path@) && joinable(parent_text(path@), name@) ==> join_shape(
            parent_text(path@),
            name@,
            r@,
        ),
{
    std::path::Path::new(path).with_file_name(name).to_string_lossy().into_owned()
}

/// `Path == Path`, which compares components. Equal text is always an equal
/// path. Paths whose final components are names differ when those names
/// differ, and the empty path differs from such a path. Two simple paths
/// (`simple_path`) are read into the same components on every platform, so
/// they are equal exactly when their texts are. When two other texts name
/// the same path depends on the platform and is left unsaid.
#[verifier::external_body]
pub fn paths_equal(a: &str, b: &str) -> (r: bool)
    ensures
        a@ == b@ ==> r,
        simple_path(a@) && simple_path(b@) ==> (r <==> a@ == b@),
        has_final_name(a@) && has_final_name(b@) && final_name(a@) != final_name(b@) ==> !r,
        a@.len() == 0 && has_final_name(b@) ==> !r,
        b@.len() == 0 && has_final_name(a@) ==> !r,
{
    std::path::Path::new(a) == std::path::Path::new(b)
}

/// Pushing a name of three or more characters onto a joinable base (other
/// than a lone `\\`) gives a base that is joinable again.
pub proof fn lemma_join_base(d: Seq<char>, p: Seq<char>, b: Seq<char>)
    requires
        !starts_with_two_seps(d),
        d != seq!['\\'],
        p.len() >= 3,
        !is_sep(p[0]),
        join_shape(d, p, b),
    ensures
        !starts_with_two_seps(b),
        b.len() >= 3,
{
    let s1 = d + p;
    let s2 = d + seq!['/'] + p;
    let s3 = d + seq!['\\'] + p;
    assert(b == s1 || b == s2 || b == s3);
    if starts_with_two_seps(b) {
        if d.len() >= 2 {
            assert(b[0] == d[0] && b[1] == d[1]);
        } else if d.len() == 1 {
            assert(b[0] == d[0]);
            if d[0] == '/' {
                assert(b == s1);
                assert(b[1] == p[0]);
            } else {
                assert(d =~= seq!['\\']);
            }
        } else {
            assert(b == s1);
            assert(b[0] == p[0]);
        }
    }
}

/// The final part of a path holds no separator, and is a suffix of it.
pub proof fn lemma_final_name_shape(s: Seq<char>)
    ensures
        forall|i: int| 0 <= i < final_name(s).len() ==> !is_sep(#[trigger] final_name(s)[i]),
        final_name(s).len() <= s.len(),
        final_name(s) == s.skip(s.len() - final_name(s).len()),
    decreases s.len(),
{
    if s.len() > 0 && !is_sep(s.last()) {
        lemma_final_name_shape(s.drop_last());
        let f = final_name(s.drop_last());
        assert(final_name(s) == f.push(s.last()));
        assert forall|i: int| 0 <= i < final_name(s).len() implies !is_sep(
            #[trigger] final_name(s)[i],
        ) by {
            if i < f.len() {
                assert(final_name(s)[i] == f[i]);
            }
        }
        assert(final_name(s) =~= s.skip(s.len() - final_name(s).len()));
    } else if s.len() > 0 {
        assert(s.skip(s.len() as int) =~= Seq::<char>::empty());
    }
}

/// The stem of a file name, as `Path::file_stem` documents it: the whole
/// name when it holds no `.` or its only `.` is the first character,
/// otherwise the part before the last `.`.
pub open spec fn stem_of_name(name: Seq<char>) -> Seq<char> {
    match last_dot(name) {
        Some(k) => if k == 0 {
            name
        } else {
            name.take(k)
        },
        None => name,
    }
}

/// The index of the last `.` in `s`.
pub open spec fn last_dot(s: Seq<char>) -> Option<int>
    decreases s.len(),
{
    if s.len() == 0 {
        None
    } else if s.last() == '.' {
        Some(s.len() - 1)
    } else {
        last_dot(s.drop_last())
    }
}

/// Where `last_dot` points: a `.` inside the sequence.
pub proof fn lemma_last_dot(s: Seq<char>)
    ensures
        last_dot(s) matches Some(k) ==> 0 <= k < s.len() && s[k] == '.',
        last_dot(s) is None ==> !s.contains('.'),
    decreases s.len(),
{
    if s.len() > 0 && s.last() != '.' {
        lemma_last_dot(s.drop_last());
        if last_dot(s) is None {
            assert forall|i: int| 0 <= i < s.len() implies s[i] != '.' by {
                if i < s.len() - 1 {
                    assert(s.drop_last()[i] == s[i]);
                }
            }
        }
    }
}

/// A stem is a non-empty prefix of its file name.
pub proof fn lemma_stem_prefix(name: Seq<char>)
    requires
        name.len() > 0,
    ensures
        stem_of_name(name).len() > 0,
        stem_of_name(name).len() <= name.len(),
        stem_of_name(name) == name.take(stem_of_name(name).len() as int),
{
    lemma_last_dot(name);
    assert(name.take(name.len() as int) =~= name);
}

/// The stem of a file name (see `stem_of_name`).
pub fn file_stem_of_name(name: &str) -> (r: String)
    ensures
        r@ == stem_of_name(name@),
{
    let v = chars_of(name);
    let mut j = v.len();
    assert(v@.take(j as int) =~= v@);
    while j > 0 && v[j - 1] != '.'
        invariant
            j <= v@.len(),
            last_dot(v@.take(j as int)) == last_dot(v@),
        decreases j,
    {
        assert(v@.take(j as int).drop_last() =~= v@.take(j - 1));
        j = j - 1;
    }
    assert(v@.take(v@.len() as int) =~= v@);
    if j <= 1 {
        // no dot at all, or the only dot considered is the first character
        proof {
            if j == 1 {
                assert(v@.take(1).last() == v@[0]);
            }
        }
        name.to_owned()
    } else {
        proof {
            assert(v@.take(j as int).last() == v@[j - 1]);
        }
        string_of(&v.as_slice()[0..j - 1])
    }
}

} // verus!
