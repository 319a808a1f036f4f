//! Strings and paths: the views the contracts speak in, the std conversions
//! that the library leans on, and a few small string builders.

use vstd::prelude::*;
use vstd::string::StringExecFns;

verus! {

/// The views of a sequence of strings.
pub open spec fn strs(v: Seq<String>) -> Seq<Seq<char>> {
    v.map_values(|s: String| s@)
}

/// The view of an optional string.
pub open spec fn opt_str(o: Option<String>) -> Option<Seq<char>> {
    match o {
        Some(s) => Some(s@),
        None => None,
    }
}

/// The views of an optional sequence of strings.
pub open spec fn opt_strs(o: Option<Vec<String>>) -> Option<Seq<Seq<char>>> {
    match o {
        Some(v) => Some(strs(v@)),
        None => None,
    }
}

/// `Path::join` on Unix, as text: an absolute `rel` (one that starts with
/// `/`) replaces `base`; otherwise `rel` follows `base`, with a `/` between
/// them when `base` is not empty and does not already end in `/`.
pub open spec fn path_join(base: Seq<char>, rel: Seq<char>) -> Seq<char> {
    if rel.len() > 0 && rel[0] == '/' {
        rel
    } else if base.len() == 0 || base.last() == '/' {
        base + rel
    } else {
        base + seq!['/'] + rel
    }
}

/// Whether the path `p` lies (lexically) strictly inside the directory
/// `root`: it extends `root`, and what follows `root` starts a new component.
pub open spec fn inside(p: Seq<char>, root: Seq<char>) -> bool {
    &&& root.len() > 0
    &&& p.len() > root.len()
    &&& p.take(root.len() as int) == root
    &&& (root.last() == '/' || p[root.len() as int] == '/')
}

/// Two directories neither of which lies inside the other.
pub open spec fn disjoint(a: Seq<char>, b: Seq<char>) -> bool {
    a != b && !inside(a, b) && !inside(b, a)
}

/// A non-empty relative path joined onto a non-empty directory lies inside
/// it.
pub proof fn law_relative_join_stays_inside(base: Seq<char>, rel: Seq<char>)
    requires
        base.len() > 0,
        rel.len() > 0,
        rel[0] != '/',
    ensures
        inside(path_join(base, rel), base),
{
    let p = path_join(base, rel);
    assert(p.take(base.len() as int) =~= base);
    if base.last() != '/' {
        assert(p[base.len() as int] == '/');
    }
}

/// What lies inside a directory does not lie inside another directory
/// disjoint from it.
pub proof fn law_inside_one_of_disjoint_is_outside_the_other(p: Seq<char>, a: Seq<char>, b: Seq<char>)
    requires
        inside(p, a),
        disjoint(a, b),
    ensures
        !inside(p, b),
{
    if inside(p, b) {
        if b.len() == a.len() {
            assert(a =~= b) by {
                assert forall|i: int| 0 <= i < a.len() implies a[i] == b[i] by {
                    assert(p.take(a.len() as int)[i] == p.take(b.len() as int)[i]);
                }
            }
        } else if b.len() < a.len() {
            assert(a.take(b.len() as int) =~= b) by {
                assert forall|i: int| 0 <= i < b.len() implies a.take(b.len() as int)[i] == b[i] by {
                    assert(p.take(a.len() as int)[i] == a[i]);
                    assert(p.take(b.len() as int)[i] == b[i]);
                }
            }
            assert(a[b.len() as int] == p.take(a.len() as int)[b.len() as int]);
            assert(inside(a, b));
        } else {
            assert(b.take(a.len() as int) =~= a) by {
                assert forall|i: int| 0 <= i < a.len() implies b.take(a.len() as int)[i] == a[i] by {
                    assert(p.take(a.len() as int)[i] == a[i]);
                    assert(p.take(b.len() as int)[i] == b[i]);
                }
            }
            assert(b[a.len() as int] == p.take(b.len() as int)[a.len() as int]);
            assert(a.last() == a[a.len() - 1]);
            assert(inside(b, a));
        }
    }
}

/// What `String::from_utf8_lossy` gives for `bytes`.
pub uninterp spec fn lossy_utf8(bytes: Seq<u8>) -> Seq<char>;

/// `std::path::Path::join` of `rel` onto `base`, as a string: as std
/// documents for Unix, an absolute `rel` replaces `base`, and otherwise a `/`
/// separates the two unless `base` is empty or already ends in one. (The
/// program is built for Unix only; on Windows the separator differs.)
#[verifier::external_body]
pub fn join_path(base: &str, rel: &str) -> (r: String)
    ensures
        r@ == path_join(base@, rel@),
{
    std::path::Path::new(base).join(rel).to_string_lossy().into_owned()
}

/// `String::from_utf8_lossy` on `bytes`, owned. The contract names the result
/// `lossy_utf8(bytes)` and, as std documents, says that valid UTF-8 is
/// decoded unchanged; what replaces invalid sequences is not stated.
#[verifier::external_body]
pub fn utf8_lossy(bytes: &[u8]) -> (r: String)
    ensures
        r@ == lossy_utf8(bytes@),
        vstd::utf8::valid_utf8(bytes@) ==> r@ == vstd::utf8::decode_utf8(bytes@),
{
    String::from_utf8_lossy(bytes).into_owned()
}

/// An owned copy of a string slice.
pub fn owned(s: &str) -> (r: String)
    ensures
        r@ == s@,
{
    String::from_str(s)
}

/// A fresh copy of a sequence of strings.
pub fn clone_strs(v: &[String]) -> (r: Vec<String>)
    ensures
        strs(r@) == strs(v@),
{
    let mut r: Vec<String> = Vec::new();
    let mut i: usize = 0;
    while i < v.len()
        invariant
            i <= v@.len(),
            strs(r@) == strs(v@.take(i as int)),
        decreases v@.len() - i,
    {
        let ghost before = r@;
        r.push(v[i].clone());
        assert(v@.take(i + 1) =~= v@.take(i as int).push(v@[i as int]));
        assert(strs(r@) =~= strs(before).push(v@[i as int]@));
        assert(strs(v@.take(i + 1)) =~= strs(v@.take(i as int)).push(v@[i as int]@));
        i = i + 1;
    }
    assert(v@.take(v@.len() as int) =~= v@);
    r
}

/// The words of `words` with one space between each two of them.
pub open spec fn join_words(words: Seq<Seq<char>>) -> Seq<char>
    decreases words.len(),
{
    if words.len() == 0 {
        Seq::empty()
    } else if words.len() == 1 {
        words[0]
    } else {
        join_words(words.drop_last()) + seq![' '] + words.last()
    }
}

/// A command line is its words with exactly one space between each two: a
/// single word stands alone, and one more word adds a space and itself.
pub proof fn law_words_are_joined_by_single_spaces(words: Seq<Seq<char>>, w: Seq<char>)
    ensures
        join_words(seq![w]) == w,
        words.len() > 0 ==> join_words(words.push(w)) == join_words(words) + seq![' '] + w,
        join_words(Seq::<Seq<char>>::empty()) == Seq::<char>::empty(),
{
    assert(words.push(w).drop_last() =~= words);
}

/// `argv.join(" ")`.
pub fn join_with_spaces(argv: &[String]) -> (r: String)
    ensures
        r@ == join_words(strs(argv@)),
{
    let mut r = String::new();
    let mut i: usize = 0;
    while i < argv.len()
        invariant
            i <= argv@.len(),
            r@ == join_words(strs(argv@.take(i as int))),
        decreases argv@.len() - i,
    {
        let ghost before = strs(argv@.take(i as int));
        assert(strs(argv@.take(i + 1)) =~= before.push(argv@[i as int]@));
        assert(strs(argv@.take(i + 1)).drop_last() =~= before);
        if i > 0 {
            proof {
                reveal_strlit(" ");
            }
            r.append(" ");
        }
        r.append(argv[i].as_str());
        proof {
            if i > 0 {
                assert(r@ =~= join_words(before) + seq![' '] + argv@[i as int]@);
            } else {
                assert(r@ =~= argv@[0]@);
            }
        }
        i = i + 1;
    }
    assert(argv@.take(argv@.len() as int) =~= argv@);
    r
}

/// The index just past the last `c` in `b`, or 0 when `b` holds no `c`.
pub open spec fn after_last(b: Seq<u8>, c: u8) -> int
    decreases b.len(),
{
    if b.len() == 0 {
        0
    } else if b.last() == c {
        b.len() as int
    } else {
        after_last(b.drop_last(), c)
    }
}

/// `after_last` lies within `b`, and no `c` follows it.
pub proof fn lemma_after_last(b: Seq<u8>, c: u8)
    ensures
        0 <= after_last(b, c) <= b.len(),
        forall|j: int| after_last(b, c) <= j < b.len() ==> b[j] != c,
        after_last(b, c) > 0 ==> b[after_last(b, c) - 1] == c,
    decreases b.len(),
{
    if b.len() > 0 && b.last() != c {
        lemma_after_last(b.drop_last(), c);
        assert forall|j: int| after_last(b, c) <= j < b.len() implies b[j] != c by {
            if j < b.len() - 1 {
                assert(b.drop_last()[j] == b[j]);
            }
        }
    }
}

/// The index just past the last byte `c` in `b` (0 when there is none).
pub fn after_last_byte(b: &[u8], c: u8) -> (r: usize)
    ensures
        r == after_last(b@, c),
{
    let mut k: usize = b.len();
    assert(b@.take(k as int) =~= b@);
    while k > 0 && b[k - 1] != c
        invariant
            k <= b@.len(),
            after_last(b@, c) == after_last(b@.take(k as int), c),
        decreases k,
    {
        assert(b@.take(k as int).drop_last() =~= b@.take(k - 1));
        k = k - 1;
    }
    proof {
        if k > 0 {
            assert(b@.take(k as int).last() == c);
        }
    }
    k
}

} // verus!
