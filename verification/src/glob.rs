//! Filename globs: `*` matches any sequence of bytes (including none); every
//! other byte matches itself. There is no `?` and there are no classes.

use vstd::prelude::*;
use vstd::string::StringSliceAdditionalSpecFns;

verus! {

/// The byte `*`.
pub open spec fn star() -> u8 {
    42u8
}

/// Whether `name` is in the language of the glob `pat`, both taken as bytes.
pub open spec fn glob_matches(pat: Seq<u8>, name: Seq<u8>) -> bool
    decreases pat.len(), name.len(),
{
    if pat.len() == 0 {
        name.len() == 0
    } else if pat[0] == star() {
        glob_matches(pat.drop_first(), name) || (name.len() > 0 && glob_matches(
            pat,
            name.drop_first(),
        ))
    } else {
        name.len() > 0 && name[0] == pat[0] && glob_matches(pat.drop_first(), name.drop_first())
    }
}

/// A leading `*` may swallow any prefix of the name.
pub proof fn lemma_star_any_split(pat: Seq<u8>, name: Seq<u8>)
    requires
        pat.len() > 0,
        pat[0] == star(),
    ensures
        glob_matches(pat, name) <==> exists|k: int|
            0 <= k <= name.len() && #[trigger] glob_matches(pat.drop_first(), name.skip(k)),
    decreases name.len(),
{
    let rest = pat.drop_first();
    assert(name.skip(0) =~= name);
    if glob_matches(rest, name) {
        assert(glob_matches(rest, name.skip(0)));
    }
    if name.len() > 0 {
        let tail = name.drop_first();
        lemma_star_any_split(pat, tail);
        if glob_matches(pat, tail) {
            let k = choose|k: int| 0 <= k <= tail.len() && #[trigger] glob_matches(rest, tail.skip(k));
            assert(tail.skip(k) =~= name.skip(k + 1));
            assert(glob_matches(rest, name.skip(k + 1)));
        }
        if exists|k: int| 0 <= k <= name.len() && #[trigger] glob_matches(rest, name.skip(k)) {
            let k = choose|k: int| 0 <= k <= name.len() && #[trigger] glob_matches(rest, name.skip(k));
            if k > 0 {
                assert(tail.skip(k - 1) =~= name.skip(k));
                assert(glob_matches(rest, tail.skip(k - 1)));
                assert(glob_matches(pat, tail));
            }
        }
    } else {
        if exists|k: int| 0 <= k <= name.len() && #[trigger] glob_matches(rest, name.skip(k)) {
            let k = choose|k: int| 0 <= k <= name.len() && #[trigger] glob_matches(rest, name.skip(k));
            assert(k == 0);
        }
    }
}

/// A pattern without `*` matches exactly one name: itself.
pub proof fn law_literal_pattern_matches_only_itself(pat: Seq<u8>, name: Seq<u8>)
    requires
        !pat.contains(star()),
    ensures
        glob_matches(pat, name) <==> pat == name,
    decreases pat.len(),
{
    if pat.len() > 0 {
        assert(pat[0] != star()) by {
            assert(pat.contains(pat[0]));
        }
        assert(!pat.drop_first().contains(star())) by {
            if pat.drop_first().contains(star()) {
                let i = choose|i: int| 0 <= i < pat.drop_first().len() && pat.drop_first()[i] == star();
                assert(pat[i + 1] == star());
            }
        }
        if name.len() > 0 {
            law_literal_pattern_matches_only_itself(pat.drop_first(), name.drop_first());
            if pat =~= name {
                assert(pat.drop_first() =~= name.drop_first());
            }
            if pat[0] == name[0] && pat.drop_first() == name.drop_first() {
                assert forall|i: int| 0 <= i < pat.len() implies pat[i] == name[i] by {
                    if i > 0 {
                        assert(pat.drop_first()[i - 1] == name.drop_first()[i - 1]);
                    }
                }
                assert(pat =~= name);
            }
        } else {
            assert(pat != name);
        }
    } else {
        if name.len() == 0 {
            assert(pat =~= name);
        }
    }
}

/// With a single `*` between two literal parts, a name matches exactly when
/// it is long enough to hold both parts, starts with the first and ends with
/// the second: `*` stands for any sequence, the empty one included.
pub proof fn law_single_star_is_prefix_and_suffix(pre: Seq<u8>, suf: Seq<u8>, name: Seq<u8>)
    requires
        !pre.contains(star()),
        !suf.contains(star()),
    ensures
        glob_matches(pre + seq![star()] + suf, name) <==> (name.len() >= pre.len() + suf.len()
            && name.take(pre.len() as int) == pre && name.skip(name.len() - suf.len()) == suf),
    decreases pre.len(),
{
    let pat = pre + seq![star()] + suf;
    if pre.len() == 0 {
        assert(pat =~= seq![star()] + suf);
        assert(pat.drop_first() =~= suf);
        lemma_star_any_split(pat, name);
        if glob_matches(pat, name) {
            let k = choose|k: int| 0 <= k <= name.len() && #[trigger] glob_matches(pat.drop_first(), name.skip(k));
            law_literal_pattern_matches_only_itself(suf, name.skip(k));
            assert(name.take(0) =~= pre);
        }
        if name.len() >= pre.len() + suf.len() && name.take(pre.len() as int) == pre
            && name.skip(name.len() - suf.len()) == suf {
            let k = name.len() - suf.len();
            law_literal_pattern_matches_only_itself(suf, name.skip(k));
            assert(glob_matches(pat.drop_first(), name.skip(k)));
        }
    } else {
        assert(pre[0] != star()) by {
            assert(pre.contains(pre[0]));
        }
        let pre1 = pre.drop_first();
        assert(!pre1.contains(star())) by {
            if pre1.contains(star()) {
                let i = choose|i: int| 0 <= i < pre1.len() && pre1[i] == star();
                assert(pre[i + 1] == star());
            }
        }
        assert(pat.drop_first() =~= pre1 + seq![star()] + suf);
        assert(pat[0] == pre[0]);
        if name.len() > 0 {
            let n1 = name.drop_first();
            law_single_star_is_prefix_and_suffix(pre1, suf, n1);
            if n1.len() >= pre1.len() + suf.len() {
                assert(n1.skip(n1.len() - suf.len()) =~= name.skip(name.len() - suf.len()));
            }
            if name.len() >= pre.len() + suf.len() {
                assert(n1.skip(n1.len() - suf.len()) =~= name.skip(name.len() - suf.len()));
                if name.take(pre.len() as int) == pre {
                    assert(n1.take(pre1.len() as int) =~= pre1) by {
                        assert forall|i: int| 0 <= i < pre1.len() implies n1.take(pre1.len() as int)[i] == pre1[i] by {
                            assert(name.take(pre.len() as int)[i + 1] == pre[i + 1]);
                        }
                    }
                    assert(name.take(pre.len() as int)[0] == pre[0]);
                }
                if name[0] == pre[0] && n1.take(pre1.len() as int) == pre1 {
                    assert(name.take(pre.len() as int) =~= pre) by {
                        assert forall|i: int| 0 <= i < pre.len() implies name.take(pre.len() as int)[i] == pre[i] by {
                            if i > 0 {
                                assert(n1.take(pre1.len() as int)[i - 1] == pre1[i - 1]);
                            }
                        }
                    }
                }
            }
        }
    }
}

/// The number of `*` in a pattern.
pub open spec fn star_count(pat: Seq<u8>) -> nat
    decreases pat.len(),
{
    if pat.len() == 0 {
        0
    } else {
        (if pat[0] == star() { 1nat } else { 0nat }) + star_count(pat.drop_first())
    }
}

/// The pattern with its `*`s replaced, in order, by `fills`.
pub open spec fn fill_stars(pat: Seq<u8>, fills: Seq<Seq<u8>>) -> Seq<u8>
    decreases pat.len(),
{
    if pat.len() == 0 {
        Seq::empty()
    } else if pat[0] == star() {
        fills[0] + fill_stars(pat.drop_first(), fills.drop_first())
    } else {
        seq![pat[0]] + fill_stars(pat.drop_first(), fills)
    }
}

/// What a glob means, stated directly: a name matches exactly when it is the
/// pattern with each `*` replaced by some byte string (the empty one
/// included), every other byte standing for itself.
pub proof fn law_glob_is_star_substitution(pat: Seq<u8>, name: Seq<u8>)
    ensures
        glob_matches(pat, name) <==> exists|fills: Seq<Seq<u8>>|
            fills.len() == star_count(pat) && #[trigger] fill_stars(pat, fills) == name,
    decreases pat.len(),
{
    if pat.len() == 0 {
        let none = Seq::<Seq<u8>>::empty();
        if glob_matches(pat, name) {
            assert(fill_stars(pat, none) =~= name);
        }
    } else {
        let rest = pat.drop_first();
        if pat[0] == star() {
            lemma_star_any_split(pat, name);
            if glob_matches(pat, name) {
                let k = choose|k: int| 0 <= k <= name.len() && #[trigger] glob_matches(rest, name.skip(k));
                law_glob_is_star_substitution(rest, name.skip(k));
                let f1 = choose|fills: Seq<Seq<u8>>|
                    fills.len() == star_count(rest) && #[trigger] fill_stars(rest, fills) == name.skip(k);
                let fills = seq![name.take(k)] + f1;
                assert(fills.drop_first() =~= f1);
                assert(fill_stars(pat, fills) =~= name);
            }
            if exists|fills: Seq<Seq<u8>>|
                fills.len() == star_count(pat) && #[trigger] fill_stars(pat, fills) == name {
                let fills = choose|fills: Seq<Seq<u8>>|
                    fills.len() == star_count(pat) && #[trigger] fill_stars(pat, fills) == name;
                let k = fills[0].len() as int;
                let tail = fill_stars(rest, fills.drop_first());
                assert(name =~= fills[0] + tail);
                assert(name.skip(k) =~= tail);
                law_glob_is_star_substitution(rest, name.skip(k));
                assert(glob_matches(rest, name.skip(k)));
            }
        } else {
            if name.len() > 0 {
                law_glob_is_star_substitution(rest, name.drop_first());
            }
            if glob_matches(pat, name) {
                let f1 = choose|fills: Seq<Seq<u8>>|
                    fills.len() == star_count(rest) && #[trigger] fill_stars(rest, fills) == name.drop_first();
                assert(fill_stars(pat, f1) =~= name);
            }
            if exists|fills: Seq<Seq<u8>>|
                fills.len() == star_count(pat) && #[trigger] fill_stars(pat, fills) == name {
                let fills = choose|fills: Seq<Seq<u8>>|
                    fills.len() == star_count(pat) && #[trigger] fill_stars(pat, fills) == name;
                let tail = fill_stars(rest, fills);
                assert(name =~= seq![pat[0]] + tail);
                assert(name.drop_first() =~= tail);
                assert(glob_matches(rest, name.drop_first()));
            }
        }
    }
}

pub(crate) fn glob_from(pat: &[u8], pi: usize, name: &[u8], ni: usize) -> (r: bool)
    requires
        pi <= pat@.len(),
        ni <= name@.len(),
    ensures
        r == glob_matches(pat@.skip(pi as int), name@.skip(ni as int)),
    decreases pat@.len() - pi,
{
    if pi == pat.len() {
        ni == name.len()
    } else if pat[pi] == 42u8 {
        proof {
            lemma_star_any_split(pat@.skip(pi as int), name@.skip(ni as int));
            assert(pat@.skip(pi as int).drop_first() =~= pat@.skip(pi + 1));
        }
        let mut i = ni;
        loop
            invariant
                ni <= i <= name@.len(),
                pi < pat@.len(),
                pi < pat.len(),
                pat@[pi as int] == star(),
                glob_matches(pat@.skip(pi as int), name@.skip(ni as int)) <==> exists|k: int|
                    0 <= k <= name@.skip(ni as int).len() && #[trigger] glob_matches(
                        pat@.skip(pi + 1),
                        name@.skip(ni as int).skip(k),
                    ),
                forall|j: int|
                    ni <= j < i ==> !#[trigger] glob_matches(pat@.skip(pi + 1), name@.skip(j)),
            decreases name@.len() - i,
        {
            if glob_from(pat, pi + 1, name, i) {
                assert(name@.skip(ni as int).skip(i - ni) =~= name@.skip(i as int));
                return true;
            }
            if i == name.len() {
                assert forall|k: int|
                    0 <= k <= name@.skip(ni as int).len() implies !#[trigger] glob_matches(
                    pat@.skip(pi + 1),
                    name@.skip(ni as int).skip(k),
                ) by {
                    assert(name@.skip(ni as int).skip(k) =~= name@.skip(ni + k));
                }
                return false;
            }
            i = i + 1;
        }
    } else {
        proof {
            assert(pat@.skip(pi as int).drop_first() =~= pat@.skip(pi + 1));
            if ni < name@.len() {
                assert(name@.skip(ni as int).drop_first() =~= name@.skip(ni + 1));
            }
        }
        ni < name.len() && name[ni] == pat[pi] && glob_from(pat, pi + 1, name, ni + 1)
    }
}

/// Glob match against a filename, byte by byte: `*` matches any sequence,
/// including the empty one; no `?` or character classes.
pub fn glob_match(pattern: &str, name: &str) -> (r: bool)
    ensures
        r == glob_matches(pattern.spec_bytes(), name.spec_bytes()),
{
    let pat = pattern.as_bytes();
    let nm = name.as_bytes();
    proof {
        assert(pat@.skip(0) =~= pat@);
        assert(nm@.skip(0) =~= nm@);
    }
    glob_from(pat, 0, nm, 0)
}

} // verus!
