//! The bootstrap phases: git update, hooks, copy, install. Each function here
//! decides what is to be run or copied; the program around the library
//! carries it out.

use vstd::prelude::*;
use vstd::string::StringSliceAdditionalSpecFns;
use crate::config::{CommandConfig, HookView, InstallRule, RuleView, hooks_view, rules_view};
use crate::error::{BootstrapError, ErrorView};
use crate::glob::{
    glob_from, glob_matches, law_literal_pattern_matches_only_itself,
    law_single_star_is_prefix_and_suffix, star,
};
use crate::text::{
    after_last, after_last_byte, clone_strs, join_path, join_with_spaces, join_words,
    disjoint, inside, law_inside_one_of_disjoint_is_outside_the_other,
    law_relative_join_stays_inside, lemma_after_last, lossy_utf8, owned, path_join, strs,
    utf8_lossy,
};

verus! {

/// One command to run: its working directory and its argv.
#[derive(Debug, PartialEq, Eq)]
pub struct Invocation {
    pub cwd: String,
    pub argv: Vec<String>,
}

/// A command, as text.
pub struct InvocationView {
    pub cwd: Seq<char>,
    pub argv: Seq<Seq<char>>,
}

impl View for Invocation {
    type V = InvocationView;

    open spec fn view(&self) -> InvocationView {
        InvocationView { cwd: self.cwd@, argv: strs(self.argv@) }
    }
}

/// The views of a sequence of commands.
pub open spec fn invocations_view(v: Seq<Invocation>) -> Seq<InvocationView> {
    v.map_values(|i: Invocation| i@)
}

/// The default git update command: `git fetch --all --prune`.
pub open spec fn default_git_update() -> Seq<Seq<char>> {
    seq!["git"@, "fetch"@, "--all"@, "--prune"@]
}

/// The git update, run in the worktree: the configured command, or the
/// default one.
pub open spec fn git_update_spec(worktree: Seq<char>, command: Option<Seq<Seq<char>>>) -> InvocationView {
    InvocationView {
        cwd: worktree,
        argv: match command {
            Some(argv) => argv,
            None => default_git_update(),
        },
    }
}

/// Update git before the rest of the bootstrap (defaults to `git fetch`).
pub fn git_update(worktree: &str, command: Option<&[String]>) -> (r: Invocation)
    ensures
        r@ == git_update_spec(
            worktree@,
            match command {
                Some(argv) => Some(strs(argv@)),
                None => None,
            },
        ),
{
    let argv = match command {
        Some(argv) => clone_strs(argv),
        None => {
            let v = vec![owned("git"), owned("fetch"), owned("--all"), owned("--prune")];
            assert(strs(v@) =~= default_git_update());
            v
        },
    };
    Invocation { cwd: owned(worktree), argv }
}

/// Where a hook runs: the worktree, or its subdirectory `dir`.
pub open spec fn hook_spec(worktree: Seq<char>, hook: HookView) -> InvocationView {
    InvocationView {
        cwd: match hook.dir {
            Some(dir) => path_join(worktree, dir),
            None => worktree,
        },
        argv: hook.command,
    }
}

/// The hooks' commands, in order.
pub open spec fn hooks_spec(worktree: Seq<char>, hooks: Seq<HookView>) -> Seq<InvocationView> {
    hooks.map_values(|h: HookView| hook_spec(worktree, h))
}

/// The commands of a list of hooks, in order, each in the worktree or in its
/// own subdirectory of it.
pub fn run_hooks(worktree: &str, hooks: &[CommandConfig]) -> (r: Vec<Invocation>)
    ensures
        invocations_view(r@) == hooks_spec(worktree@, hooks_view(hooks@)),
{
    let mut r: Vec<Invocation> = Vec::new();
    let mut i: usize = 0;
    while i < hooks.len()
        invariant
            i <= hooks@.len(),
            invocations_view(r@) == hooks_spec(worktree@, hooks_view(hooks@.take(i as int))),
        decreases hooks@.len() - i,
    {
        let hook = &hooks[i];
        let cwd = match &hook.dir {
            Some(dir) => join_path(worktree, dir.as_str()),
            None => owned(worktree),
        };
        let ghost before = r@;
        r.push(Invocation { cwd, argv: clone_strs(hook.command.as_slice()) });
        assert(hooks@.take(i + 1) =~= hooks@.take(i as int).push(hooks@[i as int]));
        assert(invocations_view(r@) =~= invocations_view(before).push(r@[i as int]@));
        assert(hooks_spec(worktree@, hooks_view(hooks@.take(i + 1))) =~= hooks_spec(
            worktree@,
            hooks_view(hooks@.take(i as int)),
        ).push(hook_spec(worktree@, hooks@[i as int]@)));
        i = i + 1;
    }
    assert(hooks@.take(hooks@.len() as int) =~= hooks@);
    r
}

/// Whether a command may be started: it needs a program, and its working
/// directory must be a directory (`cwd_is_dir`, which the caller looked up).
pub open spec fn check_command_spec(inv: InvocationView, cwd_is_dir: bool) -> Result<(), ErrorView> {
    if inv.argv.len() == 0 {
        Err(ErrorView::EmptyCommand)
    } else if !cwd_is_dir {
        Err(ErrorView::MissingWorkingDir { cwd: inv.cwd, command: join_words(inv.argv) })
    } else {
        Ok(())
    }
}

/// The view of a result that carries a failure.
pub open spec fn result_view(r: Result<(), BootstrapError>) -> Result<(), ErrorView> {
    match r {
        Ok(()) => Ok(()),
        Err(e) => Err(e@),
    }
}

/// Checked before a command is started: an empty argv is a config error, and
/// a working directory that is not a directory is reported as such rather
/// than as a failure to start the program.
pub fn check_command(inv: &Invocation, cwd_is_dir: bool) -> (r: Result<(), BootstrapError>)
    ensures
        result_view(r) == check_command_spec(inv@, cwd_is_dir),
{
    if inv.argv.len() == 0 {
        return Err(BootstrapError::EmptyCommand);
    }
    if !cwd_is_dir {
        return Err(
            BootstrapError::MissingWorkingDir {
                cwd: owned(inv.cwd.as_str()),
                command: join_with_spaces(inv.argv.as_slice()),
            },
        );
    }
    Ok(())
}

/// What a finished command means for the bootstrap: a non-zero exit
/// (`success` false, `status` as the system reports it) aborts.
pub fn check_exit(inv: &Invocation, success: bool, status: &str) -> (r: Result<(), BootstrapError>)
    ensures
        success ==> r is Ok,
        !success ==> result_view(r) == Err::<(), ErrorView>(
            ErrorView::CommandFailed { command: join_words(inv@.argv), status: status@ },
        ),
{
    if success {
        Ok(())
    } else {
        Err(
            BootstrapError::CommandFailed {
                command: join_with_spaces(inv.argv.as_slice()),
                status: owned(status),
            },
        )
    }
}

/// One file to copy: `from` in the source repo to `to` in the worktree, both
/// at the relative path `rel`.
#[derive(Debug, PartialEq, Eq)]
pub struct CopyOp {
    pub rel: String,
    pub from: String,
    pub to: String,
}

/// A copy, as text.
pub struct CopyView {
    pub rel: Seq<char>,
    pub from: Seq<char>,
    pub to: Seq<char>,
}

impl View for CopyOp {
    type V = CopyView;

    open spec fn view(&self) -> CopyView {
        CopyView { rel: self.rel@, from: self.from@, to: self.to@ }
    }
}

/// The views of a sequence of copies.
pub open spec fn copies_view(v: Seq<CopyOp>) -> Seq<CopyView> {
    v.map_values(|c: CopyOp| c@)
}

/// The copy of `rel` from the source repo to the same place in the worktree.
pub open spec fn copy_spec(source: Seq<char>, worktree: Seq<char>, rel: Seq<char>) -> CopyView {
    CopyView { rel, from: path_join(source, rel), to: path_join(worktree, rel) }
}

/// The copies of each of `rels`, in order.
pub open spec fn copies_spec(source: Seq<char>, worktree: Seq<char>, rels: Seq<Seq<char>>) -> Seq<CopyView> {
    rels.map_values(|rel: Seq<char>| copy_spec(source, worktree, rel))
}

/// A relative path copied between two disjoint directories is read from
/// inside the source and written inside the worktree, never inside the
/// source.
pub proof fn law_copy_lands_in_the_worktree(source: Seq<char>, worktree: Seq<char>, rel: Seq<char>)
    requires
        source.len() > 0,
        worktree.len() > 0,
        rel.len() > 0,
        rel[0] != '/',
        disjoint(worktree, source),
    ensures
        inside(copy_spec(source, worktree, rel).to, worktree),
        !inside(copy_spec(source, worktree, rel).to, source),
        inside(copy_spec(source, worktree, rel).from, source),
{
    law_relative_join_stays_inside(worktree, rel);
    law_relative_join_stays_inside(source, rel);
    law_inside_one_of_disjoint_is_outside_the_other(path_join(worktree, rel), worktree, source);
}

/// Copy `source/rel` to `worktree/rel`.
pub fn copy_op(source: &str, worktree: &str, rel: &str) -> (r: CopyOp)
    ensures
        r@ == copy_spec(source@, worktree@, rel@),
{
    CopyOp { rel: owned(rel), from: join_path(source, rel), to: join_path(worktree, rel) }
}

fn copy_ops(source: &str, worktree: &str, rels: &[String]) -> (r: Vec<CopyOp>)
    ensures
        copies_view(r@) == copies_spec(source@, worktree@, strs(rels@)),
{
    let mut r: Vec<CopyOp> = Vec::new();
    let mut i: usize = 0;
    while i < rels.len()
        invariant
            i <= rels@.len(),
            copies_view(r@) == copies_spec(source@, worktree@, strs(rels@.take(i as int))),
        decreases rels@.len() - i,
    {
        let ghost before = r@;
        r.push(copy_op(source, worktree, rels[i].as_str()));
        assert(rels@.take(i + 1) =~= rels@.take(i as int).push(rels@[i as int]));
        assert(copies_view(r@) =~= copies_view(before).push(r@[i as int]@));
        assert(copies_spec(source@, worktree@, strs(rels@.take(i + 1))) =~= copies_spec(
            source@,
            worktree@,
            strs(rels@.take(i as int)),
        ).push(copy_spec(source@, worktree@, rels@[i as int]@)));
        i = i + 1;
    }
    assert(rels@.take(rels@.len() as int) =~= rels@);
    r
}

/// The copies for an explicit list of relative paths, one per path, in
/// order. Those whose source is missing are skipped by the caller, not
/// treated as errors.
pub fn copy_files(source: &str, worktree: &str, files: &[String]) -> (r: Vec<CopyOp>)
    ensures
        copies_view(r@) == copies_spec(source@, worktree@, strs(files@)),
{
    copy_ops(source, worktree, files)
}

/// Default filename globs for discovery: `.env` and `.env.<anything>`.
pub open spec fn default_env_patterns() -> Seq<Seq<char>> {
    seq![".env"@, ".env.*"@]
}

/// The default discovery globs.
pub fn env_patterns() -> (r: Vec<String>)
    ensures
        strs(r@) == default_env_patterns(),
{
    let r = vec![owned(".env"), owned(".env.*")];
    assert(strs(r@) =~= default_env_patterns());
    r
}

/// The bytes of `.env`.
pub open spec fn env_name() -> Seq<u8> {
    seq![46u8, 101u8, 110u8, 118u8]
}

/// The default globs select `.env` and `.env.<anything>` (`.env.local`,
/// `.env.production.local`, ...), and no other file name.
pub proof fn law_default_patterns_select_env_files(name: Seq<u8>)
    ensures
        (exists|j: int|
            0 <= j < default_env_patterns().len() && #[trigger] glob_matches(
                vstd::utf8::encode_utf8(default_env_patterns()[j]),
                name,
            )) <==> (name == env_name() || (name.len() >= 5 && name.take(5) == env_name().push(46u8))),
{
    reveal_strlit(".env");
    reveal_strlit(".env.*");
    let c0 = ".env"@;
    let c1 = ".env.*"@;
    assert(vstd::utf8::is_ascii_chars(c0));
    assert(vstd::utf8::is_ascii_chars(c1));
    vstd::utf8::is_ascii_chars_encode_utf8(c0);
    vstd::utf8::is_ascii_chars_encode_utf8(c1);
    let p0 = vstd::utf8::encode_utf8(c0);
    let p1 = vstd::utf8::encode_utf8(c1);
    let dot_env = env_name().push(46u8);
    assert(p0 =~= env_name());
    assert(p1 =~= dot_env + seq![star()] + Seq::<u8>::empty());
    assert(!env_name().contains(star())) by {
        if env_name().contains(star()) {
            let i = choose|i: int| 0 <= i < env_name().len() && env_name()[i] == star();
        }
    }
    assert(!dot_env.contains(star())) by {
        if dot_env.contains(star()) {
            let i = choose|i: int| 0 <= i < dot_env.len() && dot_env[i] == star();
        }
    }
    assert(!Seq::<u8>::empty().contains(star()));
    law_literal_pattern_matches_only_itself(p0, name);
    law_single_star_is_prefix_and_suffix(dot_env, Seq::<u8>::empty(), name);
    assert(name.skip(name.len() as int) =~= Seq::<u8>::empty());
    assert(default_env_patterns()[0] == c0);
    assert(default_env_patterns()[1] == c1);
    if glob_matches(p0, name) {
        assert(glob_matches(vstd::utf8::encode_utf8(default_env_patterns()[0]), name));
    }
    if glob_matches(p1, name) {
        assert(glob_matches(vstd::utf8::encode_utf8(default_env_patterns()[1]), name));
    }
}

/// The pieces of `bytes` between NUL bytes, in order (as `[u8]::split` gives
/// them: `n` NULs give `n + 1` pieces, some possibly empty).
pub open spec fn split_nul(bytes: Seq<u8>) -> Seq<Seq<u8>>
    decreases bytes.len(),
{
    if bytes.len() == 0 {
        seq![Seq::empty()]
    } else {
        let init = split_nul(bytes.drop_last());
        if bytes.last() == 0 {
            init.push(Seq::empty())
        } else {
            init.update(init.len() - 1, init.last().push(bytes.last()))
        }
    }
}

proof fn lemma_split_nul_nonempty(bytes: Seq<u8>)
    ensures
        split_nul(bytes).len() >= 1,
    decreases bytes.len(),
{
    if bytes.len() > 0 {
        lemma_split_nul_nonempty(bytes.drop_last());
    }
}

/// The views of a sequence of byte vectors.
pub open spec fn byte_strs(v: Seq<Vec<u8>>) -> Seq<Seq<u8>> {
    v.map_values(|b: Vec<u8>| b@)
}

/// Split NUL-delimited output into its entries.
pub fn split_entries(bytes: &[u8]) -> (r: Vec<Vec<u8>>)
    ensures
        byte_strs(r@) == split_nul(bytes@),
{
    let mut done: Vec<Vec<u8>> = Vec::new();
    let mut cur: Vec<u8> = Vec::new();
    let mut i: usize = 0;
    assert(bytes@.take(0) =~= Seq::<u8>::empty());
    assert(byte_strs(done@).push(cur@) =~= seq![Seq::<u8>::empty()]);
    while i < bytes.len()
        invariant
            i <= bytes@.len(),
            byte_strs(done@).push(cur@) == split_nul(bytes@.take(i as int)),
        decreases bytes@.len() - i,
    {
        let ghost prev = bytes@.take(i as int);
        assert(bytes@.take(i + 1).drop_last() =~= prev);
        assert(bytes@.take(i + 1).last() == bytes@[i as int]);
        let ghost old_done = done@;
        let ghost old_cur = cur@;
        if bytes[i] == 0 {
            let finished = cur;
            done.push(finished);
            cur = Vec::new();
            assert(byte_strs(done@) =~= byte_strs(old_done).push(old_cur));
            assert(byte_strs(done@).push(cur@) =~= split_nul(prev).push(Seq::empty()));
        } else {
            cur.push(bytes[i]);
            assert(byte_strs(done@).push(cur@) =~= split_nul(prev).update(
                split_nul(prev).len() - 1,
                split_nul(prev).last().push(bytes@[i as int]),
            ));
        }
        i = i + 1;
    }
    assert(bytes@.take(bytes@.len() as int) =~= bytes@);
    let ghost old_done = done@;
    done.push(cur);
    assert(byte_strs(done@) =~= byte_strs(old_done).push(done@[old_done.len() as int]@));
    done
}

/// The bytes after the last `/` of `path` (all of them when there is none).
pub open spec fn base_name(path: Seq<u8>) -> Seq<u8> {
    path.skip(after_last(path, 47u8))
}

/// Whether discovery copies the listed entry `entry` (raw bytes) with the
/// globs `patterns`: it is not empty, its text does not end with `/` (a
/// wholly-ignored directory), and its file name matches one of the globs.
pub open spec fn entry_selected(entry: Seq<u8>, patterns: Seq<Seq<char>>) -> bool {
    let text = vstd::utf8::encode_utf8(lossy_utf8(entry));
    &&& entry.len() > 0
    &&& !(text.len() > 0 && text.last() == 47u8)
    &&& exists|j: int|
        0 <= j < patterns.len() && #[trigger] glob_matches(
            vstd::utf8::encode_utf8(patterns[j]),
            base_name(text),
        )
}

/// The relative paths discovery copies, in listing order: the selected
/// entries of the NUL-delimited listing, each as text.
pub open spec fn discovered(listing: Seq<u8>, patterns: Seq<Seq<char>>) -> Seq<Seq<char>> {
    split_nul(listing).filter(|e: Seq<u8>| entry_selected(e, patterns)).map_values(
        |e: Seq<u8>| lossy_utf8(e),
    )
}

fn select_entry(entry: &Vec<u8>, patterns: &[String]) -> (r: Option<String>)
    ensures
        r is Some <==> entry_selected(entry@, strs(patterns@)),
        r matches Some(rel) ==> rel@ == lossy_utf8(entry@),
{
    if entry.len() == 0 {
        return None;
    }
    let rel = utf8_lossy(entry.as_slice());
    let text = rel.as_str().as_bytes();
    if text.len() > 0 && text[text.len() - 1] == 47u8 {
        return None;
    }
    let start = after_last_byte(text, 47u8);
    proof {
        lemma_after_last(text@, 47u8);
    }
    let mut j: usize = 0;
    while j < patterns.len()
        invariant
            j <= patterns@.len(),
            start <= text@.len(),
            start == after_last(text@, 47u8),
            text@ == vstd::utf8::encode_utf8(rel@),
            rel@ == lossy_utf8(entry@),
            entry@.len() > 0,
            !(text@.len() > 0 && text@.last() == 47u8),
            forall|k: int|
                0 <= k < j ==> !#[trigger] glob_matches(
                    vstd::utf8::encode_utf8(strs(patterns@)[k]),
                    base_name(text@),
                ),
        decreases patterns@.len() - j,
    {
        let pat = patterns[j].as_str().as_bytes();
        assert(pat@.skip(0) =~= pat@);
        if glob_from(pat, 0, text, start) {
            assert(glob_matches(vstd::utf8::encode_utf8(strs(patterns@)[j as int]), base_name(text@)));
            return Some(rel);
        }
        j = j + 1;
    }
    None
}

fn discovered_copies(
    source: &str,
    worktree: &str,
    patterns: Option<&[String]>,
    listing: &[u8],
) -> (r: Vec<CopyOp>)
    ensures
        copies_view(r@) == copies_spec(
            source@,
            worktree@,
            discovered(
                listing@,
                match patterns {
                    Some(p) => strs(p@),
                    None => default_env_patterns(),
                },
            ),
        ),
{
    let defaults = env_patterns();
    let pats: &[String] = match patterns {
        Some(p) => p,
        None => defaults.as_slice(),
    };
    let ghost pv = strs(pats@);
    let ghost pred = |e: Seq<u8>| entry_selected(e, pv);
    let entries = split_entries(listing);
    let mut rels: Vec<String> = Vec::new();
    let mut i: usize = 0;
    while i < entries.len()
        invariant
            i <= entries@.len(),
            byte_strs(entries@) == split_nul(listing@),
            pv == strs(pats@),
            pred == (|e: Seq<u8>| entry_selected(e, pv)),
            strs(rels@) == byte_strs(entries@).take(i as int).filter(pred).map_values(
                |e: Seq<u8>| lossy_utf8(e),
            ),
        decreases entries@.len() - i,
    {
        let ghost es = byte_strs(entries@);
        let ghost before = rels@;
        assert(es.take(i + 1).drop_last() =~= es.take(i as int));
        assert(es.take(i + 1).last() == entries@[i as int]@);
        let ghost e = entries@[i as int]@;
        proof {
            reveal_with_fuel(Seq::<_>::filter, 1);
        }
        assert(es.take(i + 1).filter(pred) == if pred(e) {
            es.take(i as int).filter(pred).push(e)
        } else {
            es.take(i as int).filter(pred)
        });
        match select_entry(&entries[i], pats) {
            Some(rel) => {
                rels.push(rel);
                assert(strs(rels@) =~= strs(before).push(lossy_utf8(e)));
                assert(pred(e));
            },
            None => {
                assert(!pred(e));
            },
        }
        assert(strs(rels@) =~= es.take(i + 1).filter(pred).map_values(|e: Seq<u8>| lossy_utf8(e)));
        i = i + 1;
    }
    assert(byte_strs(entries@).take(entries@.len() as int) =~= byte_strs(entries@));
    copy_ops(source, worktree, rels.as_slice())
}

/// The copies discovery makes. `listing` is what `git ls-files -z --others
/// --ignored --exclude-standard --directory --full-name` printed in the
/// source repo, or none when it exited unsuccessfully: then discovery is
/// skipped (none), not an error. Otherwise each listed file whose name
/// matches one of `patterns` (default: `.env`, `.env.*`) goes to the same
/// relative path in the worktree, in listing order. Wholly-ignored
/// directories (listed with a trailing `/`) are skipped, not walked into.
pub fn copy_gitignored(
    source: &str,
    worktree: &str,
    patterns: Option<&[String]>,
    listing: Option<&[u8]>,
) -> (r: Option<Vec<CopyOp>>)
    ensures
        match listing {
            None => r is None,
            Some(l) => r matches Some(ops) && copies_view(ops@) == copies_spec(
                source@,
                worktree@,
                discovered(
                    l@,
                    match patterns {
                        Some(p) => strs(p@),
                        None => default_env_patterns(),
                    },
                ),
            ),
        },
{
    match listing {
        None => None,
        Some(l) => Some(discovered_copies(source, worktree, patterns, l)),
    }
}

/// A copy of a copy.
pub fn clone_copy(op: &CopyOp) -> (r: CopyOp)
    ensures
        r@ == op@,
{
    CopyOp { rel: owned(op.rel.as_str()), from: owned(op.from.as_str()), to: owned(op.to.as_str()) }
}

/// The copies whose flag is set, in order.
pub open spec fn present_only(ops: Seq<CopyView>, exists: Seq<bool>) -> Seq<CopyView>
    decreases ops.len(),
{
    if ops.len() == 0 || exists.len() == 0 {
        Seq::empty()
    } else {
        let init = present_only(ops.drop_last(), exists.drop_last());
        if exists.last() {
            init.push(ops.last())
        } else {
            init
        }
    }
}

/// The copies to make of an explicit list, given whether each one's source
/// exists (`exists[i]` for `ops[i]`): exactly those whose source exists, in
/// order. A file missing in the source is skipped, not an error.
pub fn copies_to_make(ops: &[CopyOp], exists: &[bool]) -> (r: Vec<CopyOp>)
    requires
        ops@.len() == exists@.len(),
    ensures
        copies_view(r@) == present_only(copies_view(ops@), exists@),
{
    let mut r: Vec<CopyOp> = Vec::new();
    let mut i: usize = 0;
    while i < ops.len()
        invariant
            i <= ops@.len(),
            ops@.len() == exists@.len(),
            copies_view(r@) == present_only(copies_view(ops@.take(i as int)), exists@.take(i as int)),
        decreases ops@.len() - i,
    {
        let ghost before = r@;
        assert(copies_view(ops@.take(i + 1)).drop_last() =~= copies_view(ops@.take(i as int)));
        assert(exists@.take(i + 1).drop_last() =~= exists@.take(i as int));
        assert(copies_view(ops@.take(i + 1)).last() == ops@[i as int]@);
        if exists[i] {
            r.push(clone_copy(&ops[i]));
            assert(copies_view(r@) =~= copies_view(before).push(ops@[i as int]@));
        }
        i = i + 1;
    }
    assert(ops@.take(ops@.len() as int) =~= ops@);
    assert(exists@.take(exists@.len() as int) =~= exists@);
    r
}

/// What follows copy `index` of `ops` once it finished with `outcome`: a
/// failed copy stops the step, and with it the bootstrap; otherwise the next
/// copy, or the end.
pub fn after_copy(ops: &[CopyOp], index: usize, outcome: Result<(), BootstrapError>) -> (r: crate::Next)
    requires
        index < ops@.len(),
    ensures
        match outcome {
            Err(e) => r matches crate::Next::Stop(f) && f@ == e@,
            Ok(()) => if index + 1 < ops@.len() {
                r == crate::Next::Perform((index + 1) as usize)
            } else {
                r is Done
            },
        },
{
    crate::after_step(ops.len(), index, outcome)
}

/// A rule, as text.
pub open spec fn rule_view(marker: Seq<char>, command: Seq<Seq<char>>) -> RuleView {
    RuleView { marker, command }
}

/// The built-in install rules, checked *after* any user-defined rules. The
/// first matching marker wins, so more specific lockfiles precede generic
/// manifests. A marker `*.ext` matches any file with that extension.
pub open spec fn builtin_rules() -> Seq<RuleView> {
    seq![
        rule_view("bun.lockb"@, seq!["bun"@, "install"@]),
        rule_view("pnpm-lock.yaml"@, seq!["pnpm"@, "install"@, "--frozen-lockfile"@]),
        rule_view("yarn.lock"@, seq!["yarn"@, "install"@, "--frozen-lockfile"@]),
        rule_view("package-lock.json"@, seq!["npm"@, "ci"@]),
        rule_view("deno.lock"@, seq!["deno"@, "install"@]),
        rule_view("package.json"@, seq!["npm"@, "install"@]),
        rule_view("Cargo.toml"@, seq!["cargo"@, "fetch"@]),
        rule_view("go.mod"@, seq!["go"@, "mod"@, "download"@]),
        rule_view("uv.lock"@, seq!["uv"@, "sync"@]),
        rule_view("poetry.lock"@, seq!["poetry"@, "install"@]),
        rule_view("Pipfile.lock"@, seq!["pipenv"@, "install"@, "--dev"@]),
        rule_view("requirements.txt"@, seq!["pip"@, "install"@, "-r"@, "requirements.txt"@]),
        rule_view("Gemfile"@, seq!["bundle"@, "install"@]),
        rule_view("composer.json"@, seq!["composer"@, "install"@]),
        rule_view("pom.xml"@, seq!["mvn"@, "install"@, "-DskipTests"@]),
        rule_view("build.gradle.kts"@, seq!["gradle"@, "build"@, "-x"@, "test"@]),
        rule_view("build.gradle"@, seq!["gradle"@, "build"@, "-x"@, "test"@]),
        rule_view("build.sbt"@, seq!["sbt"@, "update"@]),
        rule_view("*.sln"@, seq!["dotnet"@, "restore"@]),
        rule_view("*.csproj"@, seq!["dotnet"@, "restore"@]),
        rule_view("vcpkg.json"@, seq!["vcpkg"@, "install"@]),
        rule_view("conanfile.txt"@, seq!["conan"@, "install"@, "."@]),
        rule_view("conanfile.py"@, seq!["conan"@, "install"@, "."@]),
        rule_view("Package.swift"@, seq!["swift"@, "package"@, "resolve"@]),
        rule_view("Podfile"@, seq!["pod"@, "install"@]),
        rule_view("pubspec.yaml"@, seq!["dart"@, "pub"@, "get"@]),
        rule_view("mix.exs"@, seq!["mix"@, "deps.get"@]),
        rule_view("rebar.config"@, seq!["rebar3"@, "get-deps"@]),
        rule_view("stack.yaml"@, seq!["stack"@, "build"@, "--only-dependencies"@]),
        rule_view("cabal.project"@, seq!["cabal"@, "build"@, "--only-dependencies"@]),
        rule_view("renv.lock"@, seq!["Rscript"@, "-e"@, "renv::restore(prompt = FALSE)"@]),
        rule_view("cpanfile"@, seq!["cpanm"@, "--installdeps"@, "."@]),
        rule_view("deps.edn"@, seq!["clojure"@, "-P"@]),
        rule_view("project.clj"@, seq!["lein"@, "deps"@]),
        rule_view("Project.toml"@, seq!["julia"@, "--project"@, "-e"@, "using Pkg; Pkg.instantiate()"@]),
        rule_view("shard.yml"@, seq!["shards"@, "install"@]),
    ]
}

fn rule2(marker: &str, a: &str, b: &str) -> (r: InstallRule)
    ensures
        r@ == rule_view(marker@, seq![a@, b@]),
{
    let command = vec![owned(a), owned(b)];
    assert(strs(command@) =~= seq![a@, b@]);
    InstallRule { marker: owned(marker), command }
}

fn rule3(marker: &str, a: &str, b: &str, c: &str) -> (r: InstallRule)
    ensures
        r@ == rule_view(marker@, seq![a@, b@, c@]),
{
    let command = vec![owned(a), owned(b), owned(c)];
    assert(strs(command@) =~= seq![a@, b@, c@]);
    InstallRule { marker: owned(marker), command }
}

fn rule4(marker: &str, a: &str, b: &str, c: &str, d: &str) -> (r: InstallRule)
    ensures
        r@ == rule_view(marker@, seq![a@, b@, c@, d@]),
{
    let command = vec![owned(a), owned(b), owned(c), owned(d)];
    assert(strs(command@) =~= seq![a@, b@, c@, d@]);
    InstallRule { marker: owned(marker), command }
}

/// The documented detection table, entry by entry (README "Built-in
/// detection"): each built-in's marker and the exact command it runs, in the
/// order they are checked.
pub proof fn law_builtin_rules_are_the_documented_table()
    ensures
        builtin_rules().len() == 36,
        builtin_rules()[0].marker == "bun.lockb"@ && builtin_rules()[0].command == seq!["bun"@, "install"@],
        builtin_rules()[1].marker == "pnpm-lock.yaml"@ && builtin_rules()[1].command == seq!["pnpm"@, "install"@, "--frozen-lockfile"@],
        builtin_rules()[2].marker == "yarn.lock"@ && builtin_rules()[2].command == seq!["yarn"@, "install"@, "--frozen-lockfile"@],
        builtin_rules()[3].marker == "package-lock.json"@ && builtin_rules()[3].command == seq!["npm"@, "ci"@],
        builtin_rules()[4].marker == "deno.lock"@ && builtin_rules()[4].command == seq!["deno"@, "install"@],
        builtin_rules()[5].marker == "package.json"@ && builtin_rules()[5].command == seq!["npm"@, "install"@],
        builtin_rules()[6].marker == "Cargo.toml"@ && builtin_rules()[6].command == seq!["cargo"@, "fetch"@],
        builtin_rules()[7].marker == "go.mod"@ && builtin_rules()[7].command == seq!["go"@, "mod"@, "download"@],
        builtin_rules()[8].marker == "uv.lock"@ && builtin_rules()[8].command == seq!["uv"@, "sync"@],
        builtin_rules()[9].marker == "poetry.lock"@ && builtin_rules()[9].command == seq!["poetry"@, "install"@],
        builtin_rules()[10].marker == "Pipfile.lock"@ && builtin_rules()[10].command == seq!["pipenv"@, "install"@, "--dev"@],
        builtin_rules()[11].marker == "requirements.txt"@ && builtin_rules()[11].command == seq!["pip"@, "install"@, "-r"@, "requirements.txt"@],
        builtin_rules()[12].marker == "Gemfile"@ && builtin_rules()[12].command == seq!["bundle"@, "install"@],
        builtin_rules()[13].marker == "composer.json"@ && builtin_rules()[13].command == seq!["composer"@, "install"@],
        builtin_rules()[14].marker == "pom.xml"@ && builtin_rules()[14].command == seq!["mvn"@, "install"@, "-DskipTests"@],
        builtin_rules()[15].marker == "build.gradle.kts"@ && builtin_rules()[15].command == seq!["gradle"@, "build"@, "-x"@, "test"@],
        builtin_rules()[16].marker == "build.gradle"@ && builtin_rules()[16].command == seq!["gradle"@, "build"@, "-x"@, "test"@],
        builtin_rules()[17].marker == "build.sbt"@ && builtin_rules()[17].command == seq!["sbt"@, "update"@],
        builtin_rules()[18].marker == "*.sln"@ && builtin_rules()[18].command == seq!["dotnet"@, "restore"@],
        builtin_rules()[19].marker == "*.csproj"@ && builtin_rules()[19].command == seq!["dotnet"@, "restore"@],
        builtin_rules()[20].marker == "vcpkg.json"@ && builtin_rules()[20].command == seq!["vcpkg"@, "install"@],
        builtin_rules()[21].marker == "conanfile.txt"@ && builtin_rules()[21].command == seq!["conan"@, "install"@, "."@],
        builtin_rules()[22].marker == "conanfile.py"@ && builtin_rules()[22].command == seq!["conan"@, "install"@, "."@],
        builtin_rules()[23].marker == "Package.swift"@ && builtin_rules()[23].command == seq!["swift"@, "package"@, "resolve"@],
        builtin_rules()[24].marker == "Podfile"@ && builtin_rules()[24].command == seq!["pod"@, "install"@],
        builtin_rules()[25].marker == "pubspec.yaml"@ && builtin_rules()[25].command == seq!["dart"@, "pub"@, "get"@],
        builtin_rules()[26].marker == "mix.exs"@ && builtin_rules()[26].command == seq!["mix"@, "deps.get"@],
        builtin_rules()[27].marker == "rebar.config"@ && builtin_rules()[27].command == seq!["rebar3"@, "get-deps"@],
        builtin_rules()[28].marker == "stack.yaml"@ && builtin_rules()[28].command == seq!["stack"@, "build"@, "--only-dependencies"@],
        builtin_rules()[29].marker == "cabal.project"@ && builtin_rules()[29].command == seq!["cabal"@, "build"@, "--only-dependencies"@],
        builtin_rules()[30].marker == "renv.lock"@ && builtin_rules()[30].command == seq!["Rscript"@, "-e"@, "renv::restore(prompt = FALSE)"@],
        builtin_rules()[31].marker == "cpanfile"@ && builtin_rules()[31].command == seq!["cpanm"@, "--installdeps"@, "."@],
        builtin_rules()[32].marker == "deps.edn"@ && builtin_rules()[32].command == seq!["clojure"@, "-P"@],
        builtin_rules()[33].marker == "project.clj"@ && builtin_rules()[33].command == seq!["lein"@, "deps"@],
        builtin_rules()[34].marker == "Project.toml"@ && builtin_rules()[34].command == seq!["julia"@, "--project"@, "-e"@, "using Pkg; Pkg.instantiate()"@],
        builtin_rules()[35].marker == "shard.yml"@ && builtin_rules()[35].command == seq!["shards"@, "install"@],
{
}

/// The built-in install rules, in the order they are checked.
pub fn builtin_install_rules() -> (r: Vec<InstallRule>)
    ensures
        rules_view(r@) == builtin_rules(),
{
    let r = vec![
        rule2("bun.lockb", "bun", "install"),
        rule3("pnpm-lock.yaml", "pnpm", "install", "--frozen-lockfile"),
        rule3("yarn.lock", "yarn", "install", "--frozen-lockfile"),
        rule2("package-lock.json", "npm", "ci"),
        rule2("deno.lock", "deno", "install"),
        rule2("package.json", "npm", "install"),
        rule2("Cargo.toml", "cargo", "fetch"),
        rule3("go.mod", "go", "mod", "download"),
        rule2("uv.lock", "uv", "sync"),
        rule2("poetry.lock", "poetry", "install"),
        rule3("Pipfile.lock", "pipenv", "install", "--dev"),
        rule4("requirements.txt", "pip", "install", "-r", "requirements.txt"),
        rule2("Gemfile", "bundle", "install"),
        rule2("composer.json", "composer", "install"),
        rule3("pom.xml", "mvn", "install", "-DskipTests"),
        rule4("build.gradle.kts", "gradle", "build", "-x", "test"),
        rule4("build.gradle", "gradle", "build", "-x", "test"),
        rule2("build.sbt", "sbt", "update"),
        rule2("*.sln", "dotnet", "restore"),
        rule2("*.csproj", "dotnet", "restore"),
        rule2("vcpkg.json", "vcpkg", "install"),
        rule3("conanfile.txt", "conan", "install", "."),
        rule3("conanfile.py", "conan", "install", "."),
        rule3("Package.swift", "swift", "package", "resolve"),
        rule2("Podfile", "pod", "install"),
        rule3("pubspec.yaml", "dart", "pub", "get"),
        rule2("mix.exs", "mix", "deps.get"),
        rule2("rebar.config", "rebar3", "get-deps"),
        rule3("stack.yaml", "stack", "build", "--only-dependencies"),
        rule3("cabal.project", "cabal", "build", "--only-dependencies"),
        rule3("renv.lock", "Rscript", "-e", "renv::restore(prompt = FALSE)"),
        rule3("cpanfile", "cpanm", "--installdeps", "."),
        rule2("deps.edn", "clojure", "-P"),
        rule2("project.clj", "lein", "deps"),
        rule4("Project.toml", "julia", "--project", "-e", "using Pkg; Pkg.instantiate()"),
        rule2("shard.yml", "shards", "install"),
    ];
    assert(rules_view(r@) =~= builtin_rules());
    r
}

/// A copy of a rule.
pub fn clone_rule(rule: &InstallRule) -> (r: InstallRule)
    ensures
        r@ == rule@,
{
    InstallRule { marker: owned(rule.marker.as_str()), command: clone_strs(rule.command.as_slice()) }
}

/// One directory install detection runs in: `label` as configured, `base`
/// that directory inside the worktree.
#[derive(Debug, PartialEq, Eq)]
pub struct InstallDir {
    pub label: String,
    pub base: String,
}

/// What the install phase works with: the directories, each on its own, and
/// the rules in the order they are checked.
#[derive(Debug, PartialEq, Eq)]
pub struct InstallPlan {
    pub dirs: Vec<InstallDir>,
    pub candidates: Vec<InstallRule>,
}

/// An install directory, as text.
pub struct DirView {
    pub label: Seq<char>,
    pub base: Seq<char>,
}

/// An install phase, as text.
pub struct InstallPlanView {
    pub dirs: Seq<DirView>,
    pub candidates: Seq<RuleView>,
}

impl View for InstallDir {
    type V = DirView;

    open spec fn view(&self) -> DirView {
        DirView { label: self.label@, base: self.base@ }
    }
}

impl View for InstallPlan {
    type V = InstallPlanView;

    open spec fn view(&self) -> InstallPlanView {
        InstallPlanView {
            dirs: self.dirs@.map_values(|d: InstallDir| d@),
            candidates: rules_view(self.candidates@),
        }
    }
}

/// The directories install detection runs in: those configured, or the
/// worktree root (`.`) alone.
pub open spec fn install_labels(dirs: Option<Seq<Seq<char>>>) -> Seq<Seq<char>> {
    match dirs {
        Some(d) => d,
        None => seq!["."@],
    }
}

/// The install phase for a worktree: detection in each directory of
/// `install_labels(dirs)`, checking the user's `rules` first, then the
/// built-ins.
pub open spec fn install_spec(
    worktree: Seq<char>,
    rules: Seq<RuleView>,
    dirs: Option<Seq<Seq<char>>>,
) -> InstallPlanView {
    InstallPlanView {
        dirs: install_labels(dirs).map_values(
            |l: Seq<char>| DirView { label: l, base: path_join(worktree, l) },
        ),
        candidates: rules + builtin_rules(),
    }
}

/// Custom rules are checked before the built-ins, and the first present
/// marker wins: when the first present candidate is `k` and some custom rule
/// is present, `k` is a custom rule (the one the user wrote at `k`); when no
/// custom rule is present, `k` is the built-in at `k - rules.len()`.
pub proof fn law_custom_rules_are_checked_first(
    worktree: Seq<char>,
    rules: Seq<RuleView>,
    dirs: Option<Seq<Seq<char>>>,
    present: Seq<bool>,
    k: int,
)
    requires
        present.len() == install_spec(worktree, rules, dirs).candidates.len(),
        0 <= k < present.len(),
        present[k],
        forall|j: int| 0 <= j < k ==> !present[j],
    ensures
        (exists|i: int| 0 <= i < rules.len() && present[i]) ==> k < rules.len()
            && install_spec(worktree, rules, dirs).candidates[k] == rules[k],
        (forall|i: int| 0 <= i < rules.len() ==> !present[i]) ==> k >= rules.len()
            && install_spec(worktree, rules, dirs).candidates[k] == builtin_rules()[k - rules.len()],
{
    if exists|i: int| 0 <= i < rules.len() && present[i] {
        let i = choose|i: int| 0 <= i < rules.len() && present[i];
        assert(k <= i);
    }
}

/// Install dependencies inside the worktree. Detection runs independently in
/// each of `dirs` (relative to the worktree root, defaulting to the root
/// itself), so a polyglot monorepo can install a node app and a go service in
/// one bootstrap. User-defined `rules` come before the built-in table, so they
/// can add languages or override a built-in.
pub fn install_deps(worktree: &str, rules: &[InstallRule], dirs: Option<&[String]>) -> (r: InstallPlan)
    ensures
        r@ == install_spec(
            worktree@,
            rules_view(rules@),
            match dirs {
                Some(d) => Some(strs(d@)),
                None => None,
            },
        ),
{
    let labels: Vec<String> = match dirs {
        Some(d) => clone_strs(d),
        None => {
            let v = vec![owned(".")];
            assert(strs(v@) =~= seq!["."@]);
            v
        },
    };
    let ghost lv = install_labels(
        match dirs {
            Some(d) => Some(strs(d@)),
            None => None,
        },
    );
    assert(strs(labels@) == lv);
    let mut out: Vec<InstallDir> = Vec::new();
    let mut i: usize = 0;
    while i < labels.len()
        invariant
            i <= labels@.len(),
            strs(labels@) == lv,
            out@.map_values(|d: InstallDir| d@) == lv.take(i as int).map_values(
                |l: Seq<char>| DirView { label: l, base: path_join(worktree@, l) },
            ),
        decreases labels@.len() - i,
    {
        let ghost before = out@;
        let label = labels[i].as_str();
        out.push(InstallDir { label: owned(label), base: join_path(worktree, label) });
        assert(lv[i as int] == labels@[i as int]@);
        assert(lv.take(i + 1) =~= lv.take(i as int).push(lv[i as int]));
        assert(out@.map_values(|d: InstallDir| d@) =~= before.map_values(|d: InstallDir| d@).push(
            out@[i as int]@,
        ));
        i = i + 1;
    }
    assert(lv.take(labels@.len() as int) =~= lv);
    let mut candidates: Vec<InstallRule> = Vec::new();
    let mut j: usize = 0;
    while j < rules.len()
        invariant
            j <= rules@.len(),
            rules_view(candidates@) == rules_view(rules@.take(j as int)),
        decreases rules@.len() - j,
    {
        let ghost before = candidates@;
        candidates.push(clone_rule(&rules[j]));
        assert(rules@.take(j + 1) =~= rules@.take(j as int).push(rules@[j as int]));
        assert(rules_view(candidates@) =~= rules_view(before).push(rules@[j as int]@));
        assert(rules_view(rules@.take(j + 1)) =~= rules_view(rules@.take(j as int)).push(rules@[j as int]@));
        j = j + 1;
    }
    assert(rules@.take(rules@.len() as int) =~= rules@);
    let mut builtin = builtin_install_rules();
    candidates.append(&mut builtin);
    assert(rules_view(candidates@) =~= rules_view(rules@) + builtin_rules());
    InstallPlan { dirs: out, candidates }
}

impl InstallPlan {
    /// Before anything is installed, every directory must exist
    /// (`exists[i]` tells whether directory `i` is one): the first that does
    /// not aborts the phase, so a typo in the last entry cannot leave the
    /// earlier packages half-installed.
    pub fn check_dirs(&self, exists: &[bool]) -> (r: Result<(), BootstrapError>)
        requires
            exists@.len() == self@.dirs.len(),
        ensures
            r is Ok <==> forall|i: int| 0 <= i < exists@.len() ==> exists@[i],
            r is Err ==> exists|i: int|
                0 <= i < exists@.len() && !exists@[i] && (forall|j: int| 0 <= j < i ==> exists@[j])
                    && result_view(r) == Err::<(), ErrorView>(
                    ErrorView::MissingInstallDir { dir: self@.dirs[i].label },
                ),
    {
        let mut i: usize = 0;
        while i < exists.len()
            invariant
                i <= exists@.len(),
                exists@.len() == self.dirs@.len(),
                forall|j: int| 0 <= j < i ==> exists@[j],
            decreases exists@.len() - i,
        {
            if !exists[i] {
                let r = Err(BootstrapError::MissingInstallDir { dir: owned(self.dirs[i].label.as_str()) });
                assert(self@.dirs[i as int] == self.dirs@[i as int]@);
                return r;
            }
            i = i + 1;
        }
        Ok(())
    }

    /// What follows the install in directory `index` once it finished with
    /// `outcome`: a failed install stops the phase, and with it the
    /// bootstrap, so no later directory is attempted; otherwise the next
    /// directory, or the end.
    pub fn after_dir(&self, index: usize, outcome: Result<(), BootstrapError>) -> (r: crate::Next)
        requires
            index < self@.dirs.len(),
        ensures
            match outcome {
                Err(e) => r matches crate::Next::Stop(f) && f@ == e@,
                Ok(()) => if index + 1 < self@.dirs.len() {
                    r == crate::Next::Perform((index + 1) as usize)
                } else {
                    r is Done
                },
            },
    {
        crate::after_step(self.dirs.len(), index, outcome)
    }

    /// The install command for directory `d`, given which candidate markers
    /// are present there (`present[i]` for candidate `i`): the first present
    /// candidate's command, run in that directory; none when no marker is
    /// present, which skips the directory.
    pub fn command_for(&self, d: usize, present: &[bool]) -> (r: Option<Invocation>)
        requires
            d < self@.dirs.len(),
            present@.len() == self@.candidates.len(),
        ensures
            r is None <==> forall|i: int| 0 <= i < present@.len() ==> !present@[i],
            r matches Some(inv) ==> exists|i: int|
                0 <= i < present@.len() && present@[i] && (forall|j: int| 0 <= j < i ==> !present@[j])
                    && inv@ == (InvocationView {
                    cwd: self@.dirs[d as int].base,
                    argv: self@.candidates[i].command,
                }),
    {
        let mut i: usize = 0;
        while i < present.len()
            invariant
                i <= present@.len(),
                present@.len() == self.candidates@.len(),
                d < self.dirs@.len(),
                forall|j: int| 0 <= j < i ==> !present@[j],
            decreases present@.len() - i,
        {
            if present[i] {
                let rule = &self.candidates[i];
                let inv = Invocation {
                    cwd: owned(self.dirs[d].base.as_str()),
                    argv: clone_strs(rule.command.as_slice()),
                };
                assert(self@.dirs[d as int] == self.dirs@[d as int]@);
                assert(self@.candidates[i as int] == self.candidates@[i as int]@);
                return Some(inv);
            }
            i = i + 1;
        }
        None
    }
}

/// Whether `s` ends with `suffix`.
pub open spec fn ends_with(s: Seq<u8>, suffix: Seq<u8>) -> bool {
    s.len() >= suffix.len() && s.skip(s.len() - suffix.len()) == suffix
}

/// Whether a marker is present in a directory: a marker `*.ext` is present
/// when some entry's name ends with `.ext` (`entries` lists the names, or is
/// none when the directory could not be read); any other marker is present
/// when `base/marker` exists (`exists`).
pub open spec fn marker_matches_spec(marker: Seq<u8>, entries: Option<Seq<Seq<char>>>, present: bool) -> bool {
    if marker.len() >= 2 && marker[0] == 42u8 && marker[1] == 46u8 {
        match entries {
            Some(es) => some_name_ends_with(es, marker.skip(1)),
            None => false,
        }
    } else {
        present
    }
}

/// Whether one of `names` ends with the bytes `suffix`.
pub open spec fn some_name_ends_with(names: Seq<Seq<char>>, suffix: Seq<u8>) -> bool {
    exists|k: int| 0 <= k < names.len() && #[trigger] ends_with(vstd::utf8::encode_utf8(names[k]), suffix)
}

fn bytes_end_with(s: &[u8], suffix: &[u8]) -> (r: bool)
    ensures
        r == ends_with(s@, suffix@),
{
    if s.len() < suffix.len() {
        return false;
    }
    let off = s.len() - suffix.len();
    let mut i: usize = 0;
    while i < suffix.len()
        invariant
            off + suffix@.len() == s@.len(),
            s@.len() == s.len(),
            i <= suffix@.len(),
            forall|j: int| 0 <= j < i ==> s@[off + j] == suffix@[j],
        decreases suffix@.len() - i,
    {
        if s[off + i] != suffix[i] {
            assert(s@.skip(off as int)[i as int] != suffix@[i as int]);
            return false;
        }
        i = i + 1;
    }
    assert(s@.skip(off as int) =~= suffix@);
    true
}

/// Does a marker match in a directory? A `*.ext` marker matches any entry
/// whose name ends in `.ext`; anything else is an exact filename, present
/// when it exists.
pub fn marker_matches(marker: &str, entries: Option<&[String]>, present: bool) -> (r: bool)
    ensures
        r == marker_matches_spec(
            marker.spec_bytes(),
            match entries {
                Some(es) => Some(strs(es@)),
                None => None,
            },
            present,
        ),
{
    let m = marker.as_bytes();
    if m.len() >= 2 && m[0] == 42u8 && m[1] == 46u8 {
        let mut suffix: Vec<u8> = Vec::new();
        let mut k: usize = 1;
        while k < m.len()
            invariant
                1 <= k <= m@.len(),
                suffix@ == m@.subrange(1, k as int),
            decreases m@.len() - k,
        {
            suffix.push(m[k]);
            assert(m@.subrange(1, k + 1) =~= m@.subrange(1, k as int).push(m@[k as int]));
            k = k + 1;
        }
        assert(suffix@ =~= m@.skip(1));
        match entries {
            Some(es) => {
                let mut i: usize = 0;
                while i < es.len()
                    invariant
                        i <= es@.len(),
                        suffix@ == m@.skip(1),
                        m@ == marker.spec_bytes(),
                        m@.len() >= 2 && m@[0] == 42u8 && m@[1] == 46u8,
                        entries == Some(es),
                        forall|j: int|
                            0 <= j < i ==> !#[trigger] ends_with(
                                vstd::utf8::encode_utf8(strs(es@)[j]),
                                m@.skip(1),
                            ),
                    decreases es@.len() - i,
                {
                    let name = es[i].as_str().as_bytes();
                    assert(strs(es@)[i as int] == es@[i as int]@);
                    if bytes_end_with(name, suffix.as_slice()) {
                        assert(ends_with(vstd::utf8::encode_utf8(strs(es@)[i as int]), m@.skip(1)));
                        return true;
                    }
                    i = i + 1;
                }
                false
            },
            None => false,
        }
    } else {
        present
    }
}

/// Each hook's command is run exactly as configured, word for word, one
/// command per hook in the configured order, in the worktree or in its `dir`
/// joined onto the worktree.
pub proof fn law_hooks_run_as_configured(worktree: Seq<char>, hooks: Seq<HookView>)
    ensures
        hooks_spec(worktree, hooks).len() == hooks.len(),
        forall|k: int|
            0 <= k < hooks.len() ==> (#[trigger] hooks_spec(worktree, hooks)[k]).argv == hooks[k].command
                && hooks_spec(worktree, hooks)[k].cwd == match hooks[k].dir {
                Some(d) => path_join(worktree, d),
                None => worktree,
            },
{
}

/// One copy per relative path, in order, each from that path under the
/// source to that path under the worktree.
pub proof fn law_copies_follow_the_paths(source: Seq<char>, worktree: Seq<char>, rels: Seq<Seq<char>>)
    ensures
        copies_spec(source, worktree, rels).len() == rels.len(),
        forall|k: int|
            0 <= k < rels.len() ==> (#[trigger] copies_spec(source, worktree, rels)[k]).rel == rels[k]
                && copies_spec(source, worktree, rels)[k].from == path_join(source, rels[k])
                && copies_spec(source, worktree, rels)[k].to == path_join(worktree, rels[k]),
{
}

/// The number of `true` flags.
pub open spec fn true_count(flags: Seq<bool>) -> nat
    decreases flags.len(),
{
    if flags.len() == 0 {
        0
    } else {
        true_count(flags.drop_last()) + if flags.last() { 1nat } else { 0nat }
    }
}

/// `op` is one of `ops` whose flag is set.
pub open spec fn is_present_copy(op: CopyView, ops: Seq<CopyView>, flags: Seq<bool>) -> bool {
    exists|i: int| #![trigger ops[i]] 0 <= i < ops.len() && flags[i] && op == ops[i]
}

/// Skipping missing files keeps exactly the others: every copy whose source
/// exists is made, every copy made is one whose source exists, as many as
/// there are existing sources.
pub proof fn law_only_missing_files_are_skipped(ops: Seq<CopyView>, flags: Seq<bool>)
    requires
        ops.len() == flags.len(),
    ensures
        present_only(ops, flags).len() == true_count(flags),
        forall|i: int| 0 <= i < ops.len() && flags[i] ==> present_only(ops, flags).contains(#[trigger] ops[i]),
        forall|k: int|
            0 <= k < present_only(ops, flags).len() ==> is_present_copy(
                #[trigger] present_only(ops, flags)[k],
                ops,
                flags,
            ),
    decreases ops.len(),
{
    if ops.len() > 0 {
        let o1 = ops.drop_last();
        let e1 = flags.drop_last();
        law_only_missing_files_are_skipped(o1, e1);
        let r1 = present_only(o1, e1);
        let r = present_only(ops, flags);
        assert forall|i: int| 0 <= i < ops.len() && flags[i] implies r.contains(#[trigger] ops[i]) by {
            if i == ops.len() - 1 {
                assert(r[r.len() - 1] == ops[i]);
            } else {
                assert(o1[i] == ops[i]);
                assert(e1[i] == flags[i]);
                assert(r1.contains(o1[i]));
                let k = choose|k: int| 0 <= k < r1.len() && r1[k] == o1[i];
                assert(r[k] == r1[k]);
            }
        }
        assert forall|k: int|
            0 <= k < present_only(ops, flags).len() implies is_present_copy(
                #[trigger] present_only(ops, flags)[k],
                ops,
                flags,
            ) by {
            if k < r1.len() {
                assert(r[k] == r1[k]);
                assert(is_present_copy(r1[k], o1, e1));
                let i = choose|i: int| #![trigger o1[i]] 0 <= i < o1.len() && e1[i] && r1[k] == o1[i];
                assert(ops[i] == o1[i] && flags[i] == e1[i]);
                assert(0 <= i < ops.len() && flags[i] && r[k] == ops[i]);
            } else {
                let last = ops.len() - 1;
                assert(flags[last]);
                assert(r[k] == ops[last]);
                assert(0 <= last < ops.len() && flags[last] && r[k] == ops[last]);
            }
        }
    }
}

/// The number of entries discovery selects.
pub open spec fn selected_count(entries: Seq<Seq<u8>>, patterns: Seq<Seq<char>>) -> nat
    decreases entries.len(),
{
    if entries.len() == 0 {
        0
    } else {
        selected_count(entries.drop_last(), patterns) + if entry_selected(entries.last(), patterns) {
            1nat
        } else {
            0nat
        }
    }
}

proof fn lemma_filter_count(entries: Seq<Seq<u8>>, patterns: Seq<Seq<char>>)
    ensures
        entries.filter(|e: Seq<u8>| entry_selected(e, patterns)).len() == selected_count(entries, patterns),
    decreases entries.len(),
{
    reveal_with_fuel(Seq::<_>::filter, 1);
    if entries.len() > 0 {
        lemma_filter_count(entries.drop_last(), patterns);
    }
}

/// `text` is the text of one of the selected `entries`.
pub open spec fn is_selected_text(text: Seq<char>, entries: Seq<Seq<u8>>, patterns: Seq<Seq<char>>) -> bool {
    exists|i: int|
        #![trigger entries[i]]
        0 <= i < entries.len() && entry_selected(entries[i], patterns) && text == lossy_utf8(entries[i])
}

/// Discovery copies every selected entry of the listing, at any depth, and
/// nothing else: each selected entry's text is among the discovered paths,
/// each discovered path is the text of a selected entry, and there are as
/// many as there are selected entries.
pub proof fn law_discovery_copies_every_selected_entry(listing: Seq<u8>, patterns: Seq<Seq<char>>)
    ensures
        discovered(listing, patterns).len() == selected_count(split_nul(listing), patterns),
        forall|i: int|
            0 <= i < split_nul(listing).len() && entry_selected(#[trigger] split_nul(listing)[i], patterns)
                ==> discovered(listing, patterns).contains(lossy_utf8(split_nul(listing)[i])),
        forall|k: int|
            0 <= k < discovered(listing, patterns).len() ==> is_selected_text(
                #[trigger] discovered(listing, patterns)[k],
                split_nul(listing),
                patterns,
            ),
{
    let es = split_nul(listing);
    let sel = |e: Seq<u8>| entry_selected(e, patterns);
    let f = es.filter(sel);
    let d = discovered(listing, patterns);
    lemma_filter_count(es, patterns);
    assert(d == f.map_values(|e: Seq<u8>| lossy_utf8(e)));
    assert forall|i: int| 0 <= i < es.len() && entry_selected(#[trigger] es[i], patterns) implies d.contains(
        lossy_utf8(es[i]),
    ) by {
        es.lemma_filter_contains(sel, i);
        let j = choose|j: int| 0 <= j < f.len() && f[j] == es[i];
        assert(d[j] == lossy_utf8(es[i]));
    }
    assert forall|k: int|
        0 <= k < discovered(listing, patterns).len() implies is_selected_text(
            #[trigger] discovered(listing, patterns)[k],
            split_nul(listing),
            patterns,
        ) by {
        es.lemma_filter_pred(sel, k);
        assert(entry_selected(f[k], patterns));
        assert(f.contains(f[k]));
        es.lemma_filter_contains_rev(sel, f[k]);
        let i = choose|i: int| 0 <= i < es.len() && es[i] == f[k];
        assert(d[k] == lossy_utf8(f[k]));
        assert(0 <= i < es.len() && entry_selected(es[i], patterns) && d[k] == lossy_utf8(es[i]));
    }
}

/// An extension marker `*.ext` is present when any entry of the directory,
/// wherever it is listed, ends with `.ext`; an unreadable directory has none.
/// Any other marker is present exactly when that file exists.
pub proof fn law_markers_look_at_every_entry(marker: Seq<u8>, entries: Seq<Seq<char>>, present: bool)
    ensures
        marker.len() >= 2 && marker[0] == 42u8 && marker[1] == 46u8 ==> {
            &&& marker_matches_spec(marker, Some(entries), present) <==> exists|k: int|
                0 <= k < entries.len() && {
                    let name = #[trigger] vstd::utf8::encode_utf8(entries[k]);
                    name.len() >= marker.len() - 1 && name.skip(name.len() - (marker.len() - 1))
                        == marker.skip(1)
                }
            &&& !marker_matches_spec(marker, None, present)
        },
        !(marker.len() >= 2 && marker[0] == 42u8 && marker[1] == 46u8) ==> marker_matches_spec(
            marker,
            Some(entries),
            present,
        ) == present && marker_matches_spec(marker, None, present) == present,
{
    let suffix = marker.skip(1);
    if marker.len() >= 2 && marker[0] == 42u8 && marker[1] == 46u8 {
        assert(suffix.len() == marker.len() - 1);
        if marker_matches_spec(marker, Some(entries), present) {
            let k = choose|k: int|
                0 <= k < entries.len() && #[trigger] ends_with(vstd::utf8::encode_utf8(entries[k]), suffix);
            let name = vstd::utf8::encode_utf8(entries[k]);
            assert(name.len() >= marker.len() - 1 && name.skip(name.len() - (marker.len() - 1)) == suffix);
        }
        if exists|k: int|
            0 <= k < entries.len() && {
                let name = #[trigger] vstd::utf8::encode_utf8(entries[k]);
                name.len() >= marker.len() - 1 && name.skip(name.len() - (marker.len() - 1)) == marker.skip(1)
            } {
            let k = choose|k: int|
                0 <= k < entries.len() && {
                    let name = #[trigger] vstd::utf8::encode_utf8(entries[k]);
                    name.len() >= marker.len() - 1 && name.skip(name.len() - (marker.len() - 1))
                        == marker.skip(1)
                };
            assert(ends_with(vstd::utf8::encode_utf8(entries[k]), suffix));
            assert(some_name_ends_with(entries, suffix));
        }
    }
}

/// A command is started only with a program and an existing working
/// directory; an empty argv is reported before a missing directory, and a
/// missing directory names the directory and the whole command line.
pub proof fn law_commands_are_checked_before_starting(inv: InvocationView, cwd_is_dir: bool)
    ensures
        check_command_spec(inv, cwd_is_dir) is Ok <==> (inv.argv.len() > 0 && cwd_is_dir),
        inv.argv.len() == 0 ==> check_command_spec(inv, cwd_is_dir) == Err::<(), ErrorView>(
            ErrorView::EmptyCommand,
        ),
        inv.argv.len() > 0 && !cwd_is_dir ==> check_command_spec(inv, cwd_is_dir) == Err::<(), ErrorView>(
            ErrorView::MissingWorkingDir { cwd: inv.cwd, command: join_words(inv.argv) },
        ),
{
}

/// The bytes of `pieces` with one NUL between each two of them.
pub open spec fn join_nul(pieces: Seq<Seq<u8>>) -> Seq<u8>
    decreases pieces.len(),
{
    if pieces.len() == 0 {
        Seq::empty()
    } else if pieces.len() == 1 {
        pieces[0]
    } else {
        join_nul(pieces.drop_last()) + seq![0u8] + pieces.last()
    }
}

/// Splitting on NUL loses nothing and keeps no NUL: the pieces hold no NUL
/// byte, and joined back with NULs between them they give the listing.
pub proof fn law_split_nul_cuts_at_every_nul(bytes: Seq<u8>)
    ensures
        split_nul(bytes).len() >= 1,
        join_nul(split_nul(bytes)) == bytes,
        forall|i: int| 0 <= i < split_nul(bytes).len() ==> !(#[trigger] split_nul(bytes)[i]).contains(0u8),
    decreases bytes.len(),
{
    if bytes.len() == 0 {
        assert(join_nul(split_nul(bytes)) =~= bytes);
        assert(!Seq::<u8>::empty().contains(0u8));
    } else {
        let init = bytes.drop_last();
        law_split_nul_cuts_at_every_nul(init);
        let ps = split_nul(init);
        let n = ps.len();
        if bytes.last() == 0 {
            let qs = ps.push(Seq::empty());
            assert(qs.drop_last() =~= ps);
            assert(join_nul(qs) =~= bytes);
            assert(!Seq::<u8>::empty().contains(0u8));
            assert forall|i: int| 0 <= i < qs.len() implies !(#[trigger] qs[i]).contains(0u8) by {
                if i < n {
                    assert(qs[i] == ps[i]);
                }
            }
        } else {
            let last = ps.last().push(bytes.last());
            let qs = ps.update(n - 1, last);
            assert(!last.contains(0u8)) by {
                assert(!ps[n - 1].contains(0u8));
                if last.contains(0u8) {
                    let j = choose|j: int| 0 <= j < last.len() && last[j] == 0u8;
                    if j < ps.last().len() {
                        assert(ps[n - 1][j] == 0u8);
                    }
                }
            }
            assert forall|i: int| 0 <= i < qs.len() implies !(#[trigger] qs[i]).contains(0u8) by {
                if i < n - 1 {
                    assert(qs[i] == ps[i]);
                }
            }
            assert(qs.len() == n);
            assert(qs.last() == last);
            assert(bytes =~= init.push(bytes.last()));
            if n == 1 {
                assert(join_nul(ps) == ps[0]);
                assert(join_nul(qs) == qs[0]);
                assert(join_nul(qs) =~= bytes);
            } else {
                assert(qs.drop_last() =~= ps.drop_last());
                assert(join_nul(ps) == join_nul(ps.drop_last()) + seq![0u8] + ps.last());
                assert(join_nul(qs) == join_nul(qs.drop_last()) + seq![0u8] + qs.last());
                assert(join_nul(qs) =~= bytes);
            }
        }
    }
}

/// The name a glob is matched against is what follows the last `/` of the
/// listed path: it holds no `/`, ends the path, and the path before it is
/// empty or ends in `/`.
pub proof fn law_base_name_is_after_the_last_slash(path: Seq<u8>)
    ensures
        !base_name(path).contains(47u8),
        base_name(path).len() <= path.len(),
        path.skip(path.len() - base_name(path).len()) == base_name(path),
        base_name(path).len() < path.len() ==> path[path.len() - base_name(path).len() - 1] == 47u8,
{
    lemma_after_last(path, 47u8);
    let k = after_last(path, 47u8);
    let b = base_name(path);
    assert(b.len() == path.len() - k);
    assert(path.skip(k) =~= b);
    if b.contains(47u8) {
        let j = choose|j: int| 0 <= j < b.len() && b[j] == 47u8;
        assert(path[k + j] == 47u8);
    }
}

} // verus!
