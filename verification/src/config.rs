//! Per-repo bootstrap config, read from `.herdr/worktree-bootstrap.{toml,yaml,yml}`
//! in the repo. The types here are the schema; reading and parsing the file is
//! done by the program around the library, which hands the parsed values in.

use vstd::prelude::*;
use vstd::string::StringSliceAdditionalSpecFns;
use crate::text::{after_last, after_last_byte, lemma_after_last, opt_str, opt_strs, owned, strs};

verus! {

/// Update git (e.g. fetch) before anything else.
#[derive(Debug, PartialEq, Eq)]
pub struct GitConfig {
    /// Bring git up to date before the pre hooks run.
    pub update: bool,
    /// Override the update command. Defaults to `git fetch --all --prune`.
    pub command: Option<Vec<String>>,
}

/// Commands run before/after the copy + install phases.
#[derive(Debug, PartialEq, Eq)]
pub struct Hooks {
    /// Run first, before copy and install.
    pub pre: Vec<CommandConfig>,
    /// Run last, after copy and install.
    pub post: Vec<CommandConfig>,
}

/// Which files to bring from the source repo into the worktree.
#[derive(Debug, PartialEq, Eq)]
pub struct CopyConfig {
    pub enabled: bool,
    /// Explicit relative paths to copy from the source repo. When set,
    /// gitignored discovery is disabled and exactly these files are copied
    /// (missing ones are skipped). Omit to use recursive discovery instead.
    pub files: Option<Vec<String>>,
    /// Filename globs used by recursive discovery (only when `files` is
    /// omitted). Omit for the env-file defaults (`.env`, `.env.*`). `*`
    /// matches any sequence of characters.
    pub patterns: Option<Vec<String>>,
}

/// Dependency installation.
#[derive(Debug, PartialEq, Eq)]
pub struct InstallConfig {
    pub enabled: bool,
    /// Custom detection rules, checked *before* the built-ins.
    pub rules: Vec<InstallRule>,
    /// Directories (relative to the worktree) in which detection runs, each on
    /// its own. Omit for the worktree root alone.
    pub dirs: Option<Vec<String>>,
}

/// A custom install rule.
#[derive(Debug, PartialEq, Eq)]
pub struct InstallRule {
    /// File whose presence triggers this rule (e.g. "go.mod"); `*.ext` matches
    /// any file with that extension.
    pub marker: String,
    /// Command to run when the marker is found (e.g. ["go", "mod", "download"]).
    pub command: Vec<String>,
}

/// A hook: one command.
#[derive(Debug, PartialEq, Eq)]
pub struct CommandConfig {
    /// argv, e.g. ["cargo", "build"]. First element is the program.
    pub command: Vec<String>,
    /// Subdirectory of the worktree to run in (default: the root).
    pub dir: Option<String>,
}

/// When to tell the user how the bootstrap went.
#[derive(Debug, Clone, Copy, PartialEq, Eq, Structural)]
pub enum NotifyWhen {
    Always,
    Failure,
    Never,
}

/// The notification at the end of a bootstrap. Unlike every other section it
/// is on by default (`when = "always"`).
#[derive(Debug, PartialEq, Eq)]
pub struct NotifyConfig {
    pub when: NotifyWhen,
}

/// What to do with the worktree when its bootstrap failed.
#[derive(Debug, Clone, Copy, PartialEq, Eq, Structural)]
pub enum FailureAction {
    /// Leave the half-bootstrapped worktree as it is.
    Keep,
    /// Ask herdr to remove the worktree, its workspace and its pane.
    Remove,
}

/// The `[failure]` section.
#[derive(Debug, PartialEq, Eq)]
pub struct FailureConfig {
    pub action: FailureAction,
}

/// The whole config of one repository.
#[derive(Debug, PartialEq, Eq)]
pub struct Config {
    pub git: GitConfig,
    pub copy: CopyConfig,
    pub install: InstallConfig,
    pub hooks: Hooks,
    pub notify: NotifyConfig,
    pub failure: FailureConfig,
}

/// What a rule says, as text.
pub struct RuleView {
    pub marker: Seq<char>,
    pub command: Seq<Seq<char>>,
}

/// What a hook says, as text.
pub struct HookView {
    pub command: Seq<Seq<char>>,
    pub dir: Option<Seq<char>>,
}

/// What a config says, as text.
pub struct ConfigView {
    pub git_update: bool,
    pub git_command: Option<Seq<Seq<char>>>,
    pub copy_enabled: bool,
    pub copy_files: Option<Seq<Seq<char>>>,
    pub copy_patterns: Option<Seq<Seq<char>>>,
    pub install_enabled: bool,
    pub install_rules: Seq<RuleView>,
    pub install_dirs: Option<Seq<Seq<char>>>,
    pub pre: Seq<HookView>,
    pub post: Seq<HookView>,
    pub notify_when: NotifyWhen,
    pub failure_action: FailureAction,
}

impl View for InstallRule {
    type V = RuleView;

    open spec fn view(&self) -> RuleView {
        RuleView { marker: self.marker@, command: strs(self.command@) }
    }
}

impl View for CommandConfig {
    type V = HookView;

    open spec fn view(&self) -> HookView {
        HookView { command: strs(self.command@), dir: opt_str(self.dir) }
    }
}

/// The views of a sequence of rules.
pub open spec fn rules_view(v: Seq<InstallRule>) -> Seq<RuleView> {
    v.map_values(|r: InstallRule| r@)
}

/// The views of a sequence of hooks.
pub open spec fn hooks_view(v: Seq<CommandConfig>) -> Seq<HookView> {
    v.map_values(|h: CommandConfig| h@)
}

impl View for Config {
    type V = ConfigView;

    open spec fn view(&self) -> ConfigView {
        ConfigView {
            git_update: self.git.update,
            git_command: opt_strs(self.git.command),
            copy_enabled: self.copy.enabled,
            copy_files: opt_strs(self.copy.files),
            copy_patterns: opt_strs(self.copy.patterns),
            install_enabled: self.install.enabled,
            install_rules: rules_view(self.install.rules@),
            install_dirs: opt_strs(self.install.dirs),
            pre: hooks_view(self.hooks.pre@),
            post: hooks_view(self.hooks.post@),
            notify_when: self.notify.when,
            failure_action: self.failure.action,
        }
    }
}

/// The config of a repository that has none: every section off and empty.
pub open spec fn empty_config() -> ConfigView {
    ConfigView {
        git_update: false,
        git_command: None,
        copy_enabled: false,
        copy_files: None,
        copy_patterns: None,
        install_enabled: false,
        install_rules: Seq::empty(),
        install_dirs: None,
        pre: Seq::empty(),
        post: Seq::empty(),
        notify_when: NotifyWhen::Always,
        failure_action: FailureAction::Keep,
    }
}

impl Default for GitConfig {
    fn default() -> (r: Self)
        ensures
            !r.update,
            r.command is None,
    {
        GitConfig { update: false, command: None }
    }
}

impl Default for Hooks {
    fn default() -> (r: Self)
        ensures
            r.pre@.len() == 0,
            r.post@.len() == 0,
    {
        Hooks { pre: Vec::new(), post: Vec::new() }
    }
}

impl Default for CopyConfig {
    fn default() -> (r: Self)
        ensures
            !r.enabled,
            r.files is None,
            r.patterns is None,
    {
        CopyConfig { enabled: false, files: None, patterns: None }
    }
}

impl Default for InstallConfig {
    fn default() -> (r: Self)
        ensures
            !r.enabled,
            r.rules@.len() == 0,
            r.dirs is None,
    {
        InstallConfig { enabled: false, rules: Vec::new(), dirs: None }
    }
}

impl Default for NotifyConfig {
    fn default() -> (r: Self)
        ensures
            r.when == NotifyWhen::Always,
    {
        NotifyConfig { when: NotifyWhen::Always }
    }
}

impl Default for FailureConfig {
    fn default() -> (r: Self)
        ensures
            r.action == FailureAction::Keep,
    {
        FailureConfig { action: FailureAction::Keep }
    }
}

impl Default for Config {
    /// What a repository without a config file gets: nothing enabled.
    fn default() -> (r: Self)
        ensures
            r@ == empty_config(),
    {
        let r = Config {
            git: GitConfig::default(),
            copy: CopyConfig::default(),
            install: InstallConfig::default(),
            hooks: Hooks::default(),
            notify: NotifyConfig::default(),
            failure: FailureConfig::default(),
        };
        assert(rules_view(r.install.rules@) =~= Seq::empty());
        assert(hooks_view(r.hooks.pre@) =~= Seq::empty());
        assert(hooks_view(r.hooks.post@) =~= Seq::empty());
        r
    }
}

/// Whether a bootstrap that `succeeded` (or not) is reported: always, only
/// on failure, or never.
pub fn should_notify(when: NotifyWhen, succeeded: bool) -> (r: bool)
    ensures
        r == match when {
            NotifyWhen::Always => true,
            NotifyWhen::Failure => !succeeded,
            NotifyWhen::Never => false,
        },
{
    match when {
        NotifyWhen::Always => true,
        NotifyWhen::Failure => !succeeded,
        NotifyWhen::Never => false,
    }
}

/// Whether a failed bootstrap is rolled back.
pub fn rolls_back(action: FailureAction, succeeded: bool) -> (r: bool)
    ensures
        r == (!succeeded && action == FailureAction::Remove),
{
    !succeeded && match action {
        FailureAction::Keep => false,
        FailureAction::Remove => true,
    }
}

/// The format a config file is parsed as.
#[derive(Debug, Clone, Copy, PartialEq, Eq, Structural)]
pub enum ConfigFormat {
    Toml,
    Yaml,
}

/// Config file candidates, relative to the repo root, in priority order.
pub open spec fn config_paths() -> Seq<Seq<char>> {
    seq![
        ".herdr/worktree-bootstrap.toml"@,
        ".herdr/worktree-bootstrap.yaml"@,
        ".herdr/worktree-bootstrap.yml"@,
    ]
}

/// Three candidates, TOML first, then `.yaml`, then `.yml`, all under `.herdr/`.
pub proof fn law_toml_then_yaml_then_yml()
    ensures
        config_paths().len() == 3,
        config_paths()[0] == ".herdr/worktree-bootstrap.toml"@,
        config_paths()[1] == ".herdr/worktree-bootstrap.yaml"@,
        config_paths()[2] == ".herdr/worktree-bootstrap.yml"@,
{
}

/// The config file candidates, relative to the repo/worktree root, in
/// priority order. TOML and YAML are both accepted; the schema is identical.
/// The first file that exists wins.
pub fn config_candidates() -> (r: Vec<String>)
    ensures
        strs(r@) == config_paths(),
{
    let r = vec![
        owned(".herdr/worktree-bootstrap.toml"),
        owned(".herdr/worktree-bootstrap.yaml"),
        owned(".herdr/worktree-bootstrap.yml"),
    ];
    assert(strs(r@) =~= config_paths());
    r
}

/// Which candidate to load, given which of them exist (in priority order):
/// the first that exists, or none, which means "do nothing".
pub fn select_config(exists: &[bool]) -> (r: Option<usize>)
    ensures
        match r {
            Some(i) => i < exists@.len() && exists@[i as int] && forall|j: int| 0 <= j < i ==> !exists@[j],
            None => forall|j: int| 0 <= j < exists@.len() ==> !exists@[j],
        },
{
    let mut i: usize = 0;
    while i < exists.len()
        invariant
            i <= exists@.len(),
            forall|j: int| 0 <= j < i ==> !exists@[j],
        decreases exists@.len() - i,
    {
        if exists[i] {
            return Some(i);
        }
        i = i + 1;
    }
    None
}

/// The bytes of "yaml".
pub open spec fn yaml_ext() -> Seq<u8> {
    seq![121u8, 97u8, 109u8, 108u8]
}

/// The bytes of "yml".
pub open spec fn yml_ext() -> Seq<u8> {
    seq![121u8, 109u8, 108u8]
}

/// The format a path's extension calls for: YAML for a file name with the
/// extension `yaml` or `yml` (the part after the last `.`, where that `.` is
/// not the name's first byte), TOML for anything else.
pub open spec fn format_of(path: Seq<u8>) -> ConfigFormat {
    let name = path.skip(after_last(path, 47u8));
    let dot = after_last(name, 46u8);
    if dot > 1 && (name.skip(dot) == yaml_ext() || name.skip(dot) == yml_ext()) {
        ConfigFormat::Yaml
    } else {
        ConfigFormat::Toml
    }
}

fn bytes_equal(a: &[u8], start: usize, b: &[u8]) -> (r: bool)
    requires
        start <= a@.len(),
    ensures
        r == (a@.skip(start as int) == b@),
{
    if a.len() - start != b.len() {
        assert(a@.skip(start as int).len() != b@.len());
        return false;
    }
    let mut i: usize = 0;
    while i < b.len()
        invariant
            start <= a@.len(),
            a@.len() - start == b@.len(),
            a@.len() == a.len(),
            i <= b@.len(),
            forall|j: int| 0 <= j < i ==> a@[start + j] == b@[j],
        decreases b@.len() - i,
    {
        if a[start + i] != b[i] {
            assert(a@.skip(start as int)[i as int] != b@[i as int]);
            return false;
        }
        i = i + 1;
    }
    assert(a@.skip(start as int) =~= b@);
    true
}

/// The format a config file is parsed with, chosen by its extension and
/// nothing else: `yaml`/`yml` means YAML, anything else TOML.
pub fn config_format(path: &str) -> (r: ConfigFormat)
    ensures
        r == format_of(path.spec_bytes()),
{
    let b = path.as_bytes();
    let start = after_last_byte(b, 47u8);
    proof {
        lemma_after_last(b@, 47u8);
    }
    let mut name: Vec<u8> = Vec::new();
    let mut i = start;
    while i < b.len()
        invariant
            start <= i <= b@.len(),
            name@ == b@.subrange(start as int, i as int),
        decreases b@.len() - i,
    {
        name.push(b[i]);
        assert(b@.subrange(start as int, i + 1) =~= b@.subrange(start as int, i as int).push(b@[i as int]));
        i = i + 1;
    }
    assert(name@ =~= b@.skip(start as int));
    let dot = after_last_byte(name.as_slice(), 46u8);
    proof {
        lemma_after_last(name@, 46u8);
    }
    let yaml: [u8; 4] = [121u8, 97u8, 109u8, 108u8];
    let yml: [u8; 3] = [121u8, 109u8, 108u8];
    assert(yaml@ =~= yaml_ext());
    assert(yml@ =~= yml_ext());
    if dot > 1 && (bytes_equal(name.as_slice(), dot, yaml.as_slice()) || bytes_equal(name.as_slice(), dot, yml.as_slice())) {
        ConfigFormat::Yaml
    } else {
        ConfigFormat::Toml
    }
}

} // verus!
