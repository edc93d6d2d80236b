//! Domestic-mirror resolution.
//!
//! Mirrors are applied *temporarily* (environment variables / CLI flags) and
//! are never written back to any global config file. An empty mirror address
//! means "this mirror is not used".

use vstd::prelude::*;
use crate::config::{Config, MirrorMode};
use crate::process::command::pair_views;
use crate::text::{
    all_white, is_white, opt_view, trim, trimmed, white_space_around_a_text_is_trimmed,
};

verus! {

/// Fully-resolved mirror configuration.
#[derive(Debug, Clone)]
pub struct MirrorConfig {
    pub mode: MirrorMode,
    pub npm: Option<String>,
    pub cargo: Option<String>,
    pub nodejs_release: Option<String>,
    pub bun_download: Option<String>,
    pub github: Option<String>,
}

/// A mirror configuration as plain texts.
pub struct MirrorView {
    pub mode: MirrorMode,
    pub npm: Option<Seq<char>>,
    pub cargo: Option<Seq<char>>,
    pub nodejs_release: Option<Seq<char>>,
    pub bun_download: Option<Seq<char>>,
    pub github: Option<Seq<char>>,
}

impl View for MirrorConfig {
    type V = MirrorView;

    open spec fn view(&self) -> MirrorView {
        MirrorView {
            mode: self.mode,
            npm: opt_view(self.npm),
            cargo: opt_view(self.cargo),
            nodejs_release: opt_view(self.nodejs_release),
            bun_download: opt_view(self.bun_download),
            github: opt_view(self.github),
        }
    }
}

/// An address without the white space around it, if anything is left of it.
pub open spec fn address(s: Seq<char>) -> Option<Seq<char>> {
    if trimmed(s).len() == 0 {
        None
    } else {
        Some(trimmed(s))
    }
}

fn non_empty(s: &str) -> (r: Option<String>)
    ensures
        opt_view(r) == address(s@),
{
    let t = trim(s);
    if t.as_str().is_empty() {
        None
    } else {
        Some(t)
    }
}

/// One variable, where it has a value.
pub open spec fn var(key: Seq<char>, value: Option<Seq<char>>) -> Seq<(Seq<char>, Seq<char>)> {
    match value {
        Some(v) => seq![(key, v)],
        None => seq![],
    }
}

fn push_var(list: &mut Vec<(String, String)>, key: &str, value: &Option<String>)
    ensures
        pair_views(final(list)@) == pair_views(old(list)@) + var(key@, opt_view(*value)),
{
    if let Some(v) = value {
        list.push((key.to_owned(), v.clone()));
    }
    assert(pair_views(list@) =~= pair_views(old(list)@) + var(key@, opt_view(*value)));
}

impl MirrorView {
    /// The value, unless mirrors are off.
    pub open spec fn used(self, value: Option<Seq<char>>) -> Option<Seq<char>> {
        if self.mode == MirrorMode::Off {
            None
        } else {
            value
        }
    }

    /// What the mirrors fall back to on a failure: in mode `on` the original
    /// sources; forced mirrors and the original sources fall back to nothing.
    pub open spec fn fallback(self) -> Option<MirrorView> {
        if self.mode == MirrorMode::On {
            Some(MirrorView { mode: MirrorMode::Off, ..self })
        } else {
            None
        }
    }

    /// The mirrors of a second try, after the first one failed: where no mirror
    /// was in use, the original sources have been tried already.
    pub open spec fn second_try(self) -> Option<MirrorView> {
        if self.summary().len() > 0 {
            self.fallback()
        } else {
            None
        }
    }

    pub open spec fn npm_env(self) -> Seq<(Seq<char>, Seq<char>)> {
        let npm = self.used(self.npm);
        var("npm_config_registry"@, npm) + var("NPM_CONFIG_REGISTRY"@, npm) + var(
            "BUN_CONFIG_REGISTRY"@,
            npm,
        )
    }

    pub open spec fn nub_env(self) -> Seq<(Seq<char>, Seq<char>)> {
        let npm = self.used(self.npm);
        var("NODEJS_ORG_MIRROR"@, self.used(self.nodejs_release)) + var(
            "npm_config_registry"@,
            npm,
        ) + var("NPM_CONFIG_REGISTRY"@, npm)
    }

    pub open spec fn cargo_env(self) -> Seq<(Seq<char>, Seq<char>)> {
        match self.used(self.cargo) {
            Some(index) => seq![
                ("CARGO_REGISTRIES_CRATES_IO_INDEX"@, index),
                ("CARGO_REGISTRIES_CRATES_IO_PROTOCOL"@, "sparse"@),
            ],
            None => seq![],
        }
    }

    pub open spec fn fnm_env(self) -> Seq<(Seq<char>, Seq<char>)> {
        var("FNM_NODE_DIST_MIRROR"@, self.used(self.nodejs_release))
    }

    pub open spec fn nvm_env(self) -> Seq<(Seq<char>, Seq<char>)> {
        var("NVM_NODEJS_ORG_MIRROR"@, self.used(self.nodejs_release))
    }

    pub open spec fn summary(self) -> Seq<(Seq<char>, Seq<char>)> {
        var("npm"@, self.used(self.npm)) + var("cargo"@, self.used(self.cargo)) + var(
            "nodejs-release"@,
            self.used(self.nodejs_release),
        ) + var("bun-download"@, self.used(self.bun_download)) + var(
            "github"@,
            self.used(self.github),
        )
    }
}

/// An optional mirror configuration as plain texts.
pub open spec fn mirror_view(m: Option<MirrorConfig>) -> Option<MirrorView> {
    match m {
        Some(m) => Some(m@),
        None => None,
    }
}

fn copy_address(s: &Option<String>) -> (r: Option<String>)
    ensures
        opt_view(r) == opt_view(*s),
{
    match s {
        Some(s) => Some(s.clone()),
        None => None,
    }
}

/// The mirrors of a configuration.
pub open spec fn resolved(config: Config) -> MirrorView {
    MirrorView {
        mode: config.auto_mirror,
        npm: address(config.mirrors.npm@),
        cargo: address(config.mirrors.cargo@),
        nodejs_release: address(config.mirrors.nodejs_release@),
        bun_download: address(config.mirrors.bun_download@),
        github: address(config.mirrors.github@),
    }
}

impl Default for MirrorConfig {
    fn default() -> (r: MirrorConfig)
        ensures
            r@ == (MirrorView {
                mode: MirrorMode::On,
                npm: None,
                cargo: None,
                nodejs_release: None,
                bun_download: None,
                github: None,
            }),
    {
        MirrorConfig {
            mode: MirrorMode::On,
            npm: None,
            cargo: None,
            nodejs_release: None,
            bun_download: None,
            github: None,
        }
    }
}

impl MirrorConfig {
    /// The mirrors of a configuration: its addresses without the white space
    /// around them.
    pub fn resolve(config: &Config) -> (r: MirrorConfig)
        ensures
            r@ == resolved(*config),
    {
        let m = &config.mirrors;
        MirrorConfig {
            mode: config.auto_mirror,
            npm: non_empty(m.npm.as_str()),
            cargo: non_empty(m.cargo.as_str()),
            nodejs_release: non_empty(m.nodejs_release.as_str()),
            bun_download: non_empty(m.bun_download.as_str()),
            github: non_empty(m.github.as_str()),
        }
    }

    /// Are mirrors enabled at all?
    pub fn enabled(&self) -> (r: bool)
        ensures
            r == (self.mode != MirrorMode::Off),
    {
        self.mode != MirrorMode::Off
    }

    /// Is `force` mode active?
    pub fn forced(&self) -> (r: bool)
        ensures
            r == (self.mode == MirrorMode::Force),
    {
        self.mode == MirrorMode::Force
    }

    /// What the mirrors fall back to on a failure: the original sources, in
    /// mode `on` only.
    pub fn fallback(&self) -> (r: Option<MirrorConfig>)
        ensures
            mirror_view(r) == self@.fallback(),
    {
        if !self.enabled() || self.forced() {
            return None;
        }
        Some(
            MirrorConfig {
                mode: MirrorMode::Off,
                npm: copy_address(&self.npm),
                cargo: copy_address(&self.cargo),
                nodejs_release: copy_address(&self.nodejs_release),
                bun_download: copy_address(&self.bun_download),
                github: copy_address(&self.github),
            },
        )
    }

    /// Environment variables for npm (and bun, which reads the npm registry).
    pub fn npm_env(&self) -> (r: Vec<(String, String)>)
        ensures
            pair_views(r@) == self@.npm_env(),
    {
        let mut env: Vec<(String, String)> = Vec::new();
        if self.enabled() {
            push_var(&mut env, "npm_config_registry", &self.npm);
            push_var(&mut env, "NPM_CONFIG_REGISTRY", &self.npm);
            push_var(&mut env, "BUN_CONFIG_REGISTRY", &self.npm);
        }
        assert(pair_views(env@) =~= self@.npm_env());
        env
    }

    /// Environment variables for nub. Its Node downloads honor the same
    /// `NODEJS_ORG_MIRROR` convention as fnm/nvm, and its own registry
    /// operations read the npm registry config.
    pub fn nub_env(&self) -> (r: Vec<(String, String)>)
        ensures
            pair_views(r@) == self@.nub_env(),
    {
        let mut env: Vec<(String, String)> = Vec::new();
        if self.enabled() {
            push_var(&mut env, "NODEJS_ORG_MIRROR", &self.nodejs_release);
            push_var(&mut env, "npm_config_registry", &self.npm);
            push_var(&mut env, "NPM_CONFIG_REGISTRY", &self.npm);
        }
        assert(pair_views(env@) =~= self@.nub_env());
        env
    }

    /// Environment variables for cargo (sparse crates.io index).
    pub fn cargo_env(&self) -> (r: Vec<(String, String)>)
        ensures
            pair_views(r@) == self@.cargo_env(),
    {
        let mut env: Vec<(String, String)> = Vec::new();
        if self.enabled() {
            if let Some(index) = &self.cargo {
                env.push(("CARGO_REGISTRIES_CRATES_IO_INDEX".to_owned(), index.clone()));
                env.push(("CARGO_REGISTRIES_CRATES_IO_PROTOCOL".to_owned(), "sparse".to_owned()));
            }
        }
        assert(pair_views(env@) =~= self@.cargo_env());
        env
    }

    /// Environment variables for fnm's Node distribution download.
    pub fn fnm_env(&self) -> (r: Vec<(String, String)>)
        ensures
            pair_views(r@) == self@.fnm_env(),
    {
        let mut env: Vec<(String, String)> = Vec::new();
        if self.enabled() {
            push_var(&mut env, "FNM_NODE_DIST_MIRROR", &self.nodejs_release);
        }
        assert(pair_views(env@) =~= self@.fnm_env());
        env
    }

    /// Environment variables for nvm's Node distribution download.
    pub fn nvm_env(&self) -> (r: Vec<(String, String)>)
        ensures
            pair_views(r@) == self@.nvm_env(),
    {
        let mut env: Vec<(String, String)> = Vec::new();
        if self.enabled() {
            push_var(&mut env, "NVM_NODEJS_ORG_MIRROR", &self.nodejs_release);
        }
        assert(pair_views(env@) =~= self@.nvm_env());
        env
    }

    /// The mirrors of a second try, after a try with these failed.
    pub fn second_try(&self) -> (r: Option<MirrorConfig>)
        ensures
            mirror_view(r) == self@.second_try(),
    {
        let active = self.summary();
        assert(pair_views(active@).len() == active@.len());
        if active.len() > 0 {
            self.fallback()
        } else {
            None
        }
    }

    /// A human-readable summary of the active mirrors (for the UI / logs).
    pub fn summary(&self) -> (r: Vec<(String, String)>)
        ensures
            pair_views(r@) == self@.summary(),
    {
        let mut v: Vec<(String, String)> = Vec::new();
        if self.enabled() {
            push_var(&mut v, "npm", &self.npm);
            push_var(&mut v, "cargo", &self.cargo);
            push_var(&mut v, "nodejs-release", &self.nodejs_release);
            push_var(&mut v, "bun-download", &self.bun_download);
            push_var(&mut v, "github", &self.github);
        }
        assert(pair_views(v@) =~= self@.summary());
        v
    }
}

/// What follows a try to install something.
#[derive(Debug)]
pub enum Attempt {
    /// It went well.
    Done,
    /// Try once more with these mirrors.
    Again(MirrorConfig),
    /// It failed for good.
    GiveUp,
}

/// Whether this follows a try with the mirrors.
pub open spec fn is_next_attempt(r: Attempt, mirror: MirrorView, went_well: bool) -> bool {
    if went_well {
        r is Done
    } else {
        match mirror.second_try() {
            Some(second) => r matches Attempt::Again(m) && m@ == second,
            None => r is GiveUp,
        }
    }
}

/// What follows a try to install node, bun, pnpm or nub with the mirrors.
pub fn after_attempt(mirror: &MirrorConfig, went_well: bool) -> (r: Attempt)
    ensures
        is_next_attempt(r, mirror@, went_well),
{
    if went_well {
        return Attempt::Done;
    }
    match mirror.second_try() {
        Some(second) => Attempt::Again(second),
        None => Attempt::GiveUp,
    }
}

/// In mode `on` a failed mirror is no reason to give up: what could not be
/// installed with it is tried once more from the original sources, and then
/// never again. Forced mirrors stay the only sources.
pub proof fn an_installation_is_tried_at_most_twice(
    mirror: MirrorView,
    first: Attempt,
    second: Attempt,
    went_well: bool,
)
    requires
        is_next_attempt(first, mirror, false),
        first matches Attempt::Again(m) ==> is_next_attempt(second, m@, went_well),
    ensures
        first is Again <==> mirror.mode == MirrorMode::On && mirror.summary().len() > 0,
        mirror.mode == MirrorMode::Force ==> first is GiveUp,
        first matches Attempt::Again(m) ==> {
            &&& m@.mode == MirrorMode::Off
            &&& m@.summary().len() == 0
            &&& second is Done || second is GiveUp
            &&& second is Done <==> went_well
        },
{
    if first is Again {
        off_redirects_nothing(first->0@);
    }
}

/// With mirrors off nothing is redirected: no tool gets a variable, and the
/// summary is empty.
pub proof fn off_redirects_nothing(m: MirrorView)
    requires
        m.mode == MirrorMode::Off,
    ensures
        m.npm_env() == Seq::<(Seq<char>, Seq<char>)>::empty(),
        m.nub_env() == Seq::<(Seq<char>, Seq<char>)>::empty(),
        m.cargo_env() == Seq::<(Seq<char>, Seq<char>)>::empty(),
        m.fnm_env() == Seq::<(Seq<char>, Seq<char>)>::empty(),
        m.nvm_env() == Seq::<(Seq<char>, Seq<char>)>::empty(),
        m.summary() == Seq::<(Seq<char>, Seq<char>)>::empty(),
{
    assert(m.npm_env() =~= seq![]);
    assert(m.nub_env() =~= seq![]);
    assert(m.summary() =~= seq![]);
}

/// Forced mirrors are never passed over, and a failed mirror is passed over
/// once: the second try redirects nothing, and no third one follows.
pub proof fn a_failed_mirror_is_passed_over_once(m: MirrorView)
    ensures
        m.fallback() is Some <==> m.mode == MirrorMode::On,
        m.mode == MirrorMode::Force ==> m.fallback() is None,
        m.second_try() is Some <==> m.mode == MirrorMode::On && m.summary().len() > 0,
        m.fallback() matches Some(second) ==> {
            &&& second.mode == MirrorMode::Off
            &&& second.second_try() is None
            &&& second.summary() == Seq::<(Seq<char>, Seq<char>)>::empty()
            &&& second.npm_env() == Seq::<(Seq<char>, Seq<char>)>::empty()
            &&& second.fallback() is None
        },
{
    if m.fallback() is Some {
        off_redirects_nothing(m.fallback()->0);
    }
}

/// A mirror whose address is blank is not used: where a configuration names
/// none, no variable is set in any mode.
pub proof fn blank_addresses_are_not_used(config: Config, m: MirrorView)
    requires
        m.npm == address(config.mirrors.npm@),
        m.nodejs_release == address(config.mirrors.nodejs_release@),
        m.cargo == address(config.mirrors.cargo@),
        trimmed(config.mirrors.npm@).len() == 0,
        trimmed(config.mirrors.nodejs_release@).len() == 0,
        trimmed(config.mirrors.cargo@).len() == 0,
    ensures
        m.npm_env() == Seq::<(Seq<char>, Seq<char>)>::empty(),
        m.nub_env() == Seq::<(Seq<char>, Seq<char>)>::empty(),
        m.cargo_env() == Seq::<(Seq<char>, Seq<char>)>::empty(),
        m.fnm_env() == Seq::<(Seq<char>, Seq<char>)>::empty(),
        m.nvm_env() == Seq::<(Seq<char>, Seq<char>)>::empty(),
{
    assert(m.npm_env() =~= seq![]);
    assert(m.nub_env() =~= seq![]);
}

/// A registry address reaches the package managers under each of the names
/// that they know, and nothing else does: where no registry is set, they get no
/// variable, whatever the other addresses are.
pub proof fn the_registry_is_what_package_managers_get(m: MirrorView)
    ensures
        m.mode != MirrorMode::Off && m.npm is Some ==> {
            &&& m.npm_env().len() == 3
            &&& m.npm_env().contains(("npm_config_registry"@, m.npm->0))
            &&& m.npm_env().contains(("NPM_CONFIG_REGISTRY"@, m.npm->0))
            &&& m.npm_env().contains(("BUN_CONFIG_REGISTRY"@, m.npm->0))
            &&& m.nub_env().contains(("npm_config_registry"@, m.npm->0))
            &&& m.nub_env().contains(("NPM_CONFIG_REGISTRY"@, m.npm->0))
        },
        m.mode == MirrorMode::Off || m.npm is None ==> m.npm_env().len() == 0,
        forall|i: int|
            0 <= i < m.npm_env().len() ==> m.npm == Some((#[trigger] m.npm_env()[i]).1),
{
    if m.mode != MirrorMode::Off && m.npm is Some {
        let a = m.npm->0;
        let e = m.npm_env();
        let n = m.nub_env();
        assert(e =~= seq![
            ("npm_config_registry"@, a),
            ("NPM_CONFIG_REGISTRY"@, a),
            ("BUN_CONFIG_REGISTRY"@, a),
        ]);
        assert(e[0] == ("npm_config_registry"@, a));
        assert(e[1] == ("NPM_CONFIG_REGISTRY"@, a));
        assert(e[2] == ("BUN_CONFIG_REGISTRY"@, a));
        assert(n[n.len() - 2] == ("npm_config_registry"@, a));
        assert(n[n.len() - 1] == ("NPM_CONFIG_REGISTRY"@, a));
    } else {
        assert(m.npm_env() =~= seq![]);
    }
}

/// The node releases come from one address, whichever tool fetches them: nub,
/// fnm and nvm get it under their own names, and get nothing under those names
/// without it.
pub proof fn the_node_mirror_is_what_version_managers_get(m: MirrorView)
    ensures
        m.mode != MirrorMode::Off && m.nodejs_release is Some ==> {
            &&& m.fnm_env() == seq![("FNM_NODE_DIST_MIRROR"@, m.nodejs_release->0)]
            &&& m.nvm_env() == seq![("NVM_NODEJS_ORG_MIRROR"@, m.nodejs_release->0)]
            &&& m.nub_env().contains(("NODEJS_ORG_MIRROR"@, m.nodejs_release->0))
        },
        m.nodejs_release is None ==> {
            &&& m.fnm_env().len() == 0
            &&& m.nvm_env().len() == 0
            &&& forall|i: int|
                0 <= i < m.nub_env().len() ==> m.npm == Some((#[trigger] m.nub_env()[i]).1)
        },
        m.npm is None ==> forall|i: int|
            0 <= i < m.nub_env().len() ==> m.nodejs_release == Some((#[trigger] m.nub_env()[i]).1),
        m.mode != MirrorMode::Off ==> m.nub_env().len() == (if m.nodejs_release is Some {
            1int
        } else {
            0
        }) + (if m.npm is Some {
            2int
        } else {
            0
        }),
{
    if m.mode != MirrorMode::Off && m.nodejs_release is Some {
        assert(m.nub_env()[0] == ("NODEJS_ORG_MIRROR"@, m.nodejs_release->0));
    }
}

/// The index of crates reaches cargo, marked as a sparse one, and no other
/// address does.
pub proof fn the_crates_index_is_what_cargo_gets(m: MirrorView)
    ensures
        m.mode != MirrorMode::Off && m.cargo is Some ==> {
            &&& m.cargo_env().len() == 2
            &&& m.cargo_env().contains(("CARGO_REGISTRIES_CRATES_IO_INDEX"@, m.cargo->0))
            &&& m.cargo_env().contains(("CARGO_REGISTRIES_CRATES_IO_PROTOCOL"@, "sparse"@))
        },
        m.cargo is None ==> m.cargo_env().len() == 0,
{
    if m.mode != MirrorMode::Off && m.cargo is Some {
        assert(m.cargo_env()[0] == ("CARGO_REGISTRIES_CRATES_IO_INDEX"@, m.cargo->0));
        assert(m.cargo_env()[1] == ("CARGO_REGISTRIES_CRATES_IO_PROTOCOL"@, "sparse"@));
    }
}

proof fn lemma_summary_keys()
    ensures
        "npm"@ != "cargo"@,
        "npm"@ != "nodejs-release"@,
        "npm"@ != "bun-download"@,
        "npm"@ != "github"@,
        "cargo"@ != "nodejs-release"@,
        "cargo"@ != "bun-download"@,
        "cargo"@ != "github"@,
        "nodejs-release"@ != "bun-download"@,
        "nodejs-release"@ != "github"@,
        "bun-download"@ != "github"@,
{
    reveal_strlit("npm");
    reveal_strlit("cargo");
    reveal_strlit("nodejs-release");
    reveal_strlit("bun-download");
    reveal_strlit("github");
    assert("npm"@.len() == 3);
    assert("cargo"@.len() == 5);
    assert("nodejs-release"@.len() == 14);
    assert("bun-download"@.len() == 12);
    assert("github"@.len() == 6);
}

/// The summary lists exactly the mirrors in use, each under its own name.
pub proof fn the_summary_lists_the_mirrors_in_use(m: MirrorView, value: Seq<char>)
    requires
        m.mode != MirrorMode::Off,
    ensures
        m.summary().contains(("npm"@, value)) <==> m.npm == Some(value),
        m.summary().contains(("cargo"@, value)) <==> m.cargo == Some(value),
        m.summary().contains(("nodejs-release"@, value)) <==> m.nodejs_release == Some(value),
        m.summary().contains(("bun-download"@, value)) <==> m.bun_download == Some(value),
        m.summary().contains(("github"@, value)) <==> m.github == Some(value),
{
    lemma_summary_keys();
    let a = var("npm"@, m.npm);
    let b = var("cargo"@, m.cargo);
    let c = var("nodejs-release"@, m.nodejs_release);
    let d = var("bun-download"@, m.bun_download);
    let e = var("github"@, m.github);
    let s = m.summary();
    assert(s =~= a + b + c + d + e);
    let i: int = a.len() as int;
    let j: int = i + b.len();
    let k: int = j + c.len();
    let l: int = k + d.len();
    if m.npm is Some {
        assert(s[0] == ("npm"@, m.npm->0));
    }
    if m.cargo is Some {
        assert(s[i] == ("cargo"@, m.cargo->0));
    }
    if m.nodejs_release is Some {
        assert(s[j] == ("nodejs-release"@, m.nodejs_release->0));
    }
    if m.bun_download is Some {
        assert(s[k] == ("bun-download"@, m.bun_download->0));
    }
    if m.github is Some {
        assert(s[l] == ("github"@, m.github->0));
    }
}

/// Each address is resolved for itself: configurations that agree on an
/// address agree on the mirror, however else they differ, and the mode is kept.
pub proof fn addresses_are_resolved_one_by_one(a: Config, b: Config)
    ensures
        resolved(a).mode == a.auto_mirror,
        a.mirrors.npm@ == b.mirrors.npm@ ==> resolved(a).npm == resolved(b).npm,
        a.mirrors.cargo@ == b.mirrors.cargo@ ==> resolved(a).cargo == resolved(b).cargo,
        a.mirrors.nodejs_release@ == b.mirrors.nodejs_release@ ==> resolved(a).nodejs_release
            == resolved(b).nodejs_release,
        a.mirrors.bun_download@ == b.mirrors.bun_download@ ==> resolved(a).bun_download
            == resolved(b).bun_download,
        a.mirrors.github@ == b.mirrors.github@ ==> resolved(a).github == resolved(b).github,
{
}

/// An address is taken from a configuration without the white space around it,
/// and a blank one is not used.
pub proof fn addresses_lose_the_white_space_around_them(
    config: Config,
    before: Seq<char>,
    a: Seq<char>,
    after: Seq<char>,
)
    requires
        all_white(before),
        all_white(after),
        a.len() > 0 ==> !is_white(a[0]) && !is_white(a.last()),
    ensures
        config.mirrors.npm@ == before + a + after ==> resolved(config).npm == (if a.len() > 0 {
            Some(a)
        } else {
            None
        }),
        config.mirrors.cargo@ == before + a + after ==> resolved(config).cargo == (if a.len() > 0 {
            Some(a)
        } else {
            None
        }),
        config.mirrors.nodejs_release@ == before + a + after ==> resolved(config).nodejs_release
            == (if a.len() > 0 {
            Some(a)
        } else {
            None
        }),
        config.mirrors.bun_download@ == before + a + after ==> resolved(config).bun_download == (
        if a.len() > 0 {
            Some(a)
        } else {
            None
        }),
        config.mirrors.github@ == before + a + after ==> resolved(config).github == (if a.len()
            > 0 {
            Some(a)
        } else {
            None
        }),
{
    white_space_around_a_text_is_trimmed(before, a, after);
}

} // verus!
