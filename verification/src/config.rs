//! The settings the application reads and changes.

use crate::json::text_opt;
use crate::text::{same, texts};
use vstd::prelude::*;

verus! {

/// Personality mode.
#[derive(Debug, Clone, Copy, PartialEq, Eq, Structural)]
pub enum Mode {
    /// Interactive.
    Genie,
    /// Autonomous.
    Sovereign,
}

impl Mode {
    pub open spec fn label(self) -> Seq<char> {
        match self {
            Mode::Genie => "genie"@,
            Mode::Sovereign => "sovereign"@,
        }
    }

    /// The name a mode is shown under.
    pub fn name(self) -> (r: &'static str)
        ensures
            r@ == self.label(),
    {
        match self {
            Mode::Genie => "genie",
            Mode::Sovereign => "sovereign",
        }
    }
}

/// How hard the model is asked to reason.
#[derive(Debug, Clone, Copy, PartialEq, Eq, Structural)]
pub enum ReasoningEffort {
    Low,
    Medium,
    High,
}

impl ReasoningEffort {
    pub open spec fn label(self) -> Seq<char> {
        match self {
            ReasoningEffort::Low => "low"@,
            ReasoningEffort::Medium => "medium"@,
            ReasoningEffort::High => "high"@,
        }
    }

    /// The name an effort is shown under.
    pub fn name(self) -> (r: &'static str)
        ensures
            r@ == self.label(),
    {
        match self {
            ReasoningEffort::Low => "low",
            ReasoningEffort::Medium => "medium",
            ReasoningEffort::High => "high",
        }
    }
}

/// The protocol a provider speaks.
#[derive(Debug, Clone, Copy, PartialEq, Eq, Structural)]
pub enum ProviderKind {
    Ollama,
    LlamaCpp,
    Openai,
    Anthropic,
    OpenRouter,
    Cloudflare,
    Xai,
    XaiOauth,
}

impl ProviderKind {
    pub open spec fn label(self) -> Seq<char> {
        match self {
            ProviderKind::Ollama => "ollama"@,
            ProviderKind::LlamaCpp => "llamacpp"@,
            ProviderKind::Openai => "openai"@,
            ProviderKind::Anthropic => "anthropic"@,
            ProviderKind::OpenRouter => "openrouter"@,
            ProviderKind::Cloudflare => "cloudflare"@,
            ProviderKind::Xai => "xai"@,
            ProviderKind::XaiOauth => "xaioauth"@,
        }
    }

    /// The name a kind is shown under.
    pub fn name(self) -> (r: &'static str)
        ensures
            r@ == self.label(),
    {
        match self {
            ProviderKind::Ollama => "ollama",
            ProviderKind::LlamaCpp => "llamacpp",
            ProviderKind::Openai => "openai",
            ProviderKind::Anthropic => "anthropic",
            ProviderKind::OpenRouter => "openrouter",
            ProviderKind::Cloudflare => "cloudflare",
            ProviderKind::Xai => "xai",
            ProviderKind::XaiOauth => "xaioauth",
        }
    }

    /// The kind's name in the source.
    pub open spec fn variant(self) -> Seq<char> {
        match self {
            ProviderKind::Ollama => "Ollama"@,
            ProviderKind::LlamaCpp => "LlamaCpp"@,
            ProviderKind::Openai => "Openai"@,
            ProviderKind::Anthropic => "Anthropic"@,
            ProviderKind::OpenRouter => "OpenRouter"@,
            ProviderKind::Cloudflare => "Cloudflare"@,
            ProviderKind::Xai => "Xai"@,
            ProviderKind::XaiOauth => "XaiOauth"@,
        }
    }

    /// The kind's name in the source.
    pub fn variant_name(self) -> (r: &'static str)
        ensures
            r@ == self.variant(),
    {
        match self {
            ProviderKind::Ollama => "Ollama",
            ProviderKind::LlamaCpp => "LlamaCpp",
            ProviderKind::Openai => "Openai",
            ProviderKind::Anthropic => "Anthropic",
            ProviderKind::OpenRouter => "OpenRouter",
            ProviderKind::Cloudflare => "Cloudflare",
            ProviderKind::Xai => "Xai",
            ProviderKind::XaiOauth => "XaiOauth",
        }
    }

    /// The kind with this name.
    pub open spec fn named(name: Seq<char>) -> Option<ProviderKind> {
        if name == "ollama"@ {
            Some(ProviderKind::Ollama)
        } else if name == "llamacpp"@ {
            Some(ProviderKind::LlamaCpp)
        } else if name == "openai"@ {
            Some(ProviderKind::Openai)
        } else if name == "anthropic"@ {
            Some(ProviderKind::Anthropic)
        } else if name == "openrouter"@ {
            Some(ProviderKind::OpenRouter)
        } else if name == "cloudflare"@ {
            Some(ProviderKind::Cloudflare)
        } else if name == "xai"@ {
            Some(ProviderKind::Xai)
        } else if name == "xaioauth"@ {
            Some(ProviderKind::XaiOauth)
        } else {
            None
        }
    }

    /// The kind with this name.
    pub fn from_name(name: &str) -> (r: Option<ProviderKind>)
        ensures
            r == ProviderKind::named(name@),
    {
        if same(name, "ollama") {
            Some(ProviderKind::Ollama)
        } else if same(name, "llamacpp") {
            Some(ProviderKind::LlamaCpp)
        } else if same(name, "openai") {
            Some(ProviderKind::Openai)
        } else if same(name, "anthropic") {
            Some(ProviderKind::Anthropic)
        } else if same(name, "openrouter") {
            Some(ProviderKind::OpenRouter)
        } else if same(name, "cloudflare") {
            Some(ProviderKind::Cloudflare)
        } else if same(name, "xai") {
            Some(ProviderKind::Xai)
        } else if same(name, "xaioauth") {
            Some(ProviderKind::XaiOauth)
        } else {
            None
        }
    }
}

/// One configured provider.
#[derive(Debug, PartialEq, Eq)]
pub struct ProviderConfig {
    pub name: String,
    pub kind: ProviderKind,
    pub base_url: String,
    pub model: String,
    /// The environment variable its key is read from.
    pub api_key_env: Option<String>,
}

pub struct ProviderView {
    pub name: Seq<char>,
    pub kind: ProviderKind,
    pub base_url: Seq<char>,
    pub model: Seq<char>,
    pub api_key_env: Option<Seq<char>>,
}

impl View for ProviderConfig {
    type V = ProviderView;

    open spec fn view(&self) -> ProviderView {
        ProviderView {
            name: self.name@,
            kind: self.kind,
            base_url: self.base_url@,
            model: self.model@,
            api_key_env: text_opt(self.api_key_env),
        }
    }
}

impl ProviderConfig {
    /// A copy of the provider.
    pub fn copy(&self) -> (r: ProviderConfig)
        ensures
            r@ == self@,
    {
        ProviderConfig {
            name: self.name.clone(),
            kind: self.kind,
            base_url: self.base_url.clone(),
            model: self.model.clone(),
            api_key_env: copy_opt(&self.api_key_env),
        }
    }
}

/// A copy of an optional text.
pub fn copy_opt(t: &Option<String>) -> (r: Option<String>)
    ensures
        text_opt(r) == text_opt(*t),
{
    match t {
        Some(s) => Some(s.clone()),
        None => None,
    }
}

/// A copy of a list of texts.
pub fn copy_texts(v: &Vec<String>) -> (r: Vec<String>)
    ensures
        texts(r@) == texts(v@),
{
    let mut out: Vec<String> = Vec::new();
    let mut i: usize = 0;
    while i < v.len()
        invariant
            i <= v.len(),
            out@.len() == i,
            forall|j: int| 0 <= j < i ==> (#[trigger] out@[j])@ == v@[j]@,
        decreases v.len() - i,
    {
        out.push(v[i].clone());
        i += 1;
    }
    assert(texts(out@) =~= texts(v@));
    out
}

/// The fusion panel: who debates, and who writes the answer.
#[derive(Debug, PartialEq, Eq)]
pub struct FusionConfig {
    pub panel: Vec<String>,
    pub synthesizer: String,
    pub rounds: u32,
}

pub struct FusionView {
    pub panel: Seq<Seq<char>>,
    pub synthesizer: Seq<char>,
    pub rounds: u32,
}

impl View for FusionConfig {
    type V = FusionView;

    open spec fn view(&self) -> FusionView {
        FusionView {
            panel: texts(self.panel@),
            synthesizer: self.synthesizer@,
            rounds: self.rounds,
        }
    }
}

/// The mixture-of-agents roster: one candidate per lens, and how many judges
/// compare their drafts.
#[derive(Debug, PartialEq, Eq)]
pub struct UltraConfig {
    pub lenses: Vec<String>,
    pub judges: u32,
}

pub struct UltraView {
    pub lenses: Seq<Seq<char>>,
    pub judges: u32,
}

impl View for UltraConfig {
    type V = UltraView;

    open spec fn view(&self) -> UltraView {
        UltraView { lenses: texts(self.lenses@), judges: self.judges }
    }
}

/// Another coding agent, whose settings and sessions can be imported.
#[derive(Debug, PartialEq, Eq)]
pub struct Peer {
    /// The name it is shown under.
    pub name: String,
    /// The one-word name of its models' provider and of its command line flag.
    pub word: String,
    /// Where it keeps its settings, as shown.
    pub home: String,
}

pub struct PeerView {
    pub name: Seq<char>,
    pub word: Seq<char>,
    pub home: Seq<char>,
}

impl View for Peer {
    type V = PeerView;

    open spec fn view(&self) -> PeerView {
        PeerView { name: self.name@, word: self.word@, home: self.home@ }
    }
}

/// How many steps a turn may take.
#[derive(Debug, Clone, Copy, PartialEq, Eq, Structural)]
pub enum StepBudget {
    Limited(u32),
    Unlimited,
}

impl StepBudget {
    pub open spec fn label(self) -> Seq<char> {
        match self {
            StepBudget::Limited(n) => crate::text::decimal(n as nat),
            StepBudget::Unlimited => "unlimited"@,
        }
    }

    /// The budget as it is shown.
    pub fn describe(self) -> (r: String)
        ensures
            r@ == self.label(),
    {
        match self {
            StepBudget::Limited(n) => crate::text::number(n as u64),
            StepBudget::Unlimited => "unlimited".to_string(),
        }
    }

    /// The budget a mode runs with: an autonomous run has none.
    pub open spec fn in_mode(self, mode: Mode) -> StepBudget {
        match mode {
            Mode::Genie => self,
            Mode::Sovereign => StepBudget::Unlimited,
        }
    }

    /// The budget a mode runs with.
    pub fn for_mode(self, mode: Mode) -> (r: StepBudget)
        ensures
            r == self.in_mode(mode),
    {
        match mode {
            Mode::Genie => self,
            Mode::Sovereign => StepBudget::Unlimited,
        }
    }
}

/// The user's settings.
pub struct Config {
    pub mode: Mode,
    pub plan_first: bool,
    pub omakase: bool,
    pub continuous: bool,
    pub plan_each_cycle: bool,
    pub rollback_failed_cycles: bool,
    pub max_steps: StepBudget,
    pub reasoning_effort: Option<ReasoningEffort>,
    /// Verbs for the busy spinner; the built-in ones when empty.
    pub spinner_verbs: Vec<String>,
    pub vim: bool,
    pub web_search_backend: String,
    pub web_allow_local: bool,
    pub fleet_synthesize: bool,
    pub providers: Vec<ProviderConfig>,
    pub active_provider: Option<String>,
    /// The provider used while none is configured.
    pub fallback: ProviderConfig,
    pub fusion: Option<FusionConfig>,
    pub ultra: Option<UltraConfig>,
}

pub struct ConfigView {
    pub mode: Mode,
    pub plan_first: bool,
    pub omakase: bool,
    pub continuous: bool,
    pub plan_each_cycle: bool,
    pub rollback_failed_cycles: bool,
    pub max_steps: StepBudget,
    pub reasoning_effort: Option<ReasoningEffort>,
    pub spinner_verbs: Seq<Seq<char>>,
    pub vim: bool,
    pub web_search_backend: Seq<char>,
    pub web_allow_local: bool,
    pub fleet_synthesize: bool,
    pub providers: Seq<ProviderView>,
    pub active_provider: Option<Seq<char>>,
    pub fallback: ProviderView,
    pub fusion: Option<FusionView>,
    pub ultra: Option<UltraView>,
}

pub open spec fn fusion_opt(f: Option<FusionConfig>) -> Option<FusionView> {
    match f {
        Some(x) => Some(x@),
        None => None,
    }
}

pub open spec fn ultra_opt(u: Option<UltraConfig>) -> Option<UltraView> {
    match u {
        Some(x) => Some(x@),
        None => None,
    }
}

pub open spec fn providers_view(p: Seq<ProviderConfig>) -> Seq<ProviderView> {
    p.map_values(|x: ProviderConfig| x@)
}

impl View for Config {
    type V = ConfigView;

    open spec fn view(&self) -> ConfigView {
        ConfigView {
            mode: self.mode,
            plan_first: self.plan_first,
            omakase: self.omakase,
            continuous: self.continuous,
            plan_each_cycle: self.plan_each_cycle,
            rollback_failed_cycles: self.rollback_failed_cycles,
            max_steps: self.max_steps,
            reasoning_effort: self.reasoning_effort,
            spinner_verbs: texts(self.spinner_verbs@),
            vim: self.vim,
            web_search_backend: self.web_search_backend@,
            web_allow_local: self.web_allow_local,
            fleet_synthesize: self.fleet_synthesize,
            providers: providers_view(self.providers@),
            active_provider: text_opt(self.active_provider),
            fallback: self.fallback@,
            fusion: fusion_opt(self.fusion),
            ultra: ultra_opt(self.ultra),
        }
    }
}

/// The verbs the busy spinner starts with.
pub open spec fn default_verbs() -> Seq<Seq<char>> {
    seq!["Conjuring"@, "Pondering"@, "Scrying"@, "Brewing"@, "Weaving"@]
}

/// The verbs the busy spinner starts with.
pub fn default_spinner_verbs() -> (r: Vec<String>)
    ensures
        texts(r@) == default_verbs(),
{
    let mut out: Vec<String> = Vec::new();
    out.push("Conjuring".to_string());
    out.push("Pondering".to_string());
    out.push("Scrying".to_string());
    out.push("Brewing".to_string());
    out.push("Weaving".to_string());
    assert(texts(out@) =~= default_verbs());
    out
}

/// The lenses of the built-in roster.
pub open spec fn default_lenses() -> Seq<Seq<char>> {
    seq!["architect"@, "skeptic"@, "pragmatist"@]
}

/// The first of `providers` with this name.
pub open spec fn provider_named(providers: Seq<ProviderView>, name: Seq<char>) -> Option<ProviderView>
    decreases providers.len(),
{
    if providers.len() == 0 {
        None
    } else if providers[0].name == name {
        Some(providers[0])
    } else {
        provider_named(providers.drop_first(), name)
    }
}

impl ConfigView {
    /// The provider in use: the one chosen by name, else the first configured,
    /// else the fallback.
    pub open spec fn active(self) -> ProviderView {
        let first = if self.providers.len() > 0 {
            self.providers[0]
        } else {
            self.fallback
        };
        match self.active_provider {
            Some(name) => match provider_named(self.providers, name) {
                Some(p) => p,
                None => first,
            },
            None => first,
        }
    }

    /// The fusion panel in effect: the configured one, else every provider
    /// with the first as the synthesizer; none without providers.
    pub open spec fn panel(self) -> Option<FusionView> {
        match self.fusion {
            Some(f) => Some(f),
            None => if self.providers.len() == 0 {
                None
            } else {
                Some(
                    FusionView {
                        panel: self.providers.map_values(|p: ProviderView| p.name),
                        synthesizer: self.providers[0].name,
                        rounds: 1,
                    },
                )
            },
        }
    }

    /// The roster in effect: the configured one, else the built-in one with
    /// one judge.
    pub open spec fn roster(self) -> UltraView {
        match self.ultra {
            Some(u) => u,
            None => UltraView { lenses: default_lenses(), judges: 1 },
        }
    }

    /// The verb for `seed`: the seed picks from the list in rotation.
    pub open spec fn verb(self, seed: u64) -> Seq<char> {
        let verbs = if self.spinner_verbs.len() == 0 {
            default_verbs()
        } else {
            self.spinner_verbs
        };
        verbs[(seed as int) % (verbs.len() as int)]
    }
}

/// Finds a provider by name.
pub fn find_provider(providers: &Vec<ProviderConfig>, name: &str) -> (r: Option<usize>)
    ensures
        r is None <==> provider_named(providers_view(providers@), name@) is None,
        r matches Some(i) ==> i < providers.len() && provider_named(
            providers_view(providers@),
            name@,
        ) == Some(providers@[i as int]@),
{
    let ghost all = providers_view(providers@);
    let mut i: usize = 0;
    assert(all.skip(0) == all);
    while i < providers.len()
        invariant
            i <= providers.len(),
            all == providers_view(providers@),
            provider_named(all, name@) == provider_named(all.skip(i as int), name@),
        decreases providers.len() - i,
    {
        assert(all.skip(i as int)[0] == providers@[i as int]@);
        if same(&providers[i].name, name) {
            return Some(i);
        }
        assert(all.skip(i as int).drop_first() == all.skip(i + 1));
        i += 1;
    }
    None
}

impl Config {
    /// The provider in use.
    pub fn active(&self) -> (r: &ProviderConfig)
        ensures
            r@ == self@.active(),
    {
        if let Some(name) = &self.active_provider {
            if let Some(i) = find_provider(&self.providers, name) {
                return &self.providers[i];
            }
        }
        if self.providers.len() > 0 {
            assert(self@.providers[0] == self.providers@[0]@);
            &self.providers[0]
        } else {
            &self.fallback
        }
    }

    /// The fusion panel in effect.
    pub fn effective_fusion(&self) -> (r: Option<FusionConfig>)
        ensures
            fusion_opt(r) == self@.panel(),
    {
        match &self.fusion {
            Some(f) => Some(
                FusionConfig {
                    panel: copy_texts(&f.panel),
                    synthesizer: f.synthesizer.clone(),
                    rounds: f.rounds,
                },
            ),
            None => {
                if self.providers.len() == 0 {
                    return None;
                }
                let mut panel: Vec<String> = Vec::new();
                let mut i: usize = 0;
                while i < self.providers.len()
                    invariant
                        i <= self.providers.len(),
                        panel@.len() == i,
                        forall|j: int|
                            0 <= j < i ==> (#[trigger] panel@[j])@ == self.providers@[j].name@,
                    decreases self.providers.len() - i,
                {
                    panel.push(self.providers[i].name.clone());
                    i += 1;
                }
                let f = FusionConfig {
                    panel,
                    synthesizer: self.providers[0].name.clone(),
                    rounds: 1,
                };
                assert(f@.panel =~= self@.providers.map_values(|p: ProviderView| p.name));
                Some(f)
            },
        }
    }

    /// The roster in effect.
    pub fn effective_ultra(&self) -> (r: UltraConfig)
        ensures
            r@ == self@.roster(),
    {
        match &self.ultra {
            Some(u) => UltraConfig { lenses: copy_texts(&u.lenses), judges: u.judges },
            None => {
                let mut lenses: Vec<String> = Vec::new();
                lenses.push("architect".to_string());
                lenses.push("skeptic".to_string());
                lenses.push("pragmatist".to_string());
                assert(texts(lenses@) =~= default_lenses());
                UltraConfig { lenses, judges: 1 }
            },
        }
    }

    /// The spinner verb for `seed`.
    pub fn spinner_verb(&self, seed: u64) -> (r: String)
        ensures
            r@ == self@.verb(seed),
    {
        let defaults = default_spinner_verbs();
        let verbs: &Vec<String> = if self.spinner_verbs.len() == 0 {
            &defaults
        } else {
            &self.spinner_verbs
        };
        assert(texts(verbs@).len() == verbs@.len());
        let i: usize = (seed % (verbs.len() as u64)) as usize;
        assert(texts(verbs@)[i as int] == verbs@[i as int]@);
        verbs[i].clone()
    }
}

} // verus!
