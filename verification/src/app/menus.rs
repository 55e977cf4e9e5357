//! The menus: settings, providers, panels, sessions and web search.

use crate::app::picker::{add_item, item, items_view, ItemView, Picker, PickerItem, PickerKind, PickerView};
use crate::app::state::{
    action_opt, ActionView, App, AppAction, AppView, ComposerView, Effect, EffectView, MenuRow,
    MenuRowView, PendingView, Preset, PresetView, SaveNote, SaveView, WebBackend, WebBackendView,
};
use crate::app::vim::{VimState, VimView};
use crate::commands::{CommandView, ProviderAction, ProviderActionView, SlashCommand};
use crate::config::{Config, ConfigView, ProviderConfig, ProviderView};
use crate::json::text_opt;
use crate::text::{decimal, has_item, lower, lowered, number, same, texts, trim, trimmed};
use vstd::prelude::*;

verus! {

/// What a row of the settings menu changes.
#[derive(Debug, Clone, Copy, PartialEq, Eq, Structural)]
pub enum Setting {
    Model,
    Mode,
    PlanFirst,
    Continuous,
    PlanEachCycle,
    Rollback,
    Vim,
    WebBackend,
    WebAllowLocal,
    FleetSynthesize,
    Import,
    Provider,
    ConfigFile,
}

/// A row of the settings menu: what it changes, its label and the value shown.
pub struct SettingRow {
    pub setting: Setting,
    pub label: String,
    pub detail: String,
}

pub struct SettingView {
    pub setting: Setting,
    pub label: Seq<char>,
    pub detail: Seq<char>,
}

impl View for SettingRow {
    type V = SettingView;

    open spec fn view(&self) -> SettingView {
        SettingView { setting: self.setting, label: self.label@, detail: self.detail@ }
    }
}

pub open spec fn setting_rows_view(r: Seq<SettingRow>) -> Seq<SettingView> {
    r.map_values(|x: SettingRow| x@)
}

pub open spec fn setting_row(setting: Setting, label: Seq<char>, detail: Seq<char>) -> SettingView {
    SettingView { setting, label, detail }
}

/// How a switch is shown.
pub open spec fn on_off(b: bool) -> Seq<char> {
    if b {
        "on"@
    } else {
        "off"@
    }
}

fn shown_switch(b: bool) -> (r: String)
    ensures
        r@ == on_off(b),
{
    if b {
        "on".to_string()
    } else {
        "off".to_string()
    }
}

/// A way of drafting an answer.
pub struct Lens {
    pub name: String,
    pub description: String,
}

pub struct LensView {
    pub name: Seq<char>,
    pub description: Seq<char>,
}

impl View for Lens {
    type V = LensView;

    open spec fn view(&self) -> LensView {
        LensView { name: self.name@, description: self.description@ }
    }
}

pub open spec fn lenses_view(l: Seq<Lens>) -> Seq<LensView> {
    l.map_values(|x: Lens| x@)
}

/// A past session, as the resume menu lists it.
pub struct SessionSummary {
    pub id: String,
    pub summary: String,
    pub messages: usize,
}

pub struct SummaryView {
    pub id: Seq<char>,
    pub summary: Seq<char>,
    pub messages: usize,
}

impl View for SessionSummary {
    type V = SummaryView;

    open spec fn view(&self) -> SummaryView {
        SummaryView { id: self.id@, summary: self.summary@, messages: self.messages }
    }
}

pub open spec fn summaries_view(s: Seq<SessionSummary>) -> Seq<SummaryView> {
    s.map_values(|x: SessionSummary| x@)
}

/// The last row of the provider menu.
pub open spec fn add_row() -> Seq<char> {
    "＋ Add provider…"@
}

/// The last row of the roster menu.
pub open spec fn judge_row() -> Seq<char> {
    "judge"@
}

/// What the roster menu says about `n` judges.
pub open spec fn judges_text(n: u32) -> Seq<char> {
    if n == 0 {
        "off — the drafts go to the agent uncompared"@
    } else if n == 1 {
        "compares the drafts head-to-head before the agent executes"@
    } else {
        decimal(n as nat) + " judges compare the drafts head-to-head"@
    }
}

fn describe_judges(n: u32) -> (r: String)
    ensures
        r@ == judges_text(n),
{
    if n == 0 {
        "off — the drafts go to the agent uncompared".to_string()
    } else if n == 1 {
        "compares the drafts head-to-head before the agent executes".to_string()
    } else {
        let mut s = number(n as u64);
        s.append(" judges compare the drafts head-to-head");
        s
    }
}

/// A provider's row on the fusion menu.
pub open spec fn panel_item(p: ProviderView, panel: Seq<Seq<char>>) -> ItemView {
    item(p.name, p.kind.label() + " · "@ + p.model, panel.contains(p.name))
}

/// A lens's row on the roster menu.
pub open spec fn lens_item(l: LensView, roster: Seq<Seq<char>>) -> ItemView {
    item(l.name, l.description, roster.contains(l.name))
}

/// A session's row on the resume menu.
pub open spec fn summary_item(s: SummaryView, here: Seq<char>) -> ItemView {
    item(
        s.id,
        s.summary + " · "@ + decimal(s.messages as nat) + " msg"@ + (if s.messages == 1 {
            ""@
        } else {
            "s"@
        }),
        s.id == here,
    )
}

/// A provider's row on the provider menu.
pub open spec fn provider_item(p: ProviderView, active: Seq<char>) -> ItemView {
    item(p.name, p.kind.label() + " · "@ + p.model + " @ "@ + p.base_url, p.name == active)
}

/// A provider kind's row on the "add provider" menu.
pub open spec fn type_item(m: MenuRowView) -> ItemView {
    item(m.label, m.detail, false)
}

/// A ready-made provider's row on the "add provider" menu.
pub open spec fn preset_item(p: PresetView) -> ItemView {
    item(p.label + " — API key"@, p.detail, false)
}

/// A backend's row on the web search menu; `active` is the configured name.
pub open spec fn backend_item(b: WebBackendView, active: Seq<char>) -> ItemView {
    item(b.id, b.label + " — "@ + b.detail, b.id == active || (b.id == "xai"@ && active == "grok"@))
}

/// The number of backends before the one with this id.
pub open spec fn backend_pos(b: Seq<WebBackendView>, id: Seq<char>) -> int
    decreases b.len(),
{
    if b.len() == 0 || b[0].id == id {
        0
    } else {
        1 + backend_pos(b.drop_first(), id)
    }
}

/// A backend's label; its id when it is not a known one.
pub open spec fn backend_label(b: Seq<WebBackendView>, id: Seq<char>) -> Seq<char> {
    let i = backend_pos(b, id);
    if i < b.len() {
        b[i].label
    } else {
        id
    }
}

/// A known backend that needs an API key.
pub open spec fn backend_keyed(b: Seq<WebBackendView>, id: Seq<char>) -> bool {
    let i = backend_pos(b, id);
    i < b.len() && b[i].needs_key
}

impl ConfigView {
    /// A switch flipped.
    pub open spec fn flipped(self, setting: Setting) -> ConfigView {
        match setting {
            Setting::PlanFirst => ConfigView { plan_first: !self.plan_first, ..self },
            Setting::Continuous => ConfigView { continuous: !self.continuous, ..self },
            Setting::PlanEachCycle => ConfigView { plan_each_cycle: !self.plan_each_cycle, ..self },
            Setting::Rollback => ConfigView {
                rollback_failed_cycles: !self.rollback_failed_cycles,
                ..self
            },
            Setting::WebAllowLocal => ConfigView { web_allow_local: !self.web_allow_local, ..self },
            Setting::FleetSynthesize => ConfigView {
                fleet_synthesize: !self.fleet_synthesize,
                ..self
            },
            _ => self,
        }
    }
}

impl AppView {
    pub open spec fn with_config(self, config: ConfigView) -> AppView {
        AppView { config, ..self }
    }

    /// A menu, open at its first row.
    pub open spec fn choosing(
        self,
        kind: PickerKind,
        title: Seq<char>,
        items: Seq<ItemView>,
    ) -> AppView {
        self.with_composer(
            ComposerView {
                picker: Some(PickerView { kind, title, items, selected: 0 }),
                ..self.composer
            },
        )
    }

    /// The rows of the settings menu, in display order.
    #[verifier::opaque]
    pub open spec fn settings(self) -> Seq<SettingView> {
        seq![
            setting_row(Setting::Model, "Model"@, self.config.active().model),
            setting_row(Setting::Mode, "Mode"@, self.mode.label()),
            setting_row(Setting::PlanFirst, "Plan mode at startup"@, on_off(self.config.plan_first)),
            setting_row(
                Setting::Continuous,
                "Continuous (sovereign)"@,
                on_off(self.config.continuous),
            ),
            setting_row(
                Setting::PlanEachCycle,
                "Plan each cycle"@,
                on_off(self.config.plan_each_cycle),
            ),
            setting_row(
                Setting::Rollback,
                "Rollback failed cycles"@,
                on_off(self.config.rollback_failed_cycles),
            ),
            setting_row(Setting::Vim, "Vim mode (modal input)"@, on_off(self.config.vim)),
            setting_row(
                Setting::WebBackend,
                "Web search backend"@,
                self.config.web_search_backend,
            ),
            setting_row(
                Setting::WebAllowLocal,
                "Web: allow localhost"@,
                on_off(self.config.web_allow_local),
            ),
            setting_row(
                Setting::FleetSynthesize,
                "Fleet: synthesis turn"@,
                on_off(self.config.fleet_synthesize),
            ),
            setting_row(
                Setting::Import,
                "Import from "@ + self.surroundings.peer.name,
                if self.surroundings.claude_home {
                    "MCP servers, commands, spinner verbs"@
                } else {
                    "no "@ + self.surroundings.peer.home + " found"@
                },
            ),
            setting_row(
                Setting::Provider,
                "Manage providers…"@,
                decimal(self.config.providers.len()) + " configured"@,
            ),
            setting_row(
                Setting::ConfigFile,
                "Open config file…"@,
                self.surroundings.config_path,
            ),
        ]
    }

    /// The settings menu.
    pub open spec fn settings_open(self) -> AppView {
        self.choosing(
            PickerKind::Settings,
            " settings · ↑/↓ move · enter select · esc close "@,
            self.settings().map_values(|r: SettingView| item(r.label, r.detail, false)),
        )
    }

    /// The import menu, when there is an install to import from.
    pub open spec fn import_open(self) -> AppView {
        if !self.surroundings.claude_home {
            self.noticed(
                "no "@ + self.surroundings.peer.name + " install found ("@
                    + self.surroundings.peer.home + ")"@,
            )
        } else {
            self.choosing(
                PickerKind::ClaudeImport,
                " import from "@ + lower(self.surroundings.peer.name)
                    + " · space toggles · enter runs "@,
                seq![
                    item(
                        "MCP servers ("@ + decimal(self.surroundings.claude_mcp as nat) + ")"@,
                        "merge into ~/.wizard/mcp.toml"@,
                        false,
                    ),
                    item(
                        "Custom commands ("@ + decimal(self.surroundings.claude_commands as nat)
                            + ")"@,
                        "copy into ~/.wizard/commands/"@,
                        false,
                    ),
                    item(
                        "Spinner verbs ("@ + decimal(self.surroundings.claude_verbs as nat) + ")"@,
                        "adopt "@ + self.surroundings.peer.name + "'s spinner verbs"@,
                        false,
                    ),
                ],
            )
        }
    }

    /// The fusion menu: a row per provider, checked when it is on the panel.
    pub open spec fn fusion_open(self) -> AppView {
        if self.config.providers.len() == 0 {
            self.noticed(
                "fusion needs configured providers — add at least two with /provider first"@,
            )
        } else {
            let panel = match self.config.panel() {
                Some(f) => f.panel,
                None => Seq::empty(),
            };
            self.choosing(
                PickerKind::FusionPanel,
                " fusion panel · space toggles · enter saves "@,
                self.config.providers.map_values(|p: ProviderView| panel_item(p, panel)),
            )
        }
    }

    /// The roster menu: a row per lens, checked when it is on the roster, and
    /// the judge row.
    pub open spec fn ultra_open(self, catalog: Seq<LensView>) -> AppView {
        let roster = self.config.roster();
        self.choosing(
            PickerKind::UltraLenses,
            " ultra roster · space toggles · enter saves "@,
            catalog.map_values(|l: LensView| lens_item(l, roster.lenses)).push(
                item(judge_row(), judges_text(roster.judges), roster.judges > 0),
            ),
        )
    }

    /// The resume menu: a row per past session.
    pub open spec fn resume_open(self, found: Result<Seq<SummaryView>, Seq<char>>) -> AppView {
        match found {
            Err(why) => self.noticed("cannot locate sessions: "@ + why),
            Ok(sessions) => if sessions.len() == 0 {
                self.noticed("no past sessions to resume"@)
            } else {
                self.choosing(
                    PickerKind::Resume,
                    " resume session · ↑/↓ move · enter select · esc close "@,
                    sessions.map_values(|s: SummaryView| summary_item(s, self.session.id)),
                )
            },
        }
    }

    /// The provider menu: a row per provider, and the row that adds one.
    pub open spec fn providers_open(self) -> AppView {
        let active = self.config.active().name;
        self.choosing(
            PickerKind::Provider,
            " providers · ↑/↓ move · enter select · esc close "@,
            self.config.providers.map_values(|p: ProviderView| provider_item(p, active)).push(
                item(add_row(), "configure a new provider"@, false),
            ),
        )
    }

    /// The "add provider" menu: the fixed kinds, then the ready-made providers.
    pub open spec fn types_open(self) -> AppView {
        self.choosing(
            PickerKind::ProviderType,
            " add provider · ↑/↓ move · enter select · esc close "@,
            self.surroundings.provider_types.map_values(|m: MenuRowView| type_item(m))
                + self.surroundings.presets.map_values(|p: PresetView| preset_item(p)),
        )
    }

    /// The web search menu: a row per backend, the configured one marked.
    pub open spec fn web_open(self) -> AppView {
        let active = lower(trim(self.config.web_search_backend));
        self.choosing(
            PickerKind::WebBackend,
            " web search · ↑/↓ move · enter select · esc close "@,
            self.surroundings.web_backends.map_values(|b: WebBackendView| backend_item(b, active)),
        )
    }

    /// The settings on their way to disk.
    pub open spec fn saving(self, subject: Seq<char>, note: Option<Seq<char>>, always: bool) -> AppView {
        self.asking(EffectView::SaveConfig(SaveView { subject, note, always }))
    }

    /// The settings were written, or were not.
    pub open spec fn saved(self, save: SaveView, error: Option<Seq<char>>) -> AppView {
        let told = match error {
            Some(e) => self.noticed("could not save "@ + save.subject + ": "@ + e),
            None => self,
        };
        match save.note {
            Some(note) => if error is None || save.always {
                told.noticed(note)
            } else {
                told
            },
            None => told,
        }
    }

    /// Web search goes through `id` from now on.
    pub open spec fn web_backend_set(self, id: Seq<char>, note: Seq<char>) -> AppView {
        self.with_config(ConfigView { web_search_backend: id, ..self.config }).saving(
            "config"@,
            Some(note),
            false,
        )
    }

    /// A row of the web search menu was chosen.
    pub open spec fn web_backend_selected(self, id: Seq<char>) -> AppView {
        let backends = self.surroundings.web_backends;
        if id == "xai"@ || id == "grok"@ {
            self.web_backend_set(
                "xai"@,
                if self.surroundings.xai_session {
                    "web search: using your xAI sign-in (no new login needed)"@
                } else if self.surroundings.xai_key {
                    "web search: using xAI (stored API key)"@
                } else {
                    "web search set to xAI — run /login xai to sign in, or set XAI_API_KEY"@
                },
            )
        } else if backend_keyed(backends, id) {
            self.prompting_web_key(id, backend_label(backends, id))
        } else {
            self.web_backend_set(id, "web search: using "@ + backend_label(backends, id))
        }
    }

    /// A pasted key was stored, or was not.
    pub open spec fn web_key_kept(self, id: Seq<char>, error: Option<Seq<char>>) -> AppView {
        match error {
            Some(e) => self.noticed("could not save the "@ + id + " API key: "@ + e),
            None => self.web_backend_set(
                id,
                "web search: using "@ + backend_label(self.surroundings.web_backends, id)
                    + " (key saved to ~/.wizard/credentials.toml)"@,
            ),
        }
    }

    /// Modal editing switched on or off, typing text again.
    pub open spec fn vim_set(self, on: bool) -> AppView {
        self.with_config(ConfigView { vim: on, ..self.config }).with_composer(
            ComposerView { vim: VimView::fresh(on), ..self.composer },
        )
    }

    /// `/vim`.
    pub open spec fn vim_toggled(self) -> AppView {
        let on = !self.composer.vim.enabled;
        self.vim_set(on).saving(
            "config"@,
            Some(
                if on {
                    "vim mode on — Esc for NORMAL (hjkl/w/b/e move · i/a/I/A insert · x/dd/dw/cw edit · u undo), i to type. /vim to leave"@
                } else {
                    "vim mode off"@
                },
            ),
            true,
        )
    }

    /// A switch of the settings menu flipped.
    pub open spec fn flipped(self, setting: Setting) -> AppView {
        if setting == Setting::Vim {
            self.vim_set(!self.config.vim)
        } else {
            self.with_config(self.config.flipped(setting))
        }
    }

    /// The settings menu reopened on a row.
    pub open spec fn settings_reopened(self, selected: usize) -> AppView {
        let s = self.settings_open();
        s.with_composer(
            ComposerView {
                picker: match s.composer.picker {
                    Some(p) => Some(PickerView { selected, ..p }),
                    None => None,
                },
                ..s.composer
            },
        )
    }

    /// A row of the settings menu was chosen: another menu or command for some
    /// rows, a flipped switch that is saved and shown for the others.
    pub open spec fn setting_applied(self, selected: usize) -> (AppView, Option<ActionView>) {
        if selected >= self.settings().len() {
            (self, None)
        } else {
            match self.settings()[selected as int].setting {
                Setting::Model => (self, Some(ActionView::Command(CommandView::Model(None)))),
                Setting::Mode => (self, Some(ActionView::Command(CommandView::Mode(None)))),
                Setting::Provider => (
                    self,
                    Some(ActionView::Command(CommandView::Provider(ProviderActionView::List))),
                ),
                Setting::Import => (self.import_open(), None),
                Setting::ConfigFile => (
                    AppView {
                        pending: PendingView { edit_config: true, ..self.pending },
                        ..self
                    },
                    None,
                ),
                Setting::WebBackend => (self.web_open(), None),
                other => (
                    self.flipped(other).saving("config"@, None, false).settings_reopened(selected),
                    None,
                ),
            }
        }
    }
}

/// A text in round brackets behind another.
fn counted(label: &str, n: u64) -> (r: String)
    ensures
        r@ == label@ + decimal(n as nat) + ")"@,
{
    let mut s = label.to_string();
    s.append(&number(n));
    s.append(")");
    s
}

fn add_setting(rows: &mut Vec<SettingRow>, setting: Setting, label: &str, detail: String)
    ensures
        setting_rows_view(final(rows)@) == setting_rows_view(old(rows)@).push(
            setting_row(setting, label@, detail@),
        ),
{
    rows.push(SettingRow { setting, label: label.to_string(), detail });
    assert(setting_rows_view(rows@) =~= setting_rows_view(old(rows)@).push(
        setting_row(setting, label@, detail@),
    ));
}

fn panel_items(providers: &Vec<ProviderConfig>, panel: &Vec<String>) -> (r: Vec<PickerItem>)
    ensures
        items_view(r@) == crate::config::providers_view(providers@).map_values(
            |p: ProviderView| panel_item(p, texts(panel@)),
        ),
{
    let mut items: Vec<PickerItem> = Vec::new();
    let mut i: usize = 0;
    while i < providers.len()
        invariant
            i <= providers.len(),
            items_view(items@).len() == i,
            forall|j: int|
                0 <= j < i ==> #[trigger] items_view(items@)[j] == panel_item(
                    providers@[j]@,
                    texts(panel@),
                ),
        decreases providers.len() - i,
    {
        let p = &providers[i];
        let mut detail = p.kind.name().to_string();
        detail.append(" · ");
        detail.append(&p.model);
        let current = has_item(panel, &p.name);
        add_item(&mut items, p.name.clone(), detail, current);
        i += 1;
    }
    assert(items_view(items@) =~= crate::config::providers_view(providers@).map_values(
        |p: ProviderView| panel_item(p, texts(panel@)),
    ));
    items
}

fn lens_items(catalog: &Vec<Lens>, roster: &Vec<String>) -> (r: Vec<PickerItem>)
    ensures
        items_view(r@) == lenses_view(catalog@).map_values(
            |l: LensView| lens_item(l, texts(roster@)),
        ),
{
    let mut items: Vec<PickerItem> = Vec::new();
    let mut i: usize = 0;
    while i < catalog.len()
        invariant
            i <= catalog.len(),
            items_view(items@).len() == i,
            forall|j: int|
                0 <= j < i ==> #[trigger] items_view(items@)[j] == lens_item(
                    catalog@[j]@,
                    texts(roster@),
                ),
        decreases catalog.len() - i,
    {
        let l = &catalog[i];
        let current = has_item(roster, &l.name);
        add_item(&mut items, l.name.clone(), l.description.clone(), current);
        i += 1;
    }
    assert(items_view(items@) =~= lenses_view(catalog@).map_values(
        |l: LensView| lens_item(l, texts(roster@)),
    ));
    items
}

fn summary_items(sessions: &Vec<SessionSummary>, here: &str) -> (r: Vec<PickerItem>)
    ensures
        items_view(r@) == summaries_view(sessions@).map_values(
            |s: SummaryView| summary_item(s, here@),
        ),
{
    let mut items: Vec<PickerItem> = Vec::new();
    let mut i: usize = 0;
    while i < sessions.len()
        invariant
            i <= sessions.len(),
            items_view(items@).len() == i,
            forall|j: int|
                0 <= j < i ==> #[trigger] items_view(items@)[j] == summary_item(
                    sessions@[j]@,
                    here@,
                ),
        decreases sessions.len() - i,
    {
        let s = &sessions[i];
        let mut detail = s.summary.clone();
        detail.append(" · ");
        detail.append(&number(s.messages as u64));
        detail.append(" msg");
        detail.append(
            if s.messages == 1 {
                ""
            } else {
                "s"
            },
        );
        let current = same(&s.id, here);
        add_item(&mut items, s.id.clone(), detail, current);
        i += 1;
    }
    assert(items_view(items@) =~= summaries_view(sessions@).map_values(
        |s: SummaryView| summary_item(s, here@),
    ));
    items
}

fn provider_items(providers: &Vec<ProviderConfig>, active: &str) -> (r: Vec<PickerItem>)
    ensures
        items_view(r@) == crate::config::providers_view(providers@).map_values(
            |p: ProviderView| provider_item(p, active@),
        ),
{
    let mut items: Vec<PickerItem> = Vec::new();
    let mut i: usize = 0;
    while i < providers.len()
        invariant
            i <= providers.len(),
            items_view(items@).len() == i,
            forall|j: int|
                0 <= j < i ==> #[trigger] items_view(items@)[j] == provider_item(
                    providers@[j]@,
                    active@,
                ),
        decreases providers.len() - i,
    {
        let p = &providers[i];
        let mut detail = p.kind.name().to_string();
        detail.append(" · ");
        detail.append(&p.model);
        detail.append(" @ ");
        detail.append(&p.base_url);
        let current = same(&p.name, active);
        add_item(&mut items, p.name.clone(), detail, current);
        i += 1;
    }
    assert(items_view(items@) =~= crate::config::providers_view(providers@).map_values(
        |p: ProviderView| provider_item(p, active@),
    ));
    items
}

fn type_items(types: &Vec<MenuRow>, presets: &Vec<Preset>) -> (r: Vec<PickerItem>)
    ensures
        items_view(r@) == types@.map_values(|x: MenuRow| x@).map_values(
            |m: MenuRowView| type_item(m),
        ) + presets@.map_values(|x: Preset| x@).map_values(|p: PresetView| preset_item(p)),
{
    let mut items: Vec<PickerItem> = Vec::new();
    let mut i: usize = 0;
    while i < types.len()
        invariant
            i <= types.len(),
            items_view(items@).len() == i,
            forall|j: int|
                0 <= j < i ==> #[trigger] items_view(items@)[j] == type_item(types@[j]@),
        decreases types.len() - i,
    {
        add_item(&mut items, types[i].label.clone(), types[i].detail.clone(), false);
        i += 1;
    }
    let ghost n = types@.len();
    let mut k: usize = 0;
    while k < presets.len()
        invariant
            k <= presets.len(),
            n == types@.len(),
            items_view(items@).len() == n + k,
            forall|j: int|
                0 <= j < n ==> #[trigger] items_view(items@)[j] == type_item(types@[j]@),
            forall|j: int|
                n <= j < n + k ==> #[trigger] items_view(items@)[j] == preset_item(
                    presets@[j - n]@,
                ),
        decreases presets.len() - k,
    {
        let mut value = presets[k].label.clone();
        value.append(" — API key");
        add_item(&mut items, value, presets[k].detail.clone(), false);
        k += 1;
    }
    assert(items_view(items@) =~= types@.map_values(|x: MenuRow| x@).map_values(
        |m: MenuRowView| type_item(m),
    ) + presets@.map_values(|x: Preset| x@).map_values(|p: PresetView| preset_item(p)));
    items
}

fn backend_items(backends: &Vec<WebBackend>, active: &str) -> (r: Vec<PickerItem>)
    ensures
        items_view(r@) == backends@.map_values(|x: WebBackend| x@).map_values(
            |b: WebBackendView| backend_item(b, active@),
        ),
{
    let mut items: Vec<PickerItem> = Vec::new();
    let mut i: usize = 0;
    while i < backends.len()
        invariant
            i <= backends.len(),
            items_view(items@).len() == i,
            forall|j: int|
                0 <= j < i ==> #[trigger] items_view(items@)[j] == backend_item(
                    backends@[j]@,
                    active@,
                ),
        decreases backends.len() - i,
    {
        let b = &backends[i];
        let mut detail = b.label.clone();
        detail.append(" — ");
        detail.append(&b.detail);
        let current = same(&b.id, active) || (same(&b.id, "xai") && same(active, "grok"));
        add_item(&mut items, b.id.clone(), detail, current);
        i += 1;
    }
    assert(items_view(items@) =~= backends@.map_values(|x: WebBackend| x@).map_values(
        |b: WebBackendView| backend_item(b, active@),
    ));
    items
}

fn find_backend(backends: &Vec<WebBackend>, id: &str) -> (r: usize)
    ensures
        r <= backends.len(),
        r == backend_pos(backends@.map_values(|x: WebBackend| x@), id@),
{
    let ghost all = backends@.map_values(|x: WebBackend| x@);
    let mut i: usize = 0;
    assert(all.skip(0) =~= all);
    while i < backends.len()
        invariant
            i <= backends.len(),
            all == backends@.map_values(|x: WebBackend| x@),
            backend_pos(all, id@) == i + backend_pos(all.skip(i as int), id@),
        decreases backends.len() - i,
    {
        assert(all.skip(i as int)[0] == backends@[i as int]@);
        if same(&backends[i].id, id) {
            return i;
        }
        assert(all.skip(i as int).drop_first() =~= all.skip(i + 1));
        i += 1;
    }
    i
}

impl Config {
    fn flip(&mut self, setting: Setting)
        ensures
            final(self)@ == old(self)@.flipped(setting),
    {
        match setting {
            Setting::PlanFirst => {
                self.plan_first = !self.plan_first;
            },
            Setting::Continuous => {
                self.continuous = !self.continuous;
            },
            Setting::PlanEachCycle => {
                self.plan_each_cycle = !self.plan_each_cycle;
            },
            Setting::Rollback => {
                self.rollback_failed_cycles = !self.rollback_failed_cycles;
            },
            Setting::WebAllowLocal => {
                self.web_allow_local = !self.web_allow_local;
            },
            Setting::FleetSynthesize => {
                self.fleet_synthesize = !self.fleet_synthesize;
            },
            _ => {},
        }
    }
}

impl App {
    /// Opens a menu at its first row.
    pub(crate) fn open_menu(&mut self, kind: PickerKind, title: &str, items: Vec<PickerItem>)
        requires
            old(self)@.wf(),
        ensures
            final(self)@ == old(self)@.choosing(kind, title@, items_view(items@)),
            final(self)@.wf(),
    {
        self.composer.picker = Some(
            Picker { kind, title: title.to_string(), items, selected: 0 },
        );
    }

    /// The settings menu rows, in display order.
    fn settings_rows(&self) -> (r: Vec<SettingRow>)
        ensures
            setting_rows_view(r@) == self@.settings(),
    {
        let mut rows: Vec<SettingRow> = Vec::new();
        let active = self.config.active();
        add_setting(&mut rows, Setting::Model, "Model", active.model.clone());
        add_setting(&mut rows, Setting::Mode, "Mode", self.mode.name().to_string());
        add_setting(
            &mut rows,
            Setting::PlanFirst,
            "Plan mode at startup",
            shown_switch(self.config.plan_first),
        );
        add_setting(
            &mut rows,
            Setting::Continuous,
            "Continuous (sovereign)",
            shown_switch(self.config.continuous),
        );
        add_setting(
            &mut rows,
            Setting::PlanEachCycle,
            "Plan each cycle",
            shown_switch(self.config.plan_each_cycle),
        );
        add_setting(
            &mut rows,
            Setting::Rollback,
            "Rollback failed cycles",
            shown_switch(self.config.rollback_failed_cycles),
        );
        add_setting(
            &mut rows,
            Setting::Vim,
            "Vim mode (modal input)",
            shown_switch(self.config.vim),
        );
        add_setting(
            &mut rows,
            Setting::WebBackend,
            "Web search backend",
            self.config.web_search_backend.clone(),
        );
        add_setting(
            &mut rows,
            Setting::WebAllowLocal,
            "Web: allow localhost",
            shown_switch(self.config.web_allow_local),
        );
        add_setting(
            &mut rows,
            Setting::FleetSynthesize,
            "Fleet: synthesis turn",
            shown_switch(self.config.fleet_synthesize),
        );
        let import = if self.surroundings.claude_home {
            "MCP servers, commands, spinner verbs".to_string()
        } else {
            let mut missing = "no ".to_string();
            missing.append(&self.surroundings.peer.home);
            missing.append(" found");
            missing
        };
        let mut label = "Import from ".to_string();
        label.append(&self.surroundings.peer.name);
        add_setting(&mut rows, Setting::Import, &label, import);
        let mut providers = number(self.config.providers.len() as u64);
        providers.append(" configured");
        assert(self@.config.providers.len() == self.config.providers@.len());
        add_setting(&mut rows, Setting::Provider, "Manage providers…", providers);
        add_setting(
            &mut rows,
            Setting::ConfigFile,
            "Open config file…",
            self.surroundings.config_path.clone(),
        );
        proof {
            reveal(AppView::settings);
            assert(setting_rows_view(rows@) =~= self@.settings());
        }
        rows
    }

    /// Open the `/settings` menu.  Re-callable: toggles re-open it so the new
    /// value is visible.
    pub fn open_settings_picker(&mut self)
        requires
            old(self)@.wf(),
        ensures
            final(self)@ == old(self)@.settings_open(),
            final(self)@.wf(),
    {
        let rows = self.settings_rows();
        let mut items: Vec<PickerItem> = Vec::new();
        let mut i: usize = 0;
        while i < rows.len()
            invariant
                i <= rows.len(),
                items_view(items@).len() == i,
                forall|j: int|
                    0 <= j < i ==> #[trigger] items_view(items@)[j] == item(
                        rows@[j].label@,
                        rows@[j].detail@,
                        false,
                    ),
            decreases rows.len() - i,
        {
            add_item(&mut items, rows[i].label.clone(), rows[i].detail.clone(), false);
            i += 1;
        }
        proof {
            let all = self@.settings();
            assert(all.len() == rows@.len());
            assert forall|j: int| 0 <= j < all.len() implies #[trigger] items_view(items@)[j]
                == item(all[j].label, all[j].detail, false) by {
                assert(all[j] == rows@[j]@);
            }
            assert(items_view(items@) =~= all.map_values(
                |r: SettingView| item(r.label, r.detail, false),
            ));
        }
        self.open_menu(
            PickerKind::Settings,
            " settings · ↑/↓ move · enter select · esc close ",
            items,
        );
    }

    /// Open the import multi-select.
    fn open_claude_import_picker(&mut self)
        requires
            old(self)@.wf(),
        ensures
            final(self)@ == old(self)@.import_open(),
            final(self)@.wf(),
    {
        if !self.surroundings.claude_home {
            let mut missing = "no ".to_string();
            missing.append(&self.surroundings.peer.name);
            missing.append(" install found (");
            missing.append(&self.surroundings.peer.home);
            missing.append(")");
            self.notice(missing);
            return ;
        }
        let mut adopt = "adopt ".to_string();
        adopt.append(&self.surroundings.peer.name);
        adopt.append("'s spinner verbs");
        let mut title = " import from ".to_string();
        title.append(&lowered(&self.surroundings.peer.name));
        title.append(" · space toggles · enter runs ");
        let mut items: Vec<PickerItem> = Vec::new();
        assert(items_view(items@) =~= Seq::empty());
        add_item(
            &mut items,
            counted("MCP servers (", self.surroundings.claude_mcp),
            "merge into ~/.wizard/mcp.toml".to_string(),
            false,
        );
        add_item(
            &mut items,
            counted("Custom commands (", self.surroundings.claude_commands),
            "copy into ~/.wizard/commands/".to_string(),
            false,
        );
        add_item(
            &mut items,
            counted("Spinner verbs (", self.surroundings.claude_verbs),
            adopt,
            false,
        );
        self.open_menu(
            PickerKind::ClaudeImport,
            &title,
            items,
        );
        assert(self@.composer.picker->0.items =~= old(self)@.import_open().composer.picker->0.items);
    }

    /// Open the `/fusion config` multi-select.
    pub fn open_fusion_picker(&mut self)
        requires
            old(self)@.wf(),
        ensures
            final(self)@ == old(self)@.fusion_open(),
            final(self)@.wf(),
    {
        assert(self@.config.providers.len() == self.config.providers@.len());
        if self.config.providers.len() == 0 {
            self.notice(
                "fusion needs configured providers — add at least two with /provider first".to_string(),
            );
            return ;
        }
        let fusion = self.config.effective_fusion();
        let panel: Vec<String> = match fusion {
            Some(f) => f.panel,
            None => Vec::new(),
        };
        let items = panel_items(&self.config.providers, &panel);
        assert(fusion is Some);
        self.open_menu(
            PickerKind::FusionPanel,
            " fusion panel · space toggles · enter saves ",
            items,
        );
    }

    /// Open the `/ultra config` multi-select over the lenses in `catalog`.
    pub fn open_ultra_picker(&mut self, catalog: &Vec<Lens>)
        requires
            old(self)@.wf(),
        ensures
            final(self)@ == old(self)@.ultra_open(lenses_view(catalog@)),
            final(self)@.wf(),
    {
        let roster = self.config.effective_ultra();
        let mut items = lens_items(catalog, &roster.lenses);
        add_item(
            &mut items,
            "judge".to_string(),
            describe_judges(roster.judges),
            roster.judges > 0,
        );
        self.open_menu(
            PickerKind::UltraLenses,
            " ultra roster · space toggles · enter saves ",
            items,
        );
    }

    /// Open the `/resume` picker over the past sessions found.
    pub fn open_resume_picker(&mut self, found: Result<Vec<SessionSummary>, String>)
        requires
            old(self)@.wf(),
        ensures
            final(self)@ == old(self)@.resume_open(
                match found {
                    Ok(v) => Ok(summaries_view(v@)),
                    Err(e) => Err(e@),
                },
            ),
            final(self)@.wf(),
    {
        match found {
            Err(why) => {
                let mut m = "cannot locate sessions: ".to_string();
                m.append(&why);
                self.notice(m);
            },
            Ok(sessions) => {
                assert(summaries_view(sessions@).len() == sessions@.len());
                if sessions.len() == 0 {
                    self.notice("no past sessions to resume".to_string());
                    return ;
                }
                let items = summary_items(&sessions, &self.session.id);
                self.open_menu(
                    PickerKind::Resume,
                    " resume session · ↑/↓ move · enter select · esc close ",
                    items,
                );
            },
        }
    }

    /// Open the provider picker.
    pub fn open_provider_picker(&mut self)
        requires
            old(self)@.wf(),
        ensures
            final(self)@ == old(self)@.providers_open(),
            final(self)@.wf(),
    {
        let active = self.config.active();
        let mut items = provider_items(&self.config.providers, &active.name);
        add_item(
            &mut items,
            "＋ Add provider…".to_string(),
            "configure a new provider".to_string(),
            false,
        );
        self.open_menu(
            PickerKind::Provider,
            " providers · ↑/↓ move · enter select · esc close ",
            items,
        );
    }

    /// Open the provider-type picker.
    pub fn open_provider_type_picker(&mut self)
        requires
            old(self)@.wf(),
        ensures
            final(self)@ == old(self)@.types_open(),
            final(self)@.wf(),
    {
        let items = type_items(&self.surroundings.provider_types, &self.surroundings.presets);
        self.open_menu(
            PickerKind::ProviderType,
            " add provider · ↑/↓ move · enter select · esc close ",
            items,
        );
    }

    /// Open the `web_search` backend picker.
    pub fn open_web_backend_picker(&mut self)
        requires
            old(self)@.wf(),
        ensures
            final(self)@ == old(self)@.web_open(),
            final(self)@.wf(),
    {
        let active = lowered(&trimmed(&self.config.web_search_backend));
        let items = backend_items(&self.surroundings.web_backends, &active);
        self.open_menu(
            PickerKind::WebBackend,
            " web search · ↑/↓ move · enter select · esc close ",
            items,
        );
    }

    /// Asks the main loop to write the settings.
    pub(crate) fn save_config(&mut self, subject: &str, note: Option<String>, always: bool)
        requires
            old(self)@.wf(),
        ensures
            final(self)@ == old(self)@.saving(subject@, text_opt(note), always),
            final(self)@.wf(),
    {
        self.ask(Effect::SaveConfig(SaveNote { subject: subject.to_string(), note, always }));
    }

    /// The main loop wrote the settings, or failed to.
    pub fn config_saved(&mut self, save: SaveNote, error: Option<String>)
        requires
            old(self)@.wf(),
        ensures
            final(self)@ == old(self)@.saved(save@, text_opt(error)),
            final(self)@.wf(),
    {
        let failed = error.is_some();
        if let Some(e) = error {
            let mut m = "could not save ".to_string();
            m.append(&save.subject);
            m.append(": ");
            m.append(&e);
            self.notice(m);
        }
        if let Some(note) = save.note {
            if !failed || save.always {
                self.notice(note);
            }
        }
    }

    /// Apply a `web_search` backend selection that needs no key entry.
    fn set_web_backend(&mut self, id: &str, note: String)
        requires
            old(self)@.wf(),
        ensures
            final(self)@ == old(self)@.web_backend_set(id@, note@),
            final(self)@.wf(),
    {
        self.config.web_search_backend = id.to_string();
        self.save_config("config", Some(note), false);
    }

    fn web_backend_label(&self, id: &str) -> (r: String)
        ensures
            r@ == backend_label(self@.surroundings.web_backends, id@),
    {
        let i = find_backend(&self.surroundings.web_backends, id);
        if i < self.surroundings.web_backends.len() {
            self.surroundings.web_backends[i].label.clone()
        } else {
            id.to_string()
        }
    }

    /// Handle a row from the `web_search` backend picker.
    pub(crate) fn select_web_backend(&mut self, id: &str)
        requires
            old(self)@.wf(),
        ensures
            final(self)@ == old(self)@.web_backend_selected(id@),
            final(self)@.wf(),
    {
        if same(id, "xai") || same(id, "grok") {
            let note = if self.surroundings.xai_session {
                "web search: using your xAI sign-in (no new login needed)"
            } else if self.surroundings.xai_key {
                "web search: using xAI (stored API key)"
            } else {
                "web search set to xAI — run /login xai to sign in, or set XAI_API_KEY"
            };
            self.set_web_backend("xai", note.to_string());
            return ;
        }
        let i = find_backend(&self.surroundings.web_backends, id);
        let keyed = i < self.surroundings.web_backends.len()
            && self.surroundings.web_backends[i].needs_key;
        let label = self.web_backend_label(id);
        if keyed {
            self.begin_web_key_prompt(id, &label);
        } else {
            let mut note = "web search: using ".to_string();
            note.append(&label);
            self.set_web_backend(id, note);
        }
    }

    /// The main loop stored a pasted API key, or failed to.
    pub fn web_key_stored(&mut self, id: &str, error: Option<String>)
        requires
            old(self)@.wf(),
        ensures
            final(self)@ == old(self)@.web_key_kept(id@, text_opt(error)),
            final(self)@.wf(),
    {
        match error {
            Some(e) => {
                let mut m = "could not save the ".to_string();
                m.append(id);
                m.append(" API key: ");
                m.append(&e);
                self.notice(m);
            },
            None => {
                let mut note = "web search: using ".to_string();
                note.append(&self.web_backend_label(id));
                note.append(" (key saved to ~/.wizard/credentials.toml)");
                self.set_web_backend(id, note);
            },
        }
    }

    /// `/vim`: toggle modal editing, persist the choice, and reset to Insert.
    pub fn toggle_vim(&mut self)
        requires
            old(self)@.wf(),
        ensures
            final(self)@ == old(self)@.vim_toggled(),
            final(self)@.wf(),
    {
        let on = !self.composer.vim.enabled;
        self.composer.vim = VimState::fresh(on);
        self.config.vim = on;
        let note = if on {
            "vim mode on — Esc for NORMAL (hjkl/w/b/e move · i/a/I/A insert · x/dd/dw/cw edit · u undo), i to type. /vim to leave"
        } else {
            "vim mode off"
        };
        self.save_config("config", Some(note.to_string()), true);
    }

    fn flip(&mut self, setting: Setting)
        requires
            old(self)@.wf(),
        ensures
            final(self)@ == old(self)@.flipped(setting),
            final(self)@.wf(),
    {
        if setting == Setting::Vim {
            let on = !self.config.vim;
            self.config.vim = on;
            self.composer.vim = VimState::fresh(on);
        } else {
            self.config.flip(setting);
        }
    }

    fn reopen_settings(&mut self, selected: usize)
        requires
            old(self)@.wf(),
        ensures
            final(self)@ == old(self)@.settings_reopened(selected),
            final(self)@.wf(),
    {
        self.open_settings_picker();
        if let Some(mut picker) = self.composer.picker.take() {
            picker.selected = selected;
            self.composer.picker = Some(picker);
        }
    }

    /// Dispatch the settings row at `selected`.
    pub(crate) fn apply_setting(&mut self, selected: usize) -> (r: Option<AppAction>)
        requires
            old(self)@.wf(),
        ensures
            (final(self)@, action_opt(r)) == old(self)@.setting_applied(selected),
            final(self)@.wf(),
    {
        let rows = self.settings_rows();
        assert(setting_rows_view(rows@).len() == rows@.len());
        if selected >= rows.len() {
            return None;
        }
        let setting = rows[selected].setting;
        assert(setting == self@.settings()[selected as int].setting);
        match setting {
            Setting::Model => Some(AppAction::Command(SlashCommand::Model(None))),
            Setting::Mode => Some(AppAction::Command(SlashCommand::Mode(None))),
            Setting::Provider => Some(
                AppAction::Command(SlashCommand::Provider(ProviderAction::List)),
            ),
            Setting::Import => {
                self.open_claude_import_picker();
                None
            },
            Setting::ConfigFile => {
                self.pending.edit_config = true;
                None
            },
            Setting::WebBackend => {
                self.open_web_backend_picker();
                None
            },
            _ => {
                self.flip(setting);
                self.save_config("config", None, false);
                self.reopen_settings(selected);
                None
            },
        }
    }
}

} // verus!
