//! Keys on an open menu, and what choosing a row does.

use crate::app::keys::{KeyCode, KeyEvent};
use crate::app::menus::add_row;
use crate::app::picker::{items_view, ItemView, Picker, PickerItem, PickerKind, PickerView};
use crate::app::prompts::{PromptField, PromptView, ProviderPrompt};
use crate::app::state::{
    action_opt, ActionView, App, AppAction, AppView, ComposerView, Surroundings, SurroundingsView,
};
use crate::commands::{
    CommandView, ImportSelection, ProviderAction, ProviderActionView, SlashCommand, UltraAction,
    UltraActionView,
};
use crate::config::{
    ConfigView, FusionConfig, FusionView, Mode, ProviderKind, ReasoningEffort, UltraConfig,
    UltraView,
};
use crate::text::{decimal, join, join_texts, number, parse_u64, parsed_u64, same, texts};
use vstd::prelude::*;

verus! {

/// The values of the checked rows, in order.
pub open spec fn checked(items: Seq<ItemView>) -> Seq<Seq<char>>
    decreases items.len(),
{
    if items.len() == 0 {
        Seq::empty()
    } else {
        let before = checked(items.drop_last());
        if items.last().current {
            before.push(items.last().value)
        } else {
            before
        }
    }
}

/// The row at `i` exists and is checked.
pub open spec fn checked_at(items: Seq<ItemView>, i: int) -> bool {
    i < items.len() && items[i].current
}

/// The effort a row of the effort menu stands for.
pub open spec fn effort_named(value: Seq<char>) -> Option<ReasoningEffort> {
    if value == "low"@ {
        Some(ReasoningEffort::Low)
    } else if value == "medium"@ {
        Some(ReasoningEffort::Medium)
    } else if value == "high"@ {
        Some(ReasoningEffort::High)
    } else {
        None
    }
}

/// A provider setup that starts from a name, a base URL and a model, and asks
/// for the fields in `queue`.
pub open spec fn setup(
    kind: ProviderKind,
    name: Seq<char>,
    base_url: Seq<char>,
    model: Seq<char>,
    queue: Seq<PromptField>,
) -> PromptView {
    PromptView { kind, name, base_url, model, api_key: None, queue }
}

/// The setup that the row of the "add provider" menu at `index` starts: the
/// fixed rows in their order, then the ready-made providers.
#[verifier::opaque]
pub open spec fn setup_at(index: usize, here: SurroundingsView) -> Option<PromptView> {
    if index == 1 {
        Some(
            setup(
                ProviderKind::Xai,
                "xai"@,
                "https://api.x.ai/v1"@,
                "grok-4.3"@,
                seq![PromptField::ApiKey],
            ),
        )
    } else if index == 2 {
        Some(
            setup(
                ProviderKind::OpenRouter,
                "openrouter"@,
                "https://openrouter.ai/api/v1"@,
                ""@,
                seq![PromptField::Model, PromptField::ApiKey],
            ),
        )
    } else if index == 3 {
        Some(
            setup(
                ProviderKind::Cloudflare,
                "cloudflare"@,
                "https://api.cloudflare.com/client/v4/accounts/{account_id}/ai/v1"@,
                "@cf/zai-org/glm-5.2"@,
                seq![PromptField::AccountId, PromptField::ApiKey],
            ),
        )
    } else if index == 4 {
        Some(
            setup(
                ProviderKind::Openai,
                "openai"@,
                "https://api.openai.com/v1"@,
                ""@,
                seq![PromptField::Model, PromptField::ApiKey],
            ),
        )
    } else if index == 5 {
        Some(
            setup(
                ProviderKind::Anthropic,
                here.peer.word,
                "https://api.anthropic.com"@,
                ""@,
                seq![PromptField::Model, PromptField::ApiKey],
            ),
        )
    } else if index == 6 {
        Some(
            setup(
                ProviderKind::Openai,
                ""@,
                ""@,
                ""@,
                seq![
                    PromptField::Name,
                    PromptField::BaseUrl,
                    PromptField::Model,
                    PromptField::ApiKey,
                ],
            ),
        )
    } else {
        let at = index - here.provider_types.len();
        if 0 <= at < here.presets.len() {
            let p = here.presets[at];
            Some(setup(ProviderKind::Openai, p.name, p.base_url, p.model, seq![PromptField::ApiKey]))
        } else {
            None
        }
    }
}

impl AppView {
    pub open spec fn with_picker(self, picker: Option<PickerView>) -> AppView {
        self.with_composer(ComposerView { picker, ..self.composer })
    }

    /// The checked rows become the fusion panel, the first of them the
    /// synthesizer.
    pub open spec fn panel_picked(self, items: Seq<ItemView>) -> AppView {
        let panel = checked(items);
        if panel.len() == 0 {
            self.noticed("select at least one provider for the panel (Space toggles)"@)
        } else {
            let rounds = match self.config.fusion {
                Some(f) => f.rounds,
                None => 1,
            };
            self.with_config(
                ConfigView {
                    fusion: Some(FusionView { panel, synthesizer: panel[0], rounds }),
                    ..self.config
                },
            ).saving(
                "fusion config"@,
                Some(
                    "fusion: "@ + join(panel, "+"@) + " · synthesizer "@ + panel[0] + " · "@
                        + decimal(rounds as nat) + " round(s)"@ + (if self.turn.fusion_active {
                        " — /fusion off then on to apply"@
                    } else {
                        " — /fusion to turn on"@
                    }),
                ),
                false,
            )
        }
    }

    /// The checked lenses and the judge row become the roster.
    pub open spec fn roster_picked(self, items: Seq<ItemView>) -> (AppView, Option<ActionView>) {
        if items.len() == 0 {
            (self, None)
        } else {
            let lenses = checked(items.drop_last());
            let base = self.config.roster();
            if lenses.len() == 0 {
                (
                    self.noticed(
                        "select at least one lens (Space toggles) — ultra has nothing to fan out over without one"@,
                    ),
                    None,
                )
            } else {
                (
                    self,
                    Some(
                        ActionView::Command(
                            CommandView::Ultra(
                                UltraActionView::Apply(
                                    UltraView {
                                        lenses,
                                        judges: if !items.last().current {
                                            0
                                        } else if base.judges > 1 {
                                            base.judges
                                        } else {
                                            1
                                        },
                                    },
                                ),
                            ),
                        ),
                    ),
                )
            }
        }
    }

    /// The checked rows of the import menu are imported.
    pub open spec fn import_picked(self, items: Seq<ItemView>) -> (AppView, Option<ActionView>) {
        let selection = ImportSelection {
            mcp: checked_at(items, 0),
            commands: checked_at(items, 1),
            verbs: checked_at(items, 2),
        };
        if !selection.mcp && !selection.commands && !selection.verbs {
            (self.noticed("nothing selected to import"@), None)
        } else {
            (self, Some(ActionView::Command(CommandView::ImportClaude(selection))))
        }
    }

    /// A row of the "add provider" menu was chosen.
    pub open spec fn type_picked(self, index: usize) -> (AppView, Option<ActionView>) {
        if index == 0 {
            (self, Some(ActionView::Command(CommandView::Login("xai"@))))
        } else {
            match setup_at(index, self.surroundings) {
                Some(p) => (self.prompting(p), None),
                None => (self, None),
            }
        }
    }

    /// A row of a menu was chosen; the menu is closed already.
    #[verifier::opaque]
    pub open spec fn picked(self, p: PickerView) -> (AppView, Option<ActionView>) {
        if p.selected >= p.items.len() {
            (self, None)
        } else {
            let value = p.items[p.selected as int].value;
            match p.kind {
                PickerKind::Model => (
                    self,
                    Some(ActionView::Command(CommandView::Model(Some(value)))),
                ),
                PickerKind::Mode => (
                    self,
                    Some(
                        ActionView::Command(
                            CommandView::Mode(
                                Some(
                                    if value == "sovereign"@ {
                                        Mode::Sovereign
                                    } else {
                                        Mode::Genie
                                    },
                                ),
                            ),
                        ),
                    ),
                ),
                PickerKind::Effort => (
                    self,
                    Some(ActionView::Command(CommandView::Effort(Some(effort_named(value))))),
                ),
                PickerKind::Rewind => match parsed_u64(value) {
                    Some(turn) => (
                        self,
                        Some(ActionView::Command(CommandView::Rewind(Some(turn)))),
                    ),
                    None => (self, None),
                },
                PickerKind::Resume => (
                    self,
                    Some(ActionView::Command(CommandView::Resume(Some(value)))),
                ),
                PickerKind::Subagent => (
                    self.with_composer(
                        self.composer.with_input("Use the "@ + value + " subagent to "@),
                    ),
                    None,
                ),
                PickerKind::Settings => self.setting_applied(p.selected),
                PickerKind::ClaudeImport => self.import_picked(p.items),
                PickerKind::FusionPanel => (self.panel_picked(p.items), None),
                PickerKind::UltraLenses => self.roster_picked(p.items),
                PickerKind::Provider => if p.selected + 1 == p.items.len() || value == add_row() {
                    (self.types_open(), None)
                } else {
                    (
                        self,
                        Some(
                            ActionView::Command(
                                CommandView::Provider(ProviderActionView::Use(value)),
                            ),
                        ),
                    )
                },
                PickerKind::ProviderType => self.type_picked(p.selected),
                PickerKind::WebBackend => (self.web_backend_selected(value), None),
            }
        }
    }

    /// A key on an open menu.
    #[verifier::opaque]
    pub open spec fn picker_key(self, key: KeyEvent, p: PickerView) -> (
        AppView,
        Option<ActionView>,
    ) {
        match key.code {
            KeyCode::Up => (self.with_picker(Some(p.up())), None),
            KeyCode::BackTab => (self.with_picker(Some(p.up())), None),
            KeyCode::Char('k') => (self.with_picker(Some(p.up())), None),
            KeyCode::Down => (self.with_picker(Some(p.down())), None),
            KeyCode::Tab => (self.with_picker(Some(p.down())), None),
            KeyCode::Char('j') => (self.with_picker(Some(p.down())), None),
            KeyCode::Char(' ') => if p.multi() {
                (self.with_picker(Some(p.toggled())), None)
            } else {
                (self, None)
            },
            KeyCode::Esc => (self.with_picker(None), None),
            KeyCode::Enter => self.with_picker(None).picked(p),
            _ => (self, None),
        }
    }
}

fn checked_values(items: &Vec<PickerItem>, end: usize) -> (r: Vec<String>)
    requires
        end <= items.len(),
    ensures
        texts(r@) == checked(items_view(items@).take(end as int)),
{
    let ghost all = items_view(items@);
    let mut out: Vec<String> = Vec::new();
    let mut i: usize = 0;
    assert(texts(out@) =~= checked(all.take(0)));
    while i < end
        invariant
            i <= end <= items.len(),
            all == items_view(items@),
            texts(out@) == checked(all.take(i as int)),
        decreases end - i,
    {
        assert(all.take(i + 1).drop_last() =~= all.take(i as int));
        assert(all.take(i + 1).last() == items@[i as int]@);
        if items[i].current {
            let ghost before = out@;
            out.push(items[i].value.clone());
            assert(texts(out@) =~= texts(before).push(items@[i as int].value@));
        }
        i += 1;
    }
    out
}

fn is_checked(items: &Vec<PickerItem>, i: usize) -> (r: bool)
    ensures
        r == checked_at(items_view(items@), i as int),
{
    if i < items.len() {
        assert(items_view(items@)[i as int] == items@[i as int]@);
        items[i].current
    } else {
        false
    }
}

fn effort_for(value: &str) -> (r: Option<ReasoningEffort>)
    ensures
        r == effort_named(value@),
{
    if same(value, "low") {
        Some(ReasoningEffort::Low)
    } else if same(value, "medium") {
        Some(ReasoningEffort::Medium)
    } else if same(value, "high") {
        Some(ReasoningEffort::High)
    } else {
        None
    }
}

fn new_setup(
    kind: ProviderKind,
    name: &str,
    base_url: &str,
    model: &str,
    queue: Vec<PromptField>,
) -> (r: ProviderPrompt)
    ensures
        r@ == setup(kind, name@, base_url@, model@, queue@),
{
    ProviderPrompt {
        kind,
        name: name.to_string(),
        base_url: base_url.to_string(),
        model: model.to_string(),
        api_key: None,
        queue,
    }
}

fn find_setup(index: usize, here: &Surroundings) -> (r: Option<ProviderPrompt>)
    ensures
        crate::app::prompts::prompt_opt(r) == setup_at(index, here@),
{
    proof {
        reveal(setup_at);
    }
    let key: Vec<PromptField> = vec![PromptField::ApiKey];
    let model_and_key: Vec<PromptField> = vec![PromptField::Model, PromptField::ApiKey];
    assert(key@ =~= seq![PromptField::ApiKey]);
    assert(model_and_key@ =~= seq![PromptField::Model, PromptField::ApiKey]);
    if index == 1 {
        return Some(new_setup(ProviderKind::Xai, "xai", "https://api.x.ai/v1", "grok-4.3", key));
    }
    if index == 2 {
        return Some(
            new_setup(
                ProviderKind::OpenRouter,
                "openrouter",
                "https://openrouter.ai/api/v1",
                "",
                model_and_key,
            ),
        );
    }
    if index == 3 {
        let account: Vec<PromptField> = vec![PromptField::AccountId, PromptField::ApiKey];
        assert(account@ =~= seq![PromptField::AccountId, PromptField::ApiKey]);
        return Some(
            new_setup(
                ProviderKind::Cloudflare,
                "cloudflare",
                "https://api.cloudflare.com/client/v4/accounts/{account_id}/ai/v1",
                "@cf/zai-org/glm-5.2",
                account,
            ),
        );
    }
    if index == 4 {
        return Some(
            new_setup(
                ProviderKind::Openai,
                "openai",
                "https://api.openai.com/v1",
                "",
                model_and_key,
            ),
        );
    }
    if index == 5 {
        return Some(
            new_setup(
                ProviderKind::Anthropic,
                &here.peer.word,
                "https://api.anthropic.com",
                "",
                model_and_key,
            ),
        );
    }
    if index == 6 {
        let all: Vec<PromptField> = vec![
            PromptField::Name,
            PromptField::BaseUrl,
            PromptField::Model,
            PromptField::ApiKey,
        ];
        assert(all@ =~= seq![
            PromptField::Name,
            PromptField::BaseUrl,
            PromptField::Model,
            PromptField::ApiKey,
        ]);
        return Some(new_setup(ProviderKind::Openai, "", "", "", all));
    }
    let fixed = here.provider_types.len();
    assert(here@.provider_types.len() == fixed);
    assert(here@.presets.len() == here.presets@.len());
    if index < fixed || index - fixed >= here.presets.len() {
        return None;
    }
    let p = &here.presets[index - fixed];
    assert(here@.presets[index - fixed] == p@);
    Some(new_setup(ProviderKind::Openai, &p.name, &p.base_url, &p.model, key))
}

impl App {
    fn pick_panel(&mut self, items: &Vec<PickerItem>)
        requires
            old(self)@.wf(),
        ensures
            final(self)@ == old(self)@.panel_picked(items_view(items@)),
            final(self)@.wf(),
    {
        assert(items_view(items@).take(items@.len() as int) =~= items_view(items@));
        let panel = checked_values(items, items.len());
        assert(texts(panel@).len() == panel@.len());
        if panel.len() == 0 {
            self.notice("select at least one provider for the panel (Space toggles)".to_string());
            return ;
        }
        let synthesizer = panel[0].clone();
        assert(synthesizer@ == texts(panel@)[0]);
        let rounds: u32 = match &self.config.fusion {
            Some(f) => f.rounds,
            None => 1,
        };
        let mut note = "fusion: ".to_string();
        note.append(&join_texts(&panel, "+"));
        note.append(" · synthesizer ");
        note.append(&synthesizer);
        note.append(" · ");
        note.append(&number(rounds as u64));
        note.append(" round(s)");
        note.append(
            if self.turn.fusion_active {
                " — /fusion off then on to apply"
            } else {
                " — /fusion to turn on"
            },
        );
        self.config.fusion = Some(FusionConfig { panel, synthesizer, rounds });
        self.save_config("fusion config", Some(note), false);
    }

    fn pick_roster(&mut self, items: &Vec<PickerItem>) -> (r: Option<AppAction>)
        requires
            old(self)@.wf(),
        ensures
            (final(self)@, action_opt(r)) == old(self)@.roster_picked(items_view(items@)),
            final(self)@.wf(),
    {
        assert(items_view(items@).len() == items@.len());
        if items.len() == 0 {
            return None;
        }
        let last = items.len() - 1;
        assert(items_view(items@).drop_last() =~= items_view(items@).take(last as int));
        assert(items_view(items@).last() == items@[last as int]@);
        let lenses = checked_values(items, last);
        assert(texts(lenses@).len() == lenses@.len());
        if lenses.len() == 0 {
            self.notice(
                "select at least one lens (Space toggles) — ultra has nothing to fan out over without one".to_string(),
            );
            return None;
        }
        let base = self.config.effective_ultra();
        let judges: u32 = if !items[last].current {
            0
        } else if base.judges > 1 {
            base.judges
        } else {
            1
        };
        Some(
            AppAction::Command(
                SlashCommand::Ultra(UltraAction::Apply(UltraConfig { lenses, judges })),
            ),
        )
    }

    fn pick_import(&mut self, items: &Vec<PickerItem>) -> (r: Option<AppAction>)
        requires
            old(self)@.wf(),
        ensures
            (final(self)@, action_opt(r)) == old(self)@.import_picked(items_view(items@)),
            final(self)@.wf(),
    {
        let selection = ImportSelection {
            mcp: is_checked(items, 0),
            commands: is_checked(items, 1),
            verbs: is_checked(items, 2),
        };
        if !selection.mcp && !selection.commands && !selection.verbs {
            self.notice("nothing selected to import".to_string());
            return None;
        }
        Some(AppAction::Command(SlashCommand::ImportClaude(selection)))
    }

    fn pick_type(&mut self, index: usize) -> (r: Option<AppAction>)
        requires
            old(self)@.wf(),
        ensures
            (final(self)@, action_opt(r)) == old(self)@.type_picked(index),
            final(self)@.wf(),
    {
        if index == 0 {
            return Some(AppAction::Command(SlashCommand::Login("xai".to_string())));
        }
        if let Some(prompt) = find_setup(index, &self.surroundings) {
            self.begin_provider_prompt(prompt);
        }
        None
    }

    /// Enter on a menu that is closed already.
    fn pick(&mut self, picker: Picker) -> (r: Option<AppAction>)
        requires
            old(self)@.wf(),
        ensures
            (final(self)@, action_opt(r)) == old(self)@.picked(picker@),
            final(self)@.wf(),
    {
        proof {
            reveal(AppView::picked);
        }
        let selected = picker.selected;
        assert(picker@.items.len() == picker.items@.len());
        if selected >= picker.items.len() {
            return None;
        }
        assert(picker@.items[selected as int] == picker.items@[selected as int]@);
        let value = picker.items[selected].value.clone();
        match picker.kind {
            PickerKind::Model => Some(AppAction::Command(SlashCommand::Model(Some(value)))),
            PickerKind::Mode => {
                let mode = if same(&value, "sovereign") {
                    Mode::Sovereign
                } else {
                    Mode::Genie
                };
                Some(AppAction::Command(SlashCommand::Mode(Some(mode))))
            },
            PickerKind::Effort => Some(
                AppAction::Command(SlashCommand::Effort(Some(effort_for(&value)))),
            ),
            PickerKind::Rewind => match parse_u64(&value) {
                Some(turn) => Some(AppAction::Command(SlashCommand::Rewind(Some(turn)))),
                None => None,
            },
            PickerKind::Resume => Some(AppAction::Command(SlashCommand::Resume(Some(value)))),
            PickerKind::Subagent => {
                let mut text = "Use the ".to_string();
                text.append(&value);
                text.append(" subagent to ");
                self.composer.set_input(text);
                None
            },
            PickerKind::Settings => self.apply_setting(selected),
            PickerKind::ClaudeImport => self.pick_import(&picker.items),
            PickerKind::FusionPanel => {
                self.pick_panel(&picker.items);
                None
            },
            PickerKind::UltraLenses => self.pick_roster(&picker.items),
            PickerKind::Provider => {
                if selected == picker.items.len() - 1 || same(&value, "＋ Add provider…") {
                    self.open_provider_type_picker();
                    None
                } else {
                    Some(AppAction::Command(SlashCommand::Provider(ProviderAction::Use(value))))
                }
            },
            PickerKind::ProviderType => self.pick_type(selected),
            PickerKind::WebBackend => {
                self.select_web_backend(&value);
                None
            },
        }
    }

    /// A key while a menu is open.
    pub(crate) fn handle_picker_key(&mut self, key: KeyEvent) -> (r: Option<AppAction>)
        requires
            old(self)@.wf(),
            old(self)@.composer.picker is Some,
        ensures
            (final(self)@, action_opt(r)) == old(self)@.picker_key(
                key,
                old(self)@.composer.picker->0,
            ),
            final(self)@.wf(),
    {
        proof {
            reveal(AppView::picker_key);
        }
        let taken = self.composer.picker.take();
        let mut picker = match taken {
            Some(p) => p,
            None => {
                return None;
            },
        };
        match key.code {
            KeyCode::Up | KeyCode::BackTab | KeyCode::Char('k') => {
                picker.up();
                self.composer.picker = Some(picker);
                None
            },
            KeyCode::Down | KeyCode::Tab | KeyCode::Char('j') => {
                picker.down();
                self.composer.picker = Some(picker);
                None
            },
            KeyCode::Char(' ') => {
                if picker.kind == PickerKind::ClaudeImport || picker.kind
                    == PickerKind::FusionPanel || picker.kind == PickerKind::UltraLenses {
                    picker.toggle();
                }
                self.composer.picker = Some(picker);
                None
            },
            KeyCode::Esc => None,
            KeyCode::Enter => self.pick(picker),
            _ => {
                self.composer.picker = Some(picker);
                None
            },
        }
    }
}

} // verus!
