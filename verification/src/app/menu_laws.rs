//! What holds of the menus, of the suggestions under the line and of what is
//! pasted.

use crate::app::command_laws::{kept, told};
use crate::app::edit_laws::quiet;
use crate::app::editor::{lemma_synced, match_rank, of_rank, ranked};
use crate::app::keys::{KeyCode, KeyEvent};
use crate::app::modal_laws::reaches_menu;
use crate::app::picker::{ItemView, PickerKind, PickerView};
use crate::app::picking::checked;
use crate::app::state::{ActionView, AppView, ComposerView, EffectView, PendingView};
use crate::app::tasks::FactsView;
use crate::app::vim::VimView;
use crate::commands::{CommandView, ImportSelection, ProviderActionView, SuggestionView};
use crate::config::{ConfigView, FusionView, StepBudget};
use crate::order::lists_path;
use crate::text::{decimal, has_text, is_white, starts_with, trim, words};
use crate::text_laws::{law_blank_says_nothing, says_something};
use vstd::prelude::*;

verus! {

/// A row of the settings menu flips its own switch, and no other; the settings
/// are written, and the menu stays open on the row.
pub proof fn law_a_setting_flips_its_own_switch(s: AppView, key: KeyEvent, p: PickerView)
    requires
        reaches_menu(s, key, p),
        key.code == KeyCode::Enter,
        p.kind == PickerKind::Settings,
        p.selected < p.items.len(),
        p.items.len() == 13,
    ensures
        ({
            let (t, action) = s.key(key);
            let c = s.config;
            let at = p.selected as int;
            let closed = AppView {
                composer: ComposerView { picker: None, ..s.composer },
                ..quiet(s)
            };
            let flips = |d: ConfigView|
                {
                    &&& action is None
                    &&& t == (AppView { composer: t.composer, ..kept(quiet(s), d, None, false) })
                    &&& t.composer == (ComposerView {
                        picker: t.composer.picker,
                        vim: t.composer.vim,
                        ..s.composer
                    })
                    &&& t.composer.picker is Some
                    &&& t.composer.picker->0.kind == PickerKind::Settings
                    &&& t.composer.picker->0.selected == p.selected
                };
            let runs = |x: CommandView| (t, action) == (closed, Some(ActionView::Command(x)));
            &&& at == 0 ==> runs(CommandView::Model(None))
            &&& at == 1 ==> runs(CommandView::Mode(None))
            &&& at == 2 ==> flips(ConfigView { plan_first: !c.plan_first, ..c })
            &&& at == 3 ==> flips(ConfigView { continuous: !c.continuous, ..c })
            &&& at == 4 ==> flips(ConfigView { plan_each_cycle: !c.plan_each_cycle, ..c })
            &&& at == 5 ==> flips(
                ConfigView { rollback_failed_cycles: !c.rollback_failed_cycles, ..c },
            )
            &&& at == 6 ==> flips(ConfigView { vim: !c.vim, ..c }) && t.composer.vim
                == VimView::fresh(!c.vim)
            &&& at == 8 ==> flips(ConfigView { web_allow_local: !c.web_allow_local, ..c })
            &&& at == 9 ==> flips(ConfigView { fleet_synthesize: !c.fleet_synthesize, ..c })
            &&& at == 11 ==> runs(CommandView::Provider(ProviderActionView::List))
            &&& at == 12 ==> (t, action) == (
                AppView { pending: PendingView { edit_config: true, ..closed.pending }, ..closed },
                None::<ActionView>,
            )
            &&& 2 <= at <= 5 || 8 <= at <= 9 ==> t.composer.vim == s.composer.vim
        }),
{
    reveal(AppView::key);
    reveal(AppView::screen_key);
    reveal(AppView::composer_key);
    reveal(AppView::picker_key);
    reveal(AppView::picked);
    reveal(AppView::settings);
}

/// The values of the rows that are checked, in order.
pub open spec fn ticked_off(items: Seq<ItemView>) -> Seq<Seq<char>> {
    items.filter(|i: ItemView| i.current).map_values(|i: ItemView| i.value)
}

proof fn lemma_checked(items: Seq<ItemView>)
    ensures
        checked(items) == ticked_off(items),
    decreases items.len(),
{
    reveal(Seq::filter);
    if items.len() == 0 {
        assert(ticked_off(items) =~= Seq::empty());
    } else {
        lemma_checked(items.drop_last());
        assert(ticked_off(items) =~= checked(items));
    }
}

/// The fusion panel is what is checked, in order, with the first of it to bring
/// the answers together; with nothing checked it stays as it was.
pub proof fn law_the_panel_is_what_is_checked(s: AppView, key: KeyEvent, p: PickerView)
    requires
        reaches_menu(s, key, p),
        key.code == KeyCode::Enter,
        p.kind == PickerKind::FusionPanel,
        p.selected < p.items.len(),
    ensures
        ({
            let (t, action) = s.key(key);
            let panel = ticked_off(p.items);
            &&& action is None
            &&& panel.len() == 0 ==> t.config == s.config && t.effects == s.effects
            &&& panel.len() > 0 ==> {
                &&& t.config == (ConfigView {
                    fusion: Some(
                        FusionView {
                            panel,
                            synthesizer: panel[0],
                            rounds: match s.config.fusion {
                                Some(f) => f.rounds,
                                None => 1,
                            },
                        },
                    ),
                    ..s.config
                })
                &&& t.effects.len() == s.effects.len() + 1
                &&& t.effects.drop_last() == s.effects
                &&& t.effects.last() is SaveConfig
            }
            &&& t.composer.picker is None
        }),
{
    reveal(AppView::key);
    reveal(AppView::screen_key);
    reveal(AppView::composer_key);
    reveal(AppView::picker_key);
    reveal(AppView::picked);
    lemma_checked(p.items);
    let t = s.key(key).0;
    if ticked_off(p.items).len() > 0 {
        assert(t.effects.drop_last() =~= s.effects);
    }
}

/// The roster is what is checked above the last row, and judged if that row is
/// checked; an import brings over exactly what is checked.
pub proof fn law_roster_and_import_are_what_is_checked(s: AppView, key: KeyEvent, p: PickerView)
    requires
        reaches_menu(s, key, p),
        key.code == KeyCode::Enter,
        p.selected < p.items.len(),
    ensures
        ({
            let (t, action) = s.key(key);
            let lenses = ticked_off(p.items.drop_last());
            &&& p.kind == PickerKind::UltraLenses && lenses.len() == 0 ==> action is None
            &&& p.kind == PickerKind::UltraLenses && lenses.len() > 0 ==> {
                &&& action is Some
                &&& action->0 is Command
                &&& action->0->Command_0 is Ultra
                &&& action->0->Command_0->Ultra_0 is Apply
                &&& action->0->Command_0->Ultra_0->Apply_0.lenses == lenses
                &&& action->0->Command_0->Ultra_0->Apply_0.judges > 0 <==> p.items.last().current
            }
            &&& p.kind == PickerKind::ClaudeImport && p.items.len() == 3 ==> if ticked_off(
                p.items,
            ).len() == 0 {
                action is None
            } else {
                action == Some(
                    ActionView::Command(
                        CommandView::ImportClaude(
                            ImportSelection {
                                mcp: p.items[0].current,
                                commands: p.items[1].current,
                                verbs: p.items[2].current,
                            },
                        ),
                    ),
                )
            }
        }),
{
    reveal(AppView::key);
    reveal(AppView::screen_key);
    reveal(AppView::composer_key);
    reveal(AppView::picker_key);
    reveal(AppView::picked);
    lemma_checked(p.items.drop_last());
    lemma_checked(p.items);
    if p.items.len() == 3 {
        reveal_with_fuel(checked, 4);
        let a = p.items.drop_last();
        let b = a.drop_last();
        assert(a.last() == p.items[1]);
        assert(b.last() == p.items[0]);
        assert(b.drop_last().len() == 0);
    }
}

/// The provider menu has a row for each provider, in order, by its name, with the
/// one in use marked, and a row that adds one.
pub proof fn law_the_provider_menu_lists_every_provider(
    s: AppView,
    facts: Option<FactsView>,
    genie: StepBudget,
    i: int,
)
    ensures
        ({
            let (t, task) = s.command(
                CommandView::Provider(ProviderActionView::Menu),
                facts,
                genie,
            );
            let m = t.composer.picker;
            let p = s.config.providers;
            &&& task is None
            &&& m is Some
            &&& m->0.kind == PickerKind::Provider
            &&& m->0.items.len() == p.len() + 1
            &&& 0 <= i < p.len() ==> m->0.items[i].value == p[i].name && m->0.items[i].current == (
            p[i].name == s.config.active().name)
            &&& t == (AppView { composer: ComposerView { picker: m, ..s.composer }, ..s })
        }),
{
    reveal(AppView::command);
    reveal(AppView::report_command);
    reveal(AppView::agent_command);
    reveal(AppView::provider_command);
    reveal(AppView::provider_run);
}

proof fn lemma_of_rank(rows: Seq<SuggestionView>, typed: Seq<char>, rank: int)
    ensures
        of_rank(rows, typed, rank) == rows.filter(
            |r: SuggestionView| match_rank(r.name, typed) == rank,
        ),
    decreases rows.len(),
{
    reveal(Seq::filter);
    if rows.len() > 0 {
        lemma_of_rank(rows.drop_last(), typed, rank);
    }
}

/// Commands are suggested by what is typed: first the one called just that, then
/// those that begin with it, then those that have it inside, each in the order of
/// the list, and no others.
pub proof fn law_suggestions_come_closest_first(rows: Seq<SuggestionView>, typed: Seq<char>)
    ensures
        ranked(rows, typed) == rows.filter(|r: SuggestionView| r.name == typed) + rows.filter(
            |r: SuggestionView| r.name != typed && starts_with(r.name, typed),
        ) + rows.filter(
            |r: SuggestionView|
                r.name != typed && !starts_with(r.name, typed) && has_text(r.name, typed),
        ),
{
    lemma_of_rank(rows, typed, 0);
    lemma_of_rank(rows, typed, 1);
    lemma_of_rank(rows, typed, 2);
    lemma_same_filter(
        rows,
        |r: SuggestionView| match_rank(r.name, typed) == 0,
        |r: SuggestionView| r.name == typed,
    );
    lemma_same_filter(
        rows,
        |r: SuggestionView| match_rank(r.name, typed) == 1,
        |r: SuggestionView| r.name != typed && starts_with(r.name, typed),
    );
    lemma_same_filter(
        rows,
        |r: SuggestionView| match_rank(r.name, typed) == 2,
        |r: SuggestionView|
            r.name != typed && !starts_with(r.name, typed) && has_text(r.name, typed),
    );
}

proof fn lemma_same_filter(
    rows: Seq<SuggestionView>,
    a: spec_fn(SuggestionView) -> bool,
    b: spec_fn(SuggestionView) -> bool,
)
    requires
        forall|r: SuggestionView| #[trigger] a(r) == b(r),
    ensures
        rows.filter(a) == rows.filter(b),
    decreases rows.len(),
{
    reveal(Seq::filter);
    if rows.len() > 0 {
        lemma_same_filter(rows.drop_last(), a, b);
        assert(a(rows.last()) == b(rows.last()));
    }
}

/// The highlighted suggestion takes the place of the line, with a blank behind it
/// if arguments follow.
pub proof fn law_an_accepted_suggestion_is_on_the_line(c: ComposerView)
    requires
        c.suggestion_index < c.suggestions.len(),
        c.suggestions[c.suggestion_index as int].name.len() + 2 <= usize::MAX,
    ensures
        ({
            let row = c.suggestions[c.suggestion_index as int];
            let d = c.accepted();
            let line = seq!['/'] + row.name + if row.takes_args {
                seq![' ']
            } else {
                Seq::empty()
            };
            &&& d.input == line
            &&& d.cursor == line.len()
            &&& d.history == c.history
            &&& d.pending_images == c.pending_images
            &&& d.vim == c.vim
        }),
{
    reveal_strlit("/");
    reveal_strlit(" ");
    let row = c.suggestions[c.suggestion_index as int];
    let text = if row.takes_args {
        "/"@ + row.name + " "@
    } else {
        "/"@ + row.name
    };
    let line = seq!['/'] + row.name + if row.takes_args {
        seq![' ']
    } else {
        Seq::empty()
    };
    assert(text =~= line);
    lemma_synced(ComposerView { input: text, cursor: text.len() as usize, ..c });
}

/// An image that is staged is the last one, and its mark stands at the cursor,
/// with a blank before it behind a word; one that is staged already is not staged
/// again.
pub proof fn law_a_staged_image_is_marked_in_the_line(s: AppView, path: Seq<char>, label: Seq<char>)
    requires
        s.composer.wf(),
        s.composer.input.len() + crate::app::typing_laws::mark(
            (s.composer.pending_images.len() + 1) as int,
        ).len() + 1 <= usize::MAX,
    ensures
        ({
            let c = s.composer;
            let at = c.cursor as int;
            let n = c.pending_images.len() + 1;
            let gap = if c.input.len() > 0 && !is_white(c.input.last()) {
                seq![' ']
            } else {
                Seq::empty()
            };
            let put = gap + crate::app::typing_laws::mark(n as int);
            let t = s.staged(path, label);
            &&& lists_path(c.pending_images, path) ==> t == told(
                s,
                label + " is already attached"@,
            )
            &&& !lists_path(c.pending_images, path) ==> t == (AppView {
                composer: ComposerView {
                    pending_images: c.pending_images.push(path),
                    input: c.input.take(at) + put + c.input.skip(at),
                    cursor: (at + put.len()) as usize,
                    ..c
                },
                ..told(s, "attached "@ + label + " as Image #"@ + decimal(n))
            })
        }),
{
    let c = s.composer;
    let at = c.cursor as int;
    let n = c.pending_images.len() + 1;
    let m = crate::app::typing_laws::mark(n as int);
    assert(m == crate::app::editor::image_token(n));
    let t = s.staged(path, label);
    if !lists_path(c.pending_images, path) {
        if c.input.len() > 0 && !is_white(c.input.last()) {
            let gap = seq![' '];
            let one = c.input.take(at) + gap + c.input.skip(at);
            assert(one.take(at + 1) =~= c.input.take(at) + gap);
            assert(one.skip(at + 1) =~= c.input.skip(at));
            assert(t.composer.input =~= c.input.take(at) + (gap + m) + c.input.skip(at));
        } else {
            assert(Seq::<char>::empty() + m =~= m);
        }
    }
}

/// Pasted text that is no image, nor the path of one, and says something, goes in
/// at the cursor as it is; white space alone asks for the clipboard.
pub proof fn law_pasted_text_goes_in_as_it_is(s: AppView, text: Seq<char>)
    requires
        s.composer.wf(),
        crate::app::paste::data_image(trim(text)) is None,
        !(words(text).len() > 0 && crate::app::paste::all_image_paths(words(text))),
        s.composer.input.len() + text.len() <= usize::MAX,
    ensures
        ({
            let c = s.composer;
            let at = c.cursor as int;
            let t = s.pasted_text(text);
            &&& says_something(text) ==> {
                &&& t.composer.input == c.input.take(at) + text + c.input.skip(at)
                &&& t.composer.cursor == at + text.len()
                &&& t.composer.pending_images == c.pending_images
                &&& t.composer.history == c.history
                &&& t.composer.vim == c.vim
                &&& t == (AppView { composer: t.composer, ..s })
            }
            &&& !says_something(text) ==> t == (AppView {
                effects: s.effects.push(EffectView::ReadClipboard { explicit: false }),
                ..s
            })
        }),
{
    law_blank_says_nothing(text);
    lemma_synced(s.composer.inserted(text));
}

} // verus!
