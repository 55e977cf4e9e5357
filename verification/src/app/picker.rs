//! The selection popup, the mouse selection and the status line.

use crate::config::{Mode, StepBudget};
use vstd::prelude::*;

verus! {

/// What a picker chooses.
#[derive(Debug, Clone, Copy, PartialEq, Eq, Structural)]
pub enum PickerKind {
    Model,
    Mode,
    Effort,
    Rewind,
    Resume,
    Subagent,
    Settings,
    ClaudeImport,
    FusionPanel,
    UltraLenses,
    Provider,
    ProviderType,
    WebBackend,
}

/// One row of a picker.
#[derive(Debug, PartialEq, Eq)]
pub struct PickerItem {
    pub value: String,
    pub detail: String,
    /// The row in effect, or a checked row of a multi-select.
    pub current: bool,
}

pub struct ItemView {
    pub value: Seq<char>,
    pub detail: Seq<char>,
    pub current: bool,
}

impl View for PickerItem {
    type V = ItemView;

    open spec fn view(&self) -> ItemView {
        ItemView { value: self.value@, detail: self.detail@, current: self.current }
    }
}

/// What a list of rows says.
pub open spec fn items_view(s: Seq<PickerItem>) -> Seq<ItemView> {
    s.map_values(|x: PickerItem| x@)
}

/// A row, in effect or not.
pub open spec fn item(value: Seq<char>, detail: Seq<char>, current: bool) -> ItemView {
    ItemView { value, detail, current }
}

/// Appends a row.
pub fn add_item(items: &mut Vec<PickerItem>, value: String, detail: String, current: bool)
    ensures
        items_view(final(items)@) == items_view(old(items)@).push(item(value@, detail@, current)),
{
    items.push(PickerItem { value, detail, current });
    assert(items_view(items@) =~= items_view(old(items)@).push(item(value@, detail@, current)));
}

/// An open selection popup.
pub struct Picker {
    pub kind: PickerKind,
    pub title: String,
    pub items: Vec<PickerItem>,
    pub selected: usize,
}

pub struct PickerView {
    pub kind: PickerKind,
    pub title: Seq<char>,
    pub items: Seq<ItemView>,
    pub selected: usize,
}

impl View for Picker {
    type V = PickerView;

    open spec fn view(&self) -> PickerView {
        PickerView {
            kind: self.kind,
            title: self.title@,
            items: items_view(self.items@),
            selected: self.selected,
        }
    }
}

/// What an optional picker holds.
pub open spec fn picker_opt(p: Option<Picker>) -> Option<PickerView> {
    match p {
        Some(x) => Some(x@),
        None => None,
    }
}

/// The number of rows before the first one in effect.
pub open spec fn current_pos(items: Seq<ItemView>) -> int
    decreases items.len(),
{
    if items.len() == 0 || items[0].current {
        0
    } else {
        1 + current_pos(items.drop_first())
    }
}

/// The position of the first row in effect, or the first row.
pub open spec fn first_current(items: Seq<ItemView>) -> int {
    if current_pos(items) < items.len() {
        current_pos(items)
    } else {
        0
    }
}

/// The position of the first row in effect, or the first row.
pub fn find_current(items: &Vec<PickerItem>) -> (r: usize)
    ensures
        r == first_current(items_view(items@)),
{
    let ghost all = items_view(items@);
    let mut i: usize = 0;
    assert(all.skip(0) =~= all);
    while i < items.len()
        invariant
            i <= items.len(),
            all == items_view(items@),
            current_pos(all) == i + current_pos(all.skip(i as int)),
        decreases items.len() - i,
    {
        assert(all.skip(i as int)[0] == items@[i as int]@);
        if items[i].current {
            return i;
        }
        assert(all.skip(i as int).drop_first() =~= all.skip(i + 1));
        i += 1;
    }
    0
}

impl PickerView {
    /// The row above, from the first row around to the last.
    pub open spec fn up(self) -> PickerView {
        PickerView {
            selected: if self.selected == 0 {
                if self.items.len() == 0 {
                    0
                } else {
                    (self.items.len() - 1) as usize
                }
            } else {
                (self.selected - 1) as usize
            },
            ..self
        }
    }

    /// The row below, from the last row around to the first.
    pub open spec fn down(self) -> PickerView {
        PickerView {
            selected: if self.selected + 1 >= self.items.len() {
                0
            } else {
                (self.selected + 1) as usize
            },
            ..self
        }
    }

    /// The selected row checked, or unchecked.
    pub open spec fn toggled(self) -> PickerView {
        if self.selected < self.items.len() {
            let old = self.items[self.selected as int];
            PickerView {
                items: self.items.update(
                    self.selected as int,
                    ItemView { current: !old.current, ..old },
                ),
                ..self
            }
        } else {
            self
        }
    }

    /// Whether rows are check boxes.
    pub open spec fn multi(self) -> bool {
        self.kind == PickerKind::ClaudeImport || self.kind == PickerKind::FusionPanel || self.kind
            == PickerKind::UltraLenses
    }
}

impl Picker {
    /// Selects the row above, wrapping around.
    pub fn up(&mut self)
        ensures
            final(self)@ == old(self)@.up(),
    {
        assert(self@.items.len() == self.items@.len());
        self.selected = if self.selected == 0 {
            self.items.len().saturating_sub(1)
        } else {
            self.selected - 1
        };
    }

    /// Selects the row below, wrapping around.
    pub fn down(&mut self)
        ensures
            final(self)@ == old(self)@.down(),
    {
        assert(self@.items.len() == self.items@.len());
        self.selected = if self.items.len() == 0 || self.selected >= self.items.len() - 1 {
            0
        } else {
            self.selected + 1
        };
    }

    /// Checks or unchecks the selected row.
    pub fn toggle(&mut self)
        ensures
            final(self)@ == old(self)@.toggled(),
    {
        let i = self.selected;
        assert(self@.items.len() == self.items@.len());
        if i < self.items.len() {
            let on = self.items[i].current;
            self.items[i].current = !on;
            assert(self@.items =~= old(self)@.toggled().items);
        }
    }
}

/// A mouse text selection, from its anchor cell to its head cell.
#[derive(Debug, Clone, Copy, PartialEq, Eq)]
pub struct Selection {
    pub anchor: (u16, u16),
    pub head: (u16, u16),
    pub dragging: bool,
}

impl Selection {
    /// Nothing is selected: the mouse did not move.
    pub fn is_empty(&self) -> (r: bool)
        ensures
            r == (self.anchor == self.head),
    {
        self.anchor.0 == self.head.0 && self.anchor.1 == self.head.1
    }
}

/// What the status bar shows.
pub struct StatusLine {
    pub model: String,
    pub mode: Mode,
    pub step: u32,
    pub max_steps: StepBudget,
    pub busy: bool,
    pub prompt_tokens: u64,
    pub completion_tokens: u64,
    pub context_tokens: u64,
    pub background_tasks: usize,
    pub background_subagents: usize,
}

pub struct StatusView {
    pub model: Seq<char>,
    pub mode: Mode,
    pub step: u32,
    pub max_steps: StepBudget,
    pub busy: bool,
    pub prompt_tokens: u64,
    pub completion_tokens: u64,
    pub context_tokens: u64,
    pub background_tasks: usize,
    pub background_subagents: usize,
}

impl View for StatusLine {
    type V = StatusView;

    open spec fn view(&self) -> StatusView {
        StatusView {
            model: self.model@,
            mode: self.mode,
            step: self.step,
            max_steps: self.max_steps,
            busy: self.busy,
            prompt_tokens: self.prompt_tokens,
            completion_tokens: self.completion_tokens,
            context_tokens: self.context_tokens,
            background_tasks: self.background_tasks,
            background_subagents: self.background_subagents,
        }
    }
}

} // verus!
