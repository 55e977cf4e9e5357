//! The built-in slash commands: their table, their parser, and which of them
//! the agent may run on its own.

use crate::config::{Mode, ProviderKind, ReasoningEffort, UltraConfig, UltraView};
use crate::json::text_opt;
use crate::text::{
    chars_of, contains_text, has_text, is_whitespace, lower, lowered, parse_u64, parsed_u64, same,
    slice_text, split_words, texts, trim, trimmed, word_len, words,
};
use vstd::prelude::*;

verus! {

/// What `/provider` does.
#[derive(Debug, PartialEq, Eq)]
pub enum ProviderAction {
    Menu,
    List,
    Use(String),
    Add {
        name: String,
        kind: ProviderKind,
        base_url: String,
        model: String,
        api_key_env: Option<String>,
    },
    Remove(String),
}

/// What `/fusion` does.
#[derive(Debug, Clone, Copy, PartialEq, Eq, Structural)]
pub enum FusionAction {
    Toggle,
    Config,
}

/// What `/ultra` does.
#[derive(Debug, PartialEq, Eq)]
pub enum UltraAction {
    Toggle,
    Config,
    Apply(UltraConfig),
}

/// What `/server` does.
#[derive(Debug, Clone, Copy, PartialEq, Eq, Structural)]
pub enum ServerAction {
    Status,
    Start,
    Stop,
}

/// What `/memory` does.
#[derive(Debug, PartialEq, Eq)]
pub enum MemoryAction {
    List,
    Read(String),
    Forget(String),
}

/// What to import from another agent.
#[derive(Debug, Clone, Copy, PartialEq, Eq, Structural)]
pub struct ImportSelection {
    pub mcp: bool,
    pub commands: bool,
    pub verbs: bool,
}

/// A parsed slash command.
#[derive(Debug, PartialEq, Eq)]
pub enum SlashCommand {
    Help,
    Clear,
    Model(Option<String>),
    Mode(Option<Mode>),
    /// `None` opens the picker; `Some(None)` is the provider default.
    Effort(Option<Option<ReasoningEffort>>),
    Plan,
    Omakase,
    Rewind(Option<u64>),
    Resume(Option<String>),
    Compact,
    Btw(String),
    Agents,
    Subagents,
    Evolve { deep: bool, description: String },
    Publish { branch: Option<String> },
    Provider(ProviderAction),
    ProviderSetup {
        name: String,
        kind: ProviderKind,
        base_url: String,
        model: String,
        api_key: Option<String>,
    },
    Fusion(FusionAction),
    Ultra(UltraAction),
    Server(ServerAction),
    Login(String),
    Reload,
    Diff,
    Todos,
    Dashboard,
    Cost,
    Memory(MemoryAction),
    Status,
    Bashes,
    Goal(Option<String>),
    Settings,
    Vim,
    Doctor,
    ImportClaude(ImportSelection),
    Quit,
}

/// What a [`ProviderAction`] says.
pub enum ProviderActionView {
    Menu,
    List,
    Use(Seq<char>),
    Add {
        name: Seq<char>,
        kind: ProviderKind,
        base_url: Seq<char>,
        model: Seq<char>,
        api_key_env: Option<Seq<char>>,
    },
    Remove(Seq<char>),
}

/// What an [`UltraAction`] says.
pub enum UltraActionView {
    Toggle,
    Config,
    Apply(UltraView),
}

/// What a [`MemoryAction`] says.
pub enum MemoryActionView {
    List,
    Read(Seq<char>),
    Forget(Seq<char>),
}

/// What a [`SlashCommand`] says.
pub enum CommandView {
    Help,
    Clear,
    Model(Option<Seq<char>>),
    Mode(Option<Mode>),
    Effort(Option<Option<ReasoningEffort>>),
    Plan,
    Omakase,
    Rewind(Option<u64>),
    Resume(Option<Seq<char>>),
    Compact,
    Btw(Seq<char>),
    Agents,
    Subagents,
    Evolve { deep: bool, description: Seq<char> },
    Publish { branch: Option<Seq<char>> },
    Provider(ProviderActionView),
    ProviderSetup {
        name: Seq<char>,
        kind: ProviderKind,
        base_url: Seq<char>,
        model: Seq<char>,
        api_key: Option<Seq<char>>,
    },
    Fusion(FusionAction),
    Ultra(UltraActionView),
    Server(ServerAction),
    Login(Seq<char>),
    Reload,
    Diff,
    Todos,
    Dashboard,
    Cost,
    Memory(MemoryActionView),
    Status,
    Bashes,
    Goal(Option<Seq<char>>),
    Settings,
    Vim,
    Doctor,
    ImportClaude(ImportSelection),
    Quit,
}

impl View for ProviderAction {
    type V = ProviderActionView;

    open spec fn view(&self) -> ProviderActionView {
        match self {
            ProviderAction::Menu => ProviderActionView::Menu,
            ProviderAction::List => ProviderActionView::List,
            ProviderAction::Use(n) => ProviderActionView::Use(n@),
            ProviderAction::Add { name, kind, base_url, model, api_key_env } =>
                ProviderActionView::Add {
                name: name@,
                kind: *kind,
                base_url: base_url@,
                model: model@,
                api_key_env: text_opt(*api_key_env),
            },
            ProviderAction::Remove(n) => ProviderActionView::Remove(n@),
        }
    }
}

impl View for UltraAction {
    type V = UltraActionView;

    open spec fn view(&self) -> UltraActionView {
        match self {
            UltraAction::Toggle => UltraActionView::Toggle,
            UltraAction::Config => UltraActionView::Config,
            UltraAction::Apply(u) => UltraActionView::Apply(u@),
        }
    }
}

impl View for MemoryAction {
    type V = MemoryActionView;

    open spec fn view(&self) -> MemoryActionView {
        match self {
            MemoryAction::List => MemoryActionView::List,
            MemoryAction::Read(n) => MemoryActionView::Read(n@),
            MemoryAction::Forget(n) => MemoryActionView::Forget(n@),
        }
    }
}

impl View for SlashCommand {
    type V = CommandView;

    open spec fn view(&self) -> CommandView {
        match self {
            SlashCommand::Help => CommandView::Help,
            SlashCommand::Clear => CommandView::Clear,
            SlashCommand::Model(t) => CommandView::Model(text_opt(*t)),
            SlashCommand::Mode(m) => CommandView::Mode(*m),
            SlashCommand::Effort(e) => CommandView::Effort(*e),
            SlashCommand::Plan => CommandView::Plan,
            SlashCommand::Omakase => CommandView::Omakase,
            SlashCommand::Rewind(n) => CommandView::Rewind(*n),
            SlashCommand::Resume(t) => CommandView::Resume(text_opt(*t)),
            SlashCommand::Compact => CommandView::Compact,
            SlashCommand::Btw(t) => CommandView::Btw(t@),
            SlashCommand::Agents => CommandView::Agents,
            SlashCommand::Subagents => CommandView::Subagents,
            SlashCommand::Evolve { deep, description } => CommandView::Evolve {
                deep: *deep,
                description: description@,
            },
            SlashCommand::Publish { branch } => CommandView::Publish { branch: text_opt(*branch) },
            SlashCommand::Provider(a) => CommandView::Provider(a@),
            SlashCommand::ProviderSetup { name, kind, base_url, model, api_key } =>
                CommandView::ProviderSetup {
                name: name@,
                kind: *kind,
                base_url: base_url@,
                model: model@,
                api_key: text_opt(*api_key),
            },
            SlashCommand::Fusion(a) => CommandView::Fusion(*a),
            SlashCommand::Ultra(a) => CommandView::Ultra(a@),
            SlashCommand::Server(a) => CommandView::Server(*a),
            SlashCommand::Login(p) => CommandView::Login(p@),
            SlashCommand::Reload => CommandView::Reload,
            SlashCommand::Diff => CommandView::Diff,
            SlashCommand::Todos => CommandView::Todos,
            SlashCommand::Dashboard => CommandView::Dashboard,
            SlashCommand::Cost => CommandView::Cost,
            SlashCommand::Memory(a) => CommandView::Memory(a@),
            SlashCommand::Status => CommandView::Status,
            SlashCommand::Bashes => CommandView::Bashes,
            SlashCommand::Goal(t) => CommandView::Goal(text_opt(*t)),
            SlashCommand::Settings => CommandView::Settings,
            SlashCommand::Vim => CommandView::Vim,
            SlashCommand::Doctor => CommandView::Doctor,
            SlashCommand::ImportClaude(s) => CommandView::ImportClaude(*s),
            SlashCommand::Quit => CommandView::Quit,
        }
    }
}

/// One row of the suggestion popup.
#[derive(Debug, PartialEq, Eq)]
pub struct Suggestion {
    pub name: String,
    pub description: String,
    pub takes_args: bool,
}

/// What a [`Suggestion`] says.
pub struct SuggestionView {
    pub name: Seq<char>,
    pub description: Seq<char>,
    pub takes_args: bool,
}

impl View for Suggestion {
    type V = SuggestionView;

    open spec fn view(&self) -> SuggestionView {
        SuggestionView {
            name: self.name@,
            description: self.description@,
            takes_args: self.takes_args,
        }
    }
}

impl Suggestion {
    /// A copy of the row.
    pub fn copy(&self) -> (r: Suggestion)
        ensures
            r@ == self@,
    {
        Suggestion {
            name: self.name.clone(),
            description: self.description.clone(),
            takes_args: self.takes_args,
        }
    }
}

/// What a list of suggestions says.
pub open spec fn suggestions_view(s: Seq<Suggestion>) -> Seq<SuggestionView> {
    s.map_values(|x: Suggestion| x@)
}

/// A row of the table.
pub open spec fn row(name: Seq<char>, description: Seq<char>, takes_args: bool) -> SuggestionView {
    SuggestionView { name, description, takes_args }
}

/// The built-in commands, in display order.
#[verifier::opaque]
pub open spec fn command_table() -> Seq<SuggestionView> {
    seq![
        row("help"@, "show this help"@, false),
        row("clear"@, "clear the conversation"@, false),
        row("model"@, "pick a model interactively, or switch directly"@, true),
        row("mode"@, "pick or switch personality mode"@, true),
        row("genie"@, "switch to genie mode"@, false),
        row("sovereign"@, "switch to sovereign mode"@, false),
        row("effort"@, "set reasoning effort"@, true),
        row("plan"@, "toggle plan mode (read-only until a plan is approved)"@, false),
        row("omakase"@, "toggle omakase: chef's-choice plan mode, the agent decides"@, false),
        row("rewind"@, "rewind files and conversation to before a turn"@, true),
        row("resume"@, "reopen and continue a past session"@, true),
        row("compact"@, "summarize older history into a progress note now"@, false),
        row("btw"@, "ask a side question without adding it to the conversation"@, true),
        row("agents"@, "browse subagents and delegate to one"@, false),
        row("evolve"@, "self-extension (skill / MCP / scripted tool)"@, true),
        row("publish"@, "fork Wizard to your GitHub, get a one-line installer"@, true),
        row("provider"@, "add or switch LLM providers (interactive picker)"@, true),
        row("fusion"@, "toggle model fusion (panel debate → synthesis), or configure the panel"@, true),
        row("ultra"@, "toggle mixture of agents (candidates draft → judge rules → agent acts)"@, true),
        row("server"@, "manage the local llama-server"@, true),
        row("login"@, "sign in with your xAI account (OAuth, no API key)"@, true),
        row("reload"@, "reload skills, scripted tools, and MCP servers"@, false),
        row("diff"@, "toggle the git diff sidebar"@, false),
        row("todos"@, "toggle the todo list above the input"@, false),
        row("dashboard"@, "session manager: all live wizard sessions on this machine"@, false),
        row("cost"@, "show session token usage and cost"@, false),
        row("memory"@, "list, show, or forget saved project memories"@, true),
        row("status"@, "show session status (model, usage, todos, tasks)"@, false),
        row("bashes"@, "list background tasks (id, status, command)"@, false),
        row("goal"@, "show the standing goal, or set one and start working on it"@, true),
        row("settings"@, "open the settings menu (change config anytime)"@, false),
        row("vim"@, "toggle vim-style modal editing of the input line"@, false),
        row("doctor"@, "diagnose config, providers, MCP, hooks, state dirs"@, false),
        row("quit"@, "exit"@, false),
    ]
}

fn add_row(t: &mut Vec<Suggestion>, name: &str, description: &str, takes_args: bool)
    ensures
        suggestions_view(final(t)@) == suggestions_view(old(t)@).push(
            row(name@, description@, takes_args),
        ),
{
    t.push(
        Suggestion {
            name: name.to_string(),
            description: description.to_string(),
            takes_args,
        },
    );
    assert(suggestions_view(t@) =~= suggestions_view(old(t)@).push(
        row(name@, description@, takes_args),
    ));
}

/// The built-in commands, in display order.
pub fn commands() -> (r: Vec<Suggestion>)
    ensures
        suggestions_view(r@) == command_table(),
{
    let mut t: Vec<Suggestion> = Vec::new();
    add_row(&mut t, "help", "show this help", false);
    add_row(&mut t, "clear", "clear the conversation", false);
    add_row(&mut t, "model", "pick a model interactively, or switch directly", true);
    add_row(&mut t, "mode", "pick or switch personality mode", true);
    add_row(&mut t, "genie", "switch to genie mode", false);
    add_row(&mut t, "sovereign", "switch to sovereign mode", false);
    add_row(&mut t, "effort", "set reasoning effort", true);
    add_row(&mut t, "plan", "toggle plan mode (read-only until a plan is approved)", false);
    add_row(&mut t, "omakase", "toggle omakase: chef's-choice plan mode, the agent decides", false);
    add_row(&mut t, "rewind", "rewind files and conversation to before a turn", true);
    add_row(&mut t, "resume", "reopen and continue a past session", true);
    add_row(&mut t, "compact", "summarize older history into a progress note now", false);
    add_row(&mut t, "btw", "ask a side question without adding it to the conversation", true);
    add_row(&mut t, "agents", "browse subagents and delegate to one", false);
    add_row(&mut t, "evolve", "self-extension (skill / MCP / scripted tool)", true);
    add_row(&mut t, "publish", "fork Wizard to your GitHub, get a one-line installer", true);
    add_row(&mut t, "provider", "add or switch LLM providers (interactive picker)", true);
    add_row(&mut t, "fusion", "toggle model fusion (panel debate → synthesis), or configure the panel", true);
    add_row(&mut t, "ultra", "toggle mixture of agents (candidates draft → judge rules → agent acts)", true);
    add_row(&mut t, "server", "manage the local llama-server", true);
    add_row(&mut t, "login", "sign in with your xAI account (OAuth, no API key)", true);
    add_row(&mut t, "reload", "reload skills, scripted tools, and MCP servers", false);
    add_row(&mut t, "diff", "toggle the git diff sidebar", false);
    add_row(&mut t, "todos", "toggle the todo list above the input", false);
    add_row(&mut t, "dashboard", "session manager: all live wizard sessions on this machine", false);
    add_row(&mut t, "cost", "show session token usage and cost", false);
    add_row(&mut t, "memory", "list, show, or forget saved project memories", true);
    add_row(&mut t, "status", "show session status (model, usage, todos, tasks)", false);
    add_row(&mut t, "bashes", "list background tasks (id, status, command)", false);
    add_row(&mut t, "goal", "show the standing goal, or set one and start working on it", true);
    add_row(&mut t, "settings", "open the settings menu (change config anytime)", false);
    add_row(&mut t, "vim", "toggle vim-style modal editing of the input line", false);
    add_row(&mut t, "doctor", "diagnose config, providers, MCP, hooks, state dirs", false);
    add_row(&mut t, "quit", "exit", false);
    proof {
        reveal(command_table);
    }
    assert(suggestions_view(t@) =~= command_table());
    t
}

/// Whether `word` names a built-in command.
pub open spec fn is_builtin(word: Seq<char>) -> bool {
    exists|i: int| 0 <= i < command_table().len() && #[trigger] command_table()[i].name == word
}

/// Whether `word` names a built-in command.
pub fn is_builtin_command(word: &str) -> (r: bool)
    ensures
        r == is_builtin(word@),
{
    let t = commands();
    let mut i: usize = 0;
    while i < t.len()
        invariant
            i <= t.len(),
            suggestions_view(t@) == command_table(),
            forall|j: int| 0 <= j < i ==> (#[trigger] command_table()[j]).name != word@,
        decreases t.len() - i,
    {
        assert(suggestions_view(t@)[i as int] == t@[i as int]@);
        if same(&t[i].name, word) {
            assert(command_table()[i as int].name == word@);
            return true;
        }
        i += 1;
    }
    assert(command_table().len() == t@.len());
    false
}

/// A command the user wrote: a prompt template behind a name.
pub struct CustomCommand {
    pub name: String,
    pub description: Option<String>,
    pub template: String,
    pub path: String,
}

/// The suggestion row of a custom command: it takes arguments when its
/// template refers to any.
pub open spec fn custom_row(c: CustomCommand) -> SuggestionView {
    row(
        c.name@,
        match c.description {
            Some(d) => d@,
            None => Seq::empty(),
        },
        has_text(c.template@, "$"@),
    )
}

/// The rows of all custom commands.
pub open spec fn custom_rows(c: Seq<CustomCommand>) -> Seq<SuggestionView> {
    c.map_values(|x: CustomCommand| custom_row(x))
}

impl CustomCommand {
    /// The suggestion row of the command.
    pub fn suggestion(&self) -> (r: Suggestion)
        ensures
            r@ == custom_row(*self),
    {
        Suggestion {
            name: self.name.clone(),
            description: match &self.description {
                Some(d) => d.clone(),
                None => String::new(),
            },
            takes_args: contains_text(&self.template, "$"),
        }
    }
}

/// A prompt as it goes to the agent: its expanded text and its images.
#[derive(Debug, PartialEq, Eq)]
pub struct Preprocessed {
    pub text: String,
    pub images: Vec<String>,
}

/// What a [`Preprocessed`] says.
pub struct PreparedView {
    pub text: Seq<char>,
    pub images: Seq<Seq<char>>,
}

impl View for Preprocessed {
    type V = PreparedView;

    open spec fn view(&self) -> PreparedView {
        PreparedView { text: self.text@, images: texts(self.images@) }
    }
}

impl PreparedView {
    /// The text as it stands, without images.
    pub open spec fn plain(text: Seq<char>) -> PreparedView {
        PreparedView { text, images: Seq::empty() }
    }
}

impl Preprocessed {
    /// The text as it stands, without images.
    pub fn text_only(text: String) -> (r: Preprocessed)
        ensures
            r@ == PreparedView::plain(text@),
    {
        let r = Preprocessed { text, images: Vec::new() };
        assert(r@.images =~= Seq::empty());
        r
    }

    /// A copy of the prompt.
    pub fn copy(&self) -> (r: Preprocessed)
        ensures
            r@ == self@,
    {
        Preprocessed {
            text: self.text.clone(),
            images: crate::config::copy_texts(&self.images),
        }
    }
}

/// The text, or nothing when it is empty.
pub open spec fn non_empty(s: Seq<char>) -> Option<Seq<char>> {
    if s.len() == 0 {
        None
    } else {
        Some(s)
    }
}

pub open spec fn effort_args(arg: Seq<char>) -> Result<CommandView, Seq<char>> {
    let a = lower(arg);
    if a.len() == 0 {
        Ok(CommandView::Effort(None))
    } else if a == "low"@ {
        Ok(CommandView::Effort(Some(Some(ReasoningEffort::Low))))
    } else if a == "medium"@ || a == "med"@ {
        Ok(CommandView::Effort(Some(Some(ReasoningEffort::Medium))))
    } else if a == "high"@ {
        Ok(CommandView::Effort(Some(Some(ReasoningEffort::High))))
    } else if a == "default"@ {
        Ok(CommandView::Effort(Some(None)))
    } else {
        Err("unknown effort '"@ + arg + "' — usage: /effort [low|medium|high|default]"@)
    }
}

pub open spec fn mode_args(arg: Seq<char>) -> Result<CommandView, Seq<char>> {
    if arg.len() == 0 {
        Ok(CommandView::Mode(None))
    } else if arg == "genie"@ {
        Ok(CommandView::Mode(Some(Mode::Genie)))
    } else if arg == "sovereign"@ {
        Ok(CommandView::Mode(Some(Mode::Sovereign)))
    } else {
        Err("unknown mode '"@ + arg + "' — usage: /mode [genie|sovereign]"@)
    }
}

pub open spec fn rewind_args(arg: Seq<char>) -> Result<CommandView, Seq<char>> {
    if arg.len() == 0 {
        Ok(CommandView::Rewind(None))
    } else {
        match parsed_u64(arg) {
            Some(turn) => Ok(CommandView::Rewind(Some(turn))),
            None => Err("usage: /rewind [turn]"@),
        }
    }
}

pub open spec fn evolve_args(rest: Seq<char>) -> Result<CommandView, Seq<char>> {
    let n = word_len(rest) as int;
    let deep = rest.take(n) == "--deep"@;
    let description = if deep {
        trim(rest.skip(n))
    } else {
        rest
    };
    if description.len() == 0 {
        Err("usage: /evolve [--deep] <description>"@)
    } else {
        Ok(CommandView::Evolve { deep, description })
    }
}

pub open spec fn provider_args(args: Seq<Seq<char>>) -> Result<CommandView, Seq<char>> {
    let usage =
        "usage: /provider [list | use <name> | add <name> <kind> <base_url> <model> [api_key_env] | remove <name>]"@;
    if args.len() == 0 {
        Ok(CommandView::Provider(ProviderActionView::Menu))
    } else if args[0] == "list"@ {
        Ok(CommandView::Provider(ProviderActionView::List))
    } else if args[0] == "use"@ && args.len() == 2 {
        Ok(CommandView::Provider(ProviderActionView::Use(args[1])))
    } else if args[0] == "remove"@ && args.len() == 2 {
        Ok(CommandView::Provider(ProviderActionView::Remove(args[1])))
    } else if args[0] == "add"@ && (args.len() == 5 || args.len() == 6) {
        match ProviderKind::named(args[2]) {
            Some(kind) => Ok(
                CommandView::Provider(
                    ProviderActionView::Add {
                        name: args[1],
                        kind,
                        base_url: args[3],
                        model: args[4],
                        api_key_env: if args.len() == 6 {
                            Some(args[5])
                        } else {
                            None
                        },
                    },
                ),
            ),
            None => Err(
                "unknown provider kind '"@ + args[2]
                    + "' — one of ollama|llamacpp|openai|anthropic|openrouter|cloudflare|xai|xaioauth"@,
            ),
        }
    } else {
        Err(usage)
    }
}

pub open spec fn memory_args(args: Seq<Seq<char>>) -> Result<CommandView, Seq<char>> {
    if args.len() == 0 || (args[0] == "list"@ && args.len() == 1) {
        Ok(CommandView::Memory(MemoryActionView::List))
    } else if args[0] == "read"@ && args.len() == 2 {
        Ok(CommandView::Memory(MemoryActionView::Read(args[1])))
    } else if args[0] == "forget"@ && args.len() == 2 {
        Ok(CommandView::Memory(MemoryActionView::Forget(args[1])))
    } else {
        Err("usage: /memory [list | read <name> | forget <name>]"@)
    }
}

pub open spec fn server_args(arg: Seq<char>) -> Result<CommandView, Seq<char>> {
    if arg.len() == 0 || arg == "status"@ {
        Ok(CommandView::Server(ServerAction::Status))
    } else if arg == "start"@ {
        Ok(CommandView::Server(ServerAction::Start))
    } else if arg == "stop"@ {
        Ok(CommandView::Server(ServerAction::Stop))
    } else {
        Err("usage: /server [status|start|stop]"@)
    }
}

/// The command `name` with the argument text `rest`.
#[verifier::opaque]
pub open spec fn named_command(name: Seq<char>, rest: Seq<char>) -> Result<CommandView, Seq<char>> {
    if name == "help"@ {
        Ok(CommandView::Help)
    } else if name == "clear"@ {
        Ok(CommandView::Clear)
    } else if name == "plan"@ {
        Ok(CommandView::Plan)
    } else if name == "omakase"@ {
        Ok(CommandView::Omakase)
    } else if name == "compact"@ {
        Ok(CommandView::Compact)
    } else if name == "agents"@ {
        Ok(CommandView::Agents)
    } else if name == "reload"@ {
        Ok(CommandView::Reload)
    } else if name == "diff"@ {
        Ok(CommandView::Diff)
    } else if name == "todos"@ {
        Ok(CommandView::Todos)
    } else if name == "dashboard"@ {
        Ok(CommandView::Dashboard)
    } else if name == "cost"@ {
        Ok(CommandView::Cost)
    } else if name == "status"@ {
        Ok(CommandView::Status)
    } else if name == "bashes"@ {
        Ok(CommandView::Bashes)
    } else if name == "settings"@ {
        Ok(CommandView::Settings)
    } else if name == "vim"@ {
        Ok(CommandView::Vim)
    } else if name == "doctor"@ {
        Ok(CommandView::Doctor)
    } else if name == "quit"@ {
        Ok(CommandView::Quit)
    } else if name == "genie"@ {
        Ok(CommandView::Mode(Some(Mode::Genie)))
    } else if name == "sovereign"@ {
        Ok(CommandView::Mode(Some(Mode::Sovereign)))
    } else if name == "model"@ {
        Ok(CommandView::Model(non_empty(rest)))
    } else if name == "resume"@ {
        Ok(CommandView::Resume(non_empty(rest)))
    } else if name == "goal"@ {
        Ok(CommandView::Goal(non_empty(rest)))
    } else if name == "publish"@ {
        Ok(CommandView::Publish { branch: non_empty(rest) })
    } else if name == "mode"@ {
        mode_args(rest)
    } else if name == "effort"@ {
        effort_args(rest)
    } else if name == "rewind"@ {
        rewind_args(rest)
    } else if name == "evolve"@ {
        evolve_args(rest)
    } else if name == "provider"@ {
        provider_args(words(rest))
    } else if name == "memory"@ {
        memory_args(words(rest))
    } else if name == "server"@ {
        server_args(rest)
    } else if name == "btw"@ {
        if rest.len() == 0 {
            Err("usage: /btw <question>"@)
        } else {
            Ok(CommandView::Btw(rest))
        }
    } else if name == "login"@ {
        if rest.len() == 0 {
            Err("usage: /login xai"@)
        } else {
            Ok(CommandView::Login(rest))
        }
    } else if name == "fusion"@ {
        if rest.len() == 0 {
            Ok(CommandView::Fusion(FusionAction::Toggle))
        } else if rest == "config"@ {
            Ok(CommandView::Fusion(FusionAction::Config))
        } else {
            Err("usage: /fusion [config]"@)
        }
    } else if name == "ultra"@ {
        if rest.len() == 0 {
            Ok(CommandView::Ultra(UltraActionView::Toggle))
        } else if rest == "config"@ {
            Ok(CommandView::Ultra(UltraActionView::Config))
        } else {
            Err("usage: /ultra [config]"@)
        }
    } else {
        Err("unknown command: /"@ + name)
    }
}

/// What a line says as a command: nothing unless it starts with a slash; the
/// word after the slash names the command and the rest are its arguments.
pub open spec fn parsed_command(input: Seq<char>) -> Option<Result<CommandView, Seq<char>>> {
    let t = trim(input);
    if t.len() == 0 || t[0] != '/' {
        None
    } else {
        let body = t.drop_first();
        let n = word_len(body) as int;
        Some(named_command(body.take(n), trim(body.skip(n))))
    }
}

/// The view of a parse result.
pub open spec fn parse_view(r: Result<SlashCommand, String>) -> Result<CommandView, Seq<char>> {
    match r {
        Ok(c) => Ok(c@),
        Err(m) => Err(m@),
    }
}

fn text_arg(rest: String) -> (r: Option<String>)
    ensures
        text_opt(r) == non_empty(rest@),
{
    if crate::text::is_empty_text(&rest) {
        None
    } else {
        Some(rest)
    }
}

fn parse_effort(arg: &str) -> (r: Result<SlashCommand, String>)
    ensures
        parse_view(r) == effort_args(arg@),
{
    let a = lowered(arg);
    if crate::text::is_empty_text(&a) {
        Ok(SlashCommand::Effort(None))
    } else if same(&a, "low") {
        Ok(SlashCommand::Effort(Some(Some(ReasoningEffort::Low))))
    } else if same(&a, "medium") || same(&a, "med") {
        Ok(SlashCommand::Effort(Some(Some(ReasoningEffort::Medium))))
    } else if same(&a, "high") {
        Ok(SlashCommand::Effort(Some(Some(ReasoningEffort::High))))
    } else if same(&a, "default") {
        Ok(SlashCommand::Effort(Some(None)))
    } else {
        let mut m = "unknown effort '".to_string();
        m.append(arg);
        m.append("' — usage: /effort [low|medium|high|default]");
        Err(m)
    }
}

fn parse_mode(arg: &str) -> (r: Result<SlashCommand, String>)
    ensures
        parse_view(r) == mode_args(arg@),
{
    if crate::text::is_empty_text(arg) {
        Ok(SlashCommand::Mode(None))
    } else if same(arg, "genie") {
        Ok(SlashCommand::Mode(Some(Mode::Genie)))
    } else if same(arg, "sovereign") {
        Ok(SlashCommand::Mode(Some(Mode::Sovereign)))
    } else {
        let mut m = "unknown mode '".to_string();
        m.append(arg);
        m.append("' — usage: /mode [genie|sovereign]");
        Err(m)
    }
}

fn parse_rewind(arg: &str) -> (r: Result<SlashCommand, String>)
    ensures
        parse_view(r) == rewind_args(arg@),
{
    if crate::text::is_empty_text(arg) {
        Ok(SlashCommand::Rewind(None))
    } else {
        match parse_u64(arg) {
            Some(turn) => Ok(SlashCommand::Rewind(Some(turn))),
            None => Err("usage: /rewind [turn]".to_string()),
        }
    }
}

/// The first word of `s` and the trimmed remainder.
fn first_word(s: &str) -> (r: (String, String))
    ensures
        r.0@ == s@.take(word_len(s@) as int),
        r.1@ == trim(s@.skip(word_len(s@) as int)),
{
    let cs = chars_of(s);
    let mut i: usize = 0;
    assert(cs@.skip(0) == cs@);
    while i < cs.len() && !is_whitespace(cs[i])
        invariant
            i <= cs.len(),
            cs@ == s@,
            word_len(s@) == i + word_len(cs@.skip(i as int)),
        decreases cs.len() - i,
    {
        assert(cs@.skip(i as int).drop_first() == cs@.skip(i + 1));
        i += 1;
    }
    let name = slice_text(&cs, 0, i);
    let tail = slice_text(&cs, i, cs.len());
    assert(name@ == s@.take(i as int));
    assert(tail@ == s@.skip(i as int));
    (name, trimmed(&tail))
}

fn parse_evolve(rest: String) -> (r: Result<SlashCommand, String>)
    ensures
        parse_view(r) == evolve_args(rest@),
{
    let (word, tail) = first_word(&rest);
    let deep = same(&word, "--deep");
    let description = if deep {
        tail
    } else {
        rest
    };
    if crate::text::is_empty_text(&description) {
        Err("usage: /evolve [--deep] <description>".to_string())
    } else {
        Ok(SlashCommand::Evolve { deep, description })
    }
}

fn parse_provider(args: Vec<String>) -> (r: Result<SlashCommand, String>)
    ensures
        parse_view(r) == provider_args(texts(args@)),
{
    let ghost a = texts(args@);
    assert(a.len() == args@.len());
    assert(forall|i: int| 0 <= i < a.len() ==> a[i] == (#[trigger] args@[i])@);
    if args.len() == 0 {
        return Ok(SlashCommand::Provider(ProviderAction::Menu));
    }
    assert(a[0] == args@[0]@);
    if same(&args[0], "list") {
        Ok(SlashCommand::Provider(ProviderAction::List))
    } else if same(&args[0], "use") && args.len() == 2 {
        Ok(SlashCommand::Provider(ProviderAction::Use(args[1].clone())))
    } else if same(&args[0], "remove") && args.len() == 2 {
        Ok(SlashCommand::Provider(ProviderAction::Remove(args[1].clone())))
    } else if same(&args[0], "add") && (args.len() == 5 || args.len() == 6) {
        match ProviderKind::from_name(&args[2]) {
            Some(kind) => Ok(
                SlashCommand::Provider(
                    ProviderAction::Add {
                        name: args[1].clone(),
                        kind,
                        base_url: args[3].clone(),
                        model: args[4].clone(),
                        api_key_env: if args.len() == 6 {
                            Some(args[5].clone())
                        } else {
                            None
                        },
                    },
                ),
            ),
            None => {
                let mut m = "unknown provider kind '".to_string();
                m.append(&args[2]);
                m.append(
                    "' — one of ollama|llamacpp|openai|anthropic|openrouter|cloudflare|xai|xaioauth",
                );
                Err(m)
            },
        }
    } else {
        Err(
            "usage: /provider [list | use <name> | add <name> <kind> <base_url> <model> [api_key_env] | remove <name>]".to_string(),
        )
    }
}

fn parse_memory(args: Vec<String>) -> (r: Result<SlashCommand, String>)
    ensures
        parse_view(r) == memory_args(texts(args@)),
{
    let ghost a = texts(args@);
    assert(a.len() == args@.len());
    assert(forall|i: int| 0 <= i < a.len() ==> a[i] == (#[trigger] args@[i])@);
    if args.len() == 0 {
        return Ok(SlashCommand::Memory(MemoryAction::List));
    }
    assert(a[0] == args@[0]@);
    if same(&args[0], "list") && args.len() == 1 {
        Ok(SlashCommand::Memory(MemoryAction::List))
    } else if same(&args[0], "read") && args.len() == 2 {
        Ok(SlashCommand::Memory(MemoryAction::Read(args[1].clone())))
    } else if same(&args[0], "forget") && args.len() == 2 {
        Ok(SlashCommand::Memory(MemoryAction::Forget(args[1].clone())))
    } else {
        Err("usage: /memory [list | read <name> | forget <name>]".to_string())
    }
}

fn parse_server(arg: &str) -> (r: Result<SlashCommand, String>)
    ensures
        parse_view(r) == server_args(arg@),
{
    if crate::text::is_empty_text(arg) || same(arg, "status") {
        Ok(SlashCommand::Server(ServerAction::Status))
    } else if same(arg, "start") {
        Ok(SlashCommand::Server(ServerAction::Start))
    } else if same(arg, "stop") {
        Ok(SlashCommand::Server(ServerAction::Stop))
    } else {
        Err("usage: /server [status|start|stop]".to_string())
    }
}

fn parse_named(name: String, rest: String) -> (r: Result<SlashCommand, String>)
    ensures
        parse_view(r) == named_command(name@, rest@),
{
    proof {
        reveal(named_command);
    }
    let bare = crate::text::is_empty_text(&rest);
    if same(&name, "help") {
        Ok(SlashCommand::Help)
    } else if same(&name, "clear") {
        Ok(SlashCommand::Clear)
    } else if same(&name, "plan") {
        Ok(SlashCommand::Plan)
    } else if same(&name, "omakase") {
        Ok(SlashCommand::Omakase)
    } else if same(&name, "compact") {
        Ok(SlashCommand::Compact)
    } else if same(&name, "agents") {
        Ok(SlashCommand::Agents)
    } else if same(&name, "reload") {
        Ok(SlashCommand::Reload)
    } else if same(&name, "diff") {
        Ok(SlashCommand::Diff)
    } else if same(&name, "todos") {
        Ok(SlashCommand::Todos)
    } else if same(&name, "dashboard") {
        Ok(SlashCommand::Dashboard)
    } else if same(&name, "cost") {
        Ok(SlashCommand::Cost)
    } else if same(&name, "status") {
        Ok(SlashCommand::Status)
    } else if same(&name, "bashes") {
        Ok(SlashCommand::Bashes)
    } else if same(&name, "settings") {
        Ok(SlashCommand::Settings)
    } else if same(&name, "vim") {
        Ok(SlashCommand::Vim)
    } else if same(&name, "doctor") {
        Ok(SlashCommand::Doctor)
    } else if same(&name, "quit") {
        Ok(SlashCommand::Quit)
    } else if same(&name, "genie") {
        Ok(SlashCommand::Mode(Some(Mode::Genie)))
    } else if same(&name, "sovereign") {
        Ok(SlashCommand::Mode(Some(Mode::Sovereign)))
    } else if same(&name, "model") {
        Ok(SlashCommand::Model(text_arg(rest)))
    } else if same(&name, "resume") {
        Ok(SlashCommand::Resume(text_arg(rest)))
    } else if same(&name, "goal") {
        Ok(SlashCommand::Goal(text_arg(rest)))
    } else if same(&name, "publish") {
        Ok(SlashCommand::Publish { branch: text_arg(rest) })
    } else if same(&name, "mode") {
        parse_mode(&rest)
    } else if same(&name, "effort") {
        parse_effort(&rest)
    } else if same(&name, "rewind") {
        parse_rewind(&rest)
    } else if same(&name, "evolve") {
        parse_evolve(rest)
    } else if same(&name, "provider") {
        parse_provider(split_words(&rest))
    } else if same(&name, "memory") {
        parse_memory(split_words(&rest))
    } else if same(&name, "server") {
        parse_server(&rest)
    } else if same(&name, "btw") {
        if bare {
            Err("usage: /btw <question>".to_string())
        } else {
            Ok(SlashCommand::Btw(rest))
        }
    } else if same(&name, "login") {
        if bare {
            Err("usage: /login xai".to_string())
        } else {
            Ok(SlashCommand::Login(rest))
        }
    } else if same(&name, "fusion") {
        if bare {
            Ok(SlashCommand::Fusion(FusionAction::Toggle))
        } else if same(&rest, "config") {
            Ok(SlashCommand::Fusion(FusionAction::Config))
        } else {
            Err("usage: /fusion [config]".to_string())
        }
    } else if same(&name, "ultra") {
        if bare {
            Ok(SlashCommand::Ultra(UltraAction::Toggle))
        } else if same(&rest, "config") {
            Ok(SlashCommand::Ultra(UltraAction::Config))
        } else {
            Err("usage: /ultra [config]".to_string())
        }
    } else {
        let mut m = "unknown command: /".to_string();
        m.append(&name);
        Err(m)
    }
}

/// The commands the agent may run on its own: those that show information or
/// change its own settings.  Pickers, which wait for the user, and commands
/// that end, replace or publish the session are not among them.
pub open spec fn runnable_by_agent(c: CommandView) -> bool {
    match c {
        CommandView::Help
        | CommandView::Plan
        | CommandView::Omakase
        | CommandView::Compact
        | CommandView::Reload
        | CommandView::Diff
        | CommandView::Todos
        | CommandView::Cost
        | CommandView::Status
        | CommandView::Bashes
        | CommandView::Doctor
        | CommandView::Settings
        | CommandView::Vim
        | CommandView::Goal(_)
        | CommandView::Memory(_)
        | CommandView::Model(Some(_))
        | CommandView::Mode(Some(_))
        | CommandView::Effort(Some(_))
        | CommandView::Fusion(FusionAction::Toggle)
        | CommandView::Ultra(UltraActionView::Toggle) => true,
        _ => false,
    }
}

impl SlashCommand {
    /// Parses a line: `None` when it is no slash command, an error message
    /// when the command is unknown or its arguments are wrong.
    pub fn parse(input: &str) -> (r: Option<Result<SlashCommand, String>>)
        ensures
            r is Some <==> parsed_command(input@) is Some,
            r matches Some(p) ==> parse_view(p) == parsed_command(input@)->0,
    {
        let t = trimmed(input);
        let cs = chars_of(&t);
        if cs.len() == 0 || cs[0] != '/' {
            return None;
        }
        let body = slice_text(&cs, 1, cs.len());
        assert(body@ == t@.drop_first());
        let (name, rest) = first_word(&body);
        Some(parse_named(name, rest))
    }

    /// Whether the agent may run the command on its own; the error says that
    /// it may not.
    pub fn agent_runnable(&self) -> (r: Result<(), String>)
        ensures
            r is Ok <==> runnable_by_agent(self@),
            r matches Err(m) ==> m@ == "this command is not available to the agent"@,
    {
        match self {
            SlashCommand::Help
            | SlashCommand::Plan
            | SlashCommand::Omakase
            | SlashCommand::Compact
            | SlashCommand::Reload
            | SlashCommand::Diff
            | SlashCommand::Todos
            | SlashCommand::Cost
            | SlashCommand::Status
            | SlashCommand::Bashes
            | SlashCommand::Doctor
            | SlashCommand::Settings
            | SlashCommand::Vim
            | SlashCommand::Goal(_)
            | SlashCommand::Memory(_)
            | SlashCommand::Model(Some(_))
            | SlashCommand::Mode(Some(_))
            | SlashCommand::Effort(Some(_))
            | SlashCommand::Fusion(FusionAction::Toggle)
            | SlashCommand::Ultra(UltraAction::Toggle) => Ok(()),
            _ => Err("this command is not available to the agent".to_string()),
        }
    }
}

} // verus!
