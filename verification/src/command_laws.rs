//! What holds of a line that is read as a command.

use crate::commands::{
    named_command, parsed_command, runnable_by_agent, CommandView, FusionAction, MemoryActionView,
    ProviderActionView, ServerAction, UltraActionView,
};
use crate::config::{Mode, ProviderKind, ReasoningEffort};
use crate::text::{is_white, lower, parsed_u64, trim, words};
use crate::text_laws::lemma_word_before;
use vstd::prelude::*;

verus! {

/// The line starts with a slash and `name`; what follows is `tail`.
pub open spec fn reads_as(input: Seq<char>, name: Seq<char>, tail: Seq<char>) -> bool {
    &&& trim(input) == seq!['/'] + name + tail
    &&& forall|i: int| 0 <= i < name.len() ==> !is_white(#[trigger] name[i])
    &&& tail.len() == 0 || is_white(tail[0])
}

/// The kind that a provider's setup names.
pub open spec fn kind_name(kind: ProviderKind) -> Seq<char> {
    match kind {
        ProviderKind::Ollama => "ollama"@,
        ProviderKind::LlamaCpp => "llamacpp"@,
        ProviderKind::Openai => "openai"@,
        ProviderKind::Anthropic => "anthropic"@,
        ProviderKind::OpenRouter => "openrouter"@,
        ProviderKind::Cloudflare => "cloudflare"@,
        ProviderKind::Xai => "xai"@,
        ProviderKind::XaiOauth => "xaioauth"@,
    }
}

/// An argument that may be left out.
pub open spec fn or_none(arg: Option<Seq<char>>, rest: Seq<char>) -> bool {
    match arg {
        Some(t) => t == rest && rest.len() > 0,
        None => rest.len() == 0,
    }
}

/// The command is the one of that name, with those arguments.
pub open spec fn is_command(c: CommandView, name: Seq<char>, rest: Seq<char>) -> bool {
    let args = words(rest);
    match c {
        CommandView::Help => name == "help"@,
        CommandView::Clear => name == "clear"@,
        CommandView::Plan => name == "plan"@,
        CommandView::Omakase => name == "omakase"@,
        CommandView::Compact => name == "compact"@,
        CommandView::Agents => name == "agents"@,
        CommandView::Reload => name == "reload"@,
        CommandView::Diff => name == "diff"@,
        CommandView::Todos => name == "todos"@,
        CommandView::Dashboard => name == "dashboard"@,
        CommandView::Cost => name == "cost"@,
        CommandView::Status => name == "status"@,
        CommandView::Bashes => name == "bashes"@,
        CommandView::Settings => name == "settings"@,
        CommandView::Vim => name == "vim"@,
        CommandView::Doctor => name == "doctor"@,
        CommandView::Quit => name == "quit"@,
        CommandView::Model(tag) => name == "model"@ && or_none(tag, rest),
        CommandView::Resume(id) => name == "resume"@ && or_none(id, rest),
        CommandView::Goal(text) => name == "goal"@ && or_none(text, rest),
        CommandView::Publish { branch } => name == "publish"@ && or_none(branch, rest),
        CommandView::Btw(question) => name == "btw"@ && or_none(Some(question), rest),
        CommandView::Login(provider) => name == "login"@ && or_none(Some(provider), rest),
        CommandView::Mode(None) => name == "mode"@ && rest.len() == 0,
        CommandView::Mode(Some(Mode::Genie)) => name == "genie"@ || (name == "mode"@ && rest
            == "genie"@),
        CommandView::Mode(Some(Mode::Sovereign)) => name == "sovereign"@ || (name == "mode"@
            && rest == "sovereign"@),
        CommandView::Effort(None) => name == "effort"@ && rest.len() == 0,
        CommandView::Effort(Some(None)) => name == "effort"@ && lower(rest) == "default"@,
        CommandView::Effort(Some(Some(e))) => name == "effort"@ && match e {
            ReasoningEffort::Low => lower(rest) == "low"@,
            ReasoningEffort::Medium => lower(rest) == "medium"@ || lower(rest) == "med"@,
            ReasoningEffort::High => lower(rest) == "high"@,
        },
        CommandView::Rewind(None) => name == "rewind"@ && rest.len() == 0,
        CommandView::Rewind(Some(turn)) => name == "rewind"@ && parsed_u64(rest) == Some(turn),
        CommandView::Evolve { deep, description } => {
            &&& name == "evolve"@
            &&& description.len() > 0
            &&& !deep ==> description == rest
        },
        CommandView::Provider(ProviderActionView::Menu) => name == "provider"@ && args.len() == 0,
        CommandView::Provider(ProviderActionView::List) => name == "provider"@ && args.len() > 0
            && args[0] == "list"@,
        CommandView::Provider(ProviderActionView::Use(n)) => name == "provider"@ && args
            == seq!["use"@, n],
        CommandView::Provider(ProviderActionView::Remove(n)) => name == "provider"@ && args
            == seq!["remove"@, n],
        CommandView::Provider(ProviderActionView::Add { name: n, kind, base_url, model, api_key_env },
        ) => {
            &&& name == "provider"@
            &&& args == (match api_key_env {
                Some(env) => seq!["add"@, n, kind_name(kind), base_url, model, env],
                None => seq!["add"@, n, kind_name(kind), base_url, model],
            })
        },
        CommandView::Memory(MemoryActionView::List) => name == "memory"@ && (args.len() == 0
            || args == seq!["list"@]),
        CommandView::Memory(MemoryActionView::Read(n)) => name == "memory"@ && args
            == seq!["read"@, n],
        CommandView::Memory(MemoryActionView::Forget(n)) => name == "memory"@ && args
            == seq!["forget"@, n],
        CommandView::Server(ServerAction::Status) => name == "server"@ && (rest.len() == 0 || rest
            == "status"@),
        CommandView::Server(ServerAction::Start) => name == "server"@ && rest == "start"@,
        CommandView::Server(ServerAction::Stop) => name == "server"@ && rest == "stop"@,
        CommandView::Fusion(FusionAction::Toggle) => name == "fusion"@ && rest.len() == 0,
        CommandView::Fusion(FusionAction::Config) => name == "fusion"@ && rest == "config"@,
        CommandView::Ultra(UltraActionView::Toggle) => name == "ultra"@ && rest.len() == 0,
        CommandView::Ultra(UltraActionView::Config) => name == "ultra"@ && rest == "config"@,
        _ => false,
    }
}

proof fn lemma_named(name: Seq<char>, rest: Seq<char>, c: CommandView)
    requires
        named_command(name, rest) == Ok::<CommandView, Seq<char>>(c),
    ensures
        is_command(c, name, rest),
{
    reveal(named_command);
    let args = words(rest);
    if args.len() == 1 {
        assert(args =~= seq![args[0]]);
    } else if args.len() == 2 {
        assert(args =~= seq![args[0], args[1]]);
    } else if args.len() == 5 {
        assert(args =~= seq![args[0], args[1], args[2], args[3], args[4]]);
    } else if args.len() == 6 {
        assert(args =~= seq![args[0], args[1], args[2], args[3], args[4], args[5]]);
    }
}

/// A line is a command only behind a slash, and the command that it is read as is
/// the one of that name with just those arguments.
pub proof fn law_a_command_is_the_one_named(
    input: Seq<char>,
    name: Seq<char>,
    tail: Seq<char>,
    c: CommandView,
)
    ensures
        trim(input).len() == 0 || trim(input)[0] != '/' ==> parsed_command(input) is None,
        reads_as(input, name, tail) && parsed_command(input) == Some(
            Ok::<CommandView, Seq<char>>(c),
        ) ==> is_command(c, name, trim(tail)),
        reads_as(input, name, tail) ==> parsed_command(input) is Some,
{
    if reads_as(input, name, tail) {
        let t = trim(input);
        let body = t.drop_first();
        assert(t[0] == '/');
        assert(body =~= name + tail);
        lemma_word_before(name, tail);
        assert(body.take(name.len() as int) =~= name);
        assert(body.skip(name.len() as int) =~= tail);
        if parsed_command(input) == Some(Ok::<CommandView, Seq<char>>(c)) {
            lemma_named(name, trim(tail), c);
        }
    }
}

/// The agent never ends, replaces or publishes the session on its own, nor touches
/// the providers, and it opens no menu that waits for the user.
pub proof fn law_the_agent_leaves_the_session_alone(c: CommandView)
    requires
        runnable_by_agent(c),
    ensures
        c !is Quit,
        c !is Clear,
        c !is Rewind,
        c !is Resume,
        c !is Publish,
        c !is Evolve,
        c !is Provider,
        c !is ProviderSetup,
        c !is Login,
        c !is Server,
        c !is ImportClaude,
        c !is Agents,
        c !is Btw,
        c != CommandView::Model(None),
        c != CommandView::Mode(None),
        c != CommandView::Effort(None),
{
}

/// The agent may show what there is to know and change its own settings.
pub proof fn law_the_agent_may_see_and_set(
    tag: Seq<char>,
    mode: Mode,
    effort: Option<ReasoningEffort>,
    goal: Option<Seq<char>>,
)
    ensures
        runnable_by_agent(CommandView::Help),
        runnable_by_agent(CommandView::Status),
        runnable_by_agent(CommandView::Cost),
        runnable_by_agent(CommandView::Bashes),
        runnable_by_agent(CommandView::Doctor),
        runnable_by_agent(CommandView::Plan),
        runnable_by_agent(CommandView::Omakase),
        runnable_by_agent(CommandView::Compact),
        runnable_by_agent(CommandView::Reload),
        runnable_by_agent(CommandView::Goal(goal)),
        runnable_by_agent(CommandView::Model(Some(tag))),
        runnable_by_agent(CommandView::Mode(Some(mode))),
        runnable_by_agent(CommandView::Effort(Some(effort))),
        runnable_by_agent(CommandView::Fusion(FusionAction::Toggle)),
        runnable_by_agent(CommandView::Ultra(UltraActionView::Toggle)),
{
}

} // verus!
