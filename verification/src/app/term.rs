//! Decisions around the terminal: which editor, what its outcome means, which
//! drafts to sweep, and which clipboard writers to try.

use crate::app::state::{App, AppView};
use crate::config::Config;
use crate::json::text_opt;
use crate::text::{begins_with, blank, decimal, is_blank, number, starts_with, texts};
use vstd::prelude::*;

verus! {

/// The external editor: the first of two settings that is not blank, else
/// `nvim` when it is installed.
pub open spec fn editor_choice(
    visual: Option<Seq<char>>,
    editor: Option<Seq<char>>,
    nvim: bool,
) -> Option<Seq<char>> {
    if visual is Some && !is_blank(visual->0) {
        visual
    } else if editor is Some && !is_blank(editor->0) {
        editor
    } else if nvim {
        Some("nvim"@)
    } else {
        None
    }
}

/// Resolve the external editor from `$VISUAL`, `$EDITOR` and whether `nvim` is
/// on the path.
pub fn resolve_editor(visual: Option<String>, editor: Option<String>, nvim: bool) -> (r: Option<
    String,
>)
    ensures
        text_opt(r) == editor_choice(text_opt(visual), text_opt(editor), nvim),
{
    if let Some(v) = visual {
        if !blank(&v) {
            return Some(v);
        }
    }
    if let Some(e) = editor {
        if !blank(&e) {
            return Some(e);
        }
    }
    if nvim {
        Some("nvim".to_string())
    } else {
        None
    }
}

/// A program to run, with its arguments.
#[derive(Debug, PartialEq, Eq)]
pub struct Program {
    pub program: String,
    pub args: Vec<String>,
}

pub struct ProgramView {
    pub program: Seq<char>,
    pub args: Seq<Seq<char>>,
}

impl View for Program {
    type V = ProgramView;

    open spec fn view(&self) -> ProgramView {
        ProgramView { program: self.program@, args: texts(self.args@) }
    }
}

/// The shell that reads command lines.
pub const SHELL: &'static str = "sh";

/// The command that opens `editor` on `path`, through the shell: the setting is
/// a command line, flags included, and not a program's name.
pub fn editor_command(editor: &str, path: &str) -> (r: Program)
    ensures
        r@ == (ProgramView {
            program: SHELL@,
            args: seq!["-c"@, editor@ + " \""@ + path@ + "\""@],
        }),
{
    let mut line = editor.to_string();
    line.append(" \"");
    line.append(path);
    line.append("\"");
    tool(SHELL, two("-c", &line))
}

/// What became of editing the config file.
pub enum ConfigEdit {
    /// The file could not be located.
    NoPath(String),
    /// No editor is configured; the file's path.
    NoEditor(String),
    /// The application could not be suspended.
    NotSuspended(String),
    /// The application could not be restored.
    NotRestored(String),
    /// The editor could not be started.
    NotLaunched(String),
    /// The editor failed.
    Unsuccessful,
    /// The edited file could not be parsed.
    Unparsed(String),
    /// The edited settings.
    Reloaded(Config),
}

/// What became of editing the draft.
pub enum PromptEdit {
    NoEditor,
    /// The draft could not be written.
    NotStaged(String),
    /// The application could not be suspended.
    NotSuspended(String),
    /// The application could not be restored.
    NotRestored(String),
    /// The editor could not be started.
    NotLaunched(String),
    /// The editor failed.
    Unsuccessful,
    /// The edited draft could not be read.
    Unreadable(String),
    /// The edited draft.
    Edited(String),
}

impl AppView {
    /// The config file was edited, or was not.
    #[verifier::opaque]
    pub open spec fn config_edited(self, edit: ConfigEdit) -> AppView {
        match edit {
            ConfigEdit::NoPath(e) => self.noticed("could not locate config: "@ + e@),
            ConfigEdit::NoEditor(path) => self.noticed(
                "no $EDITOR set — edit "@ + path@ + " by hand, then /reload"@,
            ),
            ConfigEdit::NotSuspended(e) => self.noticed("could not suspend the TUI: "@ + e@),
            ConfigEdit::NotRestored(e) => self.noticed(
                "could not restore the TUI: "@ + e@ + " — /quit and relaunch"@,
            ),
            ConfigEdit::NotLaunched(e) => self.noticed("could not launch editor: "@ + e@),
            ConfigEdit::Unsuccessful => self.noticed(
                "editor exited without success — config not reloaded"@,
            ),
            ConfigEdit::Unparsed(e) => self.noticed("config not reloaded (parse error): "@ + e@),
            ConfigEdit::Reloaded(config) => {
                let s = self.with_config(config@);
                s.with_status(
                    crate::app::picker::StatusView {
                        mode: config@.mode,
                        model: config@.active().model,
                        ..s.turn.status
                    },
                ).noticed(
                    "config reloaded — restart for provider/model changes to take effect"@,
                )
            },
        }
    }

    /// The draft was edited, or was not.
    #[verifier::opaque]
    pub open spec fn prompt_edited(self, edit: PromptEdit) -> AppView {
        match edit {
            PromptEdit::NoEditor => self.noticed(
                "no $VISUAL/$EDITOR set and nvim not on PATH — cannot edit the prompt"@,
            ),
            PromptEdit::NotStaged(e) => self.noticed("could not stage the prompt: "@ + e@),
            PromptEdit::NotSuspended(e) => self.noticed("could not suspend the TUI: "@ + e@),
            PromptEdit::NotRestored(e) => self.noticed(
                "could not restore the TUI: "@ + e@ + " — /quit and relaunch"@,
            ),
            PromptEdit::NotLaunched(e) => self.noticed("could not launch editor: "@ + e@),
            PromptEdit::Unsuccessful => self.noticed(
                "editor exited without success — prompt unchanged"@,
            ),
            PromptEdit::Unreadable(e) => self.noticed("could not read the edited prompt: "@ + e@),
            PromptEdit::Edited(text) => self.with_composer(self.composer.edited(text@)),
        }
    }
}

/// A label, a reason and a tail.
fn told(label: &str, reason: &str, tail: &str) -> (r: String)
    ensures
        r@ == label@ + reason@ + tail@,
{
    let mut m = label.to_string();
    m.append(reason);
    m.append(tail);
    m
}

/// A label and a reason.
fn tell(label: &str, reason: &str) -> (r: String)
    ensures
        r@ == label@ + reason@,
{
    let mut m = label.to_string();
    m.append(reason);
    m
}

impl App {
    fn adopt(&mut self, config: Config)
        requires
            old(self)@.wf(),
        ensures
            final(self)@ == old(self)@.config_edited(ConfigEdit::Reloaded(config)),
            final(self)@.wf(),
    {
        proof {
            reveal(AppView::config_edited);
        }
        let model = config.active().model.clone();
        let mode = config.mode;
        self.config = config;
        self.turn.status.mode = mode;
        self.turn.status.model = model;
        self.notice(
            "config reloaded — restart for provider/model changes to take effect".to_string(),
        );
    }

    /// The main loop ran the editor on the config file, or could not.
    pub fn config_file_edited(&mut self, edit: ConfigEdit)
        requires
            old(self)@.wf(),
        ensures
            final(self)@ == old(self)@.config_edited(edit),
            final(self)@.wf(),
    {
        let message = match edit {
            ConfigEdit::Reloaded(config) => {
                self.adopt(config);
                return ;
            },
            ConfigEdit::NoPath(e) => tell("could not locate config: ", &e),
            ConfigEdit::NoEditor(path) => told(
                "no $EDITOR set — edit ",
                &path,
                " by hand, then /reload",
            ),
            ConfigEdit::NotSuspended(e) => tell("could not suspend the TUI: ", &e),
            ConfigEdit::NotRestored(e) => told(
                "could not restore the TUI: ",
                &e,
                " — /quit and relaunch",
            ),
            ConfigEdit::NotLaunched(e) => tell("could not launch editor: ", &e),
            ConfigEdit::Unsuccessful =>
                "editor exited without success — config not reloaded".to_string(),
            ConfigEdit::Unparsed(e) => tell("config not reloaded (parse error): ", &e),
        };
        proof {
            reveal(AppView::config_edited);
        }
        self.notice(message);
    }

    /// The main loop ran the editor on the draft, or could not.  A clean exit
    /// replaces the input; anything else leaves it untouched.
    pub fn draft_edited(&mut self, edit: PromptEdit)
        requires
            old(self)@.wf(),
        ensures
            final(self)@ == old(self)@.prompt_edited(edit),
            final(self)@.wf(),
    {
        proof {
            reveal(AppView::prompt_edited);
        }
        let message = match edit {
            PromptEdit::Edited(text) => {
                self.composer.set_input_from_editor(text);
                return ;
            },
            PromptEdit::NoEditor =>
                "no $VISUAL/$EDITOR set and nvim not on PATH — cannot edit the prompt".to_string(),
            PromptEdit::NotStaged(e) => tell("could not stage the prompt: ", &e),
            PromptEdit::NotSuspended(e) => tell("could not suspend the TUI: ", &e),
            PromptEdit::NotRestored(e) => told(
                "could not restore the TUI: ",
                &e,
                " — /quit and relaunch",
            ),
            PromptEdit::NotLaunched(e) => tell("could not launch editor: ", &e),
            PromptEdit::Unsuccessful => "editor exited without success — prompt unchanged".to_string(),
            PromptEdit::Unreadable(e) => tell("could not read the edited prompt: ", &e),
        };
        self.notice(message);
    }
}

/// How long an abandoned draft survives, in seconds: seven days.
pub const DRAFT_TTL: u64 = 604_800;

/// The file a session's draft is staged in.
pub open spec fn draft_file(pid: u32) -> Seq<char> {
    "wizard-prompt-"@ + decimal(pid as nat) + ".md"@
}

/// The file a session's draft is staged in.
pub fn draft_name(pid: u32) -> (r: String)
    ensures
        r@ == draft_file(pid),
{
    let mut s = "wizard-prompt-".to_string();
    s.append(&number(pid as u64));
    s.append(".md");
    s
}

/// Whether the sweep removes a file: a draft by its name that has not been
/// touched for `ttl` seconds.  A file whose age is unknown stays.
pub fn is_stale_draft(name: &str, age: Option<u64>, ttl: u64) -> (r: bool)
    ensures
        r == (starts_with(name@, "wizard-prompt-"@) && (age matches Some(a) && a >= ttl)),
{
    match age {
        Some(a) => a >= ttl && begins_with(name, "wizard-prompt-"),
        None => false,
    }
}

pub open spec fn tools_view(t: Seq<Program>) -> Seq<ProgramView> {
    t.map_values(|x: Program| x@)
}

/// The clipboard writers, in the order they are tried: Wayland's leads in a
/// Wayland session and is last elsewhere.
pub open spec fn clipboard_tools(wayland: bool) -> Seq<ProgramView> {
    let wl = seq![ProgramView { program: "wl-copy"@, args: Seq::empty() }];
    let rest = seq![
        ProgramView { program: "xclip"@, args: seq!["-selection"@, "clipboard"@] },
        ProgramView { program: "xsel"@, args: seq!["--clipboard"@, "--input"@] },
        ProgramView { program: "pbcopy"@, args: Seq::empty() },
        ProgramView { program: "clip.exe"@, args: Seq::empty() },
    ];
    if wayland {
        wl + rest
    } else {
        rest + wl
    }
}

fn tool(program: &str, args: Vec<String>) -> (r: Program)
    ensures
        r@ == (ProgramView { program: program@, args: texts(args@) }),
{
    Program { program: program.to_string(), args }
}

fn two(a: &str, b: &str) -> (r: Vec<String>)
    ensures
        texts(r@) == seq![a@, b@],
{
    let r = vec![a.to_string(), b.to_string()];
    assert(texts(r@) =~= seq![a@, b@]);
    r
}

fn no_args() -> (r: Vec<String>)
    ensures
        texts(r@) == Seq::<Seq<char>>::empty(),
{
    let r: Vec<String> = Vec::new();
    assert(texts(r@) =~= Seq::<Seq<char>>::empty());
    r
}

/// The clipboard writers, in the order they are tried.
pub fn clipboard_writers(wayland: bool) -> (r: Vec<Program>)
    ensures
        tools_view(r@) == clipboard_tools(wayland),
{
    let mut out: Vec<Program> = Vec::new();
    if wayland {
        out.push(tool("wl-copy", no_args()));
    }
    out.push(tool("xclip", two("-selection", "clipboard")));
    out.push(tool("xsel", two("--clipboard", "--input")));
    out.push(tool("pbcopy", no_args()));
    out.push(tool("clip.exe", no_args()));
    if !wayland {
        out.push(tool("wl-copy", no_args()));
    }
    assert(tools_view(out@) =~= clipboard_tools(wayland));
    out
}

/// Whether a copy reached a clipboard: through a native writer, or through the
/// terminal.
pub fn copy_to_clipboard(native: bool, escape: bool) -> (r: Result<(), String>)
    ensures
        r is Ok <==> native || escape,
        r matches Err(m) ==> m@
            == "no native clipboard tool succeeded (wl-copy/xclip/xsel/pbcopy) and OSC 52 write failed"@,
{
    if native || escape {
        Ok(())
    } else {
        Err(
            "no native clipboard tool succeeded (wl-copy/xclip/xsel/pbcopy) and OSC 52 write failed".to_string(),
        )
    }
}

} // verus!
