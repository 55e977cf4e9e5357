//! Another agent's session files: reading them, walking the conversation out of
//! them, finding them, and importing one.

use wizard::app::replay::Role;
use wizard::claude_resume::{
    image_block, import, import_into, import_session, no_sessions, pick_row, pick_session,
    preview_row, result_text, to_chat_messages, ChatMessage, ContentBlock, Request, Route,
    UNKNOWN_TOOL,
};
use wizard::claude_session::line::{is_synthetic_prompt, ClaudeBlock, NodeKind, Stamp};
use wizard::claude_session::preview::{
    clip, list_rows, project_dir, project_slug, session_dirs, session_files, TitleSource,
    PROJECT_SLUG_MAX, TITLE_CHARS,
};
use wizard::claude_session::session::{Chain, ChainStop, ClaudeSession};
use wizard::config::Peer;
use wizard::json::Json;

const IMAGE_LIMIT: usize = 5 * 1024 * 1024;

fn peer() -> Peer {
    Peer {
        name: "Other Agent".to_string(),
        word: "other".to_string(),
        home: "~/.other".to_string(),
    }
}

fn id(n: u32) -> String {
    format!("00000000-0000-4000-8000-{n:012}")
}

/// One chain-bearing line: its type, number, parent and what else it holds.
fn line(kind: &str, n: u32, parent: Option<u32>, rest: &str) -> String {
    let parent = match parent {
        Some(p) => format!("\"{}\"", id(p)),
        None => "null".to_string(),
    };
    format!(
        "{{\"type\":\"{kind}\",\"uuid\":\"{}\",\"parentUuid\":{parent},\"sessionId\":\"{}\",\
         \"cwd\":\"/home/user/projects/demo\",\"gitBranch\":\"work\",\
         \"timestamp\":\"2026-06-09T09:{n:02}:00.250Z\"{rest}}}",
        id(n),
        id(2)
    )
}

fn user_line(n: u32, parent: Option<u32>, text: &str) -> String {
    let rest = format!(",\"message\":{{\"role\":\"user\",\"content\":\"{text}\"}}");
    line("user", n, parent, &rest)
}

fn assistant_line(n: u32, parent: Option<u32>, block: &str) -> String {
    let rest = format!(",\"message\":{{\"role\":\"assistant\",\"content\":[{block}]}}");
    line("assistant", n, parent, &rest)
}

fn tip_line(n: u32) -> String {
    format!("{{\"type\":\"last-prompt\",\"leafUuid\":\"{}\",\"lastPrompt\":\"go on\"}}", id(n))
}

/// A session whose history forked once: the prompt after line 16 was edited, and
/// the answer to its first form was left behind.
fn branched_text() -> String {
    let text = "{\"type\":\"text\",\"text\":\"said\"}";
    let mut lines = vec![
        "{\"type\":\"mode\",\"mode\":\"normal\"}".to_string(),
        "{\"type\":\"permission-mode\",\"permissionMode\":\"bypassPermissions\"}".to_string(),
        line("attachment", 4, None, ",\"attachment\":{\"type\":\"file\"}"),
        user_line(5, Some(4), "start here"),
        tip_line(5),
    ];
    let turn = |first: u32| {
        let call = format!(
            "{{\"type\":\"tool_use\",\"id\":\"toolu_{first}\",\"name\":\"Bash\",\
             \"input\":{{\"command\":\"ls\"}}}}"
        );
        let result = format!(
            ",\"toolUseResult\":{{\"stdout\":\"a\"}},\"message\":{{\"role\":\"user\",\"content\":\
             [{{\"type\":\"tool_result\",\"tool_use_id\":\"toolu_{first}\",\"content\":\"a\"}}]}}"
        );
        vec![
            assistant_line(
                first,
                Some(first - 1),
                "{\"type\":\"thinking\",\"thinking\":\"hm\",\"signature\":\"s\"}",
            ),
            assistant_line(first + 1, Some(first), &call),
            line("user", first + 2, Some(first + 1), &result),
            assistant_line(first + 3, Some(first + 2), text),
        ]
    };
    lines.extend(turn(6));
    lines.push(user_line(10, Some(9), "second"));
    lines.push(tip_line(10));
    lines.extend(turn(11));
    lines.push(line(
        "system",
        15,
        Some(14),
        ",\"subtype\":\"info\",\"content\":\"a notice\"",
    ));
    lines.push(assistant_line(16, Some(15), text));
    // The branch that was left behind.
    lines.push(user_line(17, Some(16), "third, as first typed"));
    lines.push(assistant_line(18, Some(17), text));
    lines.push(tip_line(18));
    // The branch that went on.
    lines.push(user_line(19, Some(16), "third"));
    for n in 20..47 {
        lines.push(if n % 2 == 0 {
            assistant_line(n, Some(n - 1), text)
        } else {
            user_line(n, Some(n - 1), "more")
        });
    }
    lines.push(line("system", 47, Some(46), ",\"subtype\":\"stop\",\"content\":\"done\""));
    lines.push("{\"type\":\"ai-title\",\"aiTitle\":\"Redacted session title\"}".to_string());
    lines.push(tip_line(47));
    lines.join("\n")
}

fn branched() -> ClaudeSession {
    ClaudeSession::parse("branched.jsonl", &branched_text())
}

fn linear_text() -> String {
    [
        user_line(6, None, "explain it"),
        assistant_line(7, Some(6), "{\"type\":\"text\",\"text\":\"so\"}"),
        tip_line(7),
    ]
    .join("\n")
}

fn linear() -> ClaudeSession {
    ClaudeSession::parse("linear.jsonl", &linear_text())
}

fn converted(session: &ClaudeSession, chain: &Chain) -> Vec<ChatMessage> {
    to_chat_messages(session, chain, IMAGE_LIMIT)
}

fn text_json(text: &str) -> Json {
    Json::Text(text.to_string())
}

fn object(fields: Vec<(&str, Json)>) -> Json {
    Json::Object(fields.into_iter().map(|(name, value)| (name.to_string(), value)).collect())
}

#[test]
fn parses_every_line_of_a_real_session() {
    let session = branched();
    assert_eq!(session.nodes.len(), 44);
    assert_eq!(session.malformed_lines, 0);
    assert!(
        session.unknown_types.is_empty(),
        "unmodelled line types: {:?}",
        session.unknown_types
    );
    assert_eq!(
        session.session_id, "00000000-0000-4000-8000-000000000002",
        "sessionId comes off the lines, not the filename"
    );

    let kinds: Vec<NodeKind> = session.nodes.iter().map(|node| node.kind).collect();
    assert!(kinds.contains(&NodeKind::User));
    assert!(kinds.contains(&NodeKind::Assistant));
    assert!(kinds.contains(&NodeKind::Attachment));
    assert!(kinds.contains(&NodeKind::System));
}

#[test]
fn parses_sidecar_lines_last_write_wins() {
    let session = branched();
    assert_eq!(
        session.meta.ai_title.as_deref(),
        Some("Redacted session title")
    );
    assert_eq!(session.meta.mode.as_deref(), Some("normal"));
    assert_eq!(
        session.meta.permission_mode.as_deref(),
        Some("bypassPermissions")
    );
    // Several `last-prompt` lines, each naming a different leaf as the session
    // advanced. Folding must keep the last, which is the tip the user left
    // the session on.
    assert_eq!(
        session.meta.leaf_uuid.as_deref(),
        Some("00000000-0000-4000-8000-000000000047")
    );
}

#[test]
fn parses_tool_use_and_tool_result_with_real_ids() {
    let session = branched();
    let call = session
        .nodes
        .iter()
        .find_map(|node| {
            node.content.iter().find_map(|block| match block {
                ClaudeBlock::ToolUse { id, name, input } => {
                    Some((id.clone(), name.clone(), input.copy()))
                }
                _ => None,
            })
        })
        .expect("the fixture has tool calls");
    assert!(
        call.0.starts_with("toolu_"),
        "tool id preserved: {}",
        call.0
    );
    assert_eq!(call.1, "Bash");
    assert!(matches!(call.2, Json::Object(_)), "tool input stays JSON");

    // The answering result refers to that same id: the pairing survives.
    let paired = session.nodes.iter().any(|node| {
        node.content.iter().any(|block| {
            matches!(block, ClaudeBlock::ToolResult { tool_use_id, .. } if *tool_use_id == call.0)
        })
    });
    assert!(paired, "no tool_result refers to {}", call.0);
}

#[test]
fn normalises_string_content_into_one_text_block() {
    let session = branched();
    // The opening prompt is written as a bare string, not a block array.
    let first = session
        .nodes
        .iter()
        .find(|node| node.kind == NodeKind::User && !node.is_meta)
        .expect("a user node");
    assert_eq!(first.content.len(), 1);
    assert!(matches!(first.content[0], ClaudeBlock::Text(_)));
}

#[test]
fn keeps_thinking_and_out_of_band_payloads() {
    let session = branched();
    assert!(
        session.nodes.iter().any(|node| node
            .content
            .iter()
            .any(|block| matches!(block, ClaudeBlock::Thinking { .. }))),
        "thinking blocks parse"
    );
    assert!(
        session
            .nodes
            .iter()
            .any(|node| node.tool_use_result.is_some()),
        "toolUseResult is carried beside the tool_result block"
    );
    assert!(
        session
            .nodes
            .iter()
            .any(|node| node.kind == NodeKind::Attachment && node.attachment.is_some()),
        "attachment payloads are carried"
    );
    assert!(
        session
            .nodes
            .iter()
            .any(|node| node.kind == NodeKind::System && node.subtype.is_some()),
        "system subtypes are carried"
    );
}

#[test]
fn tolerates_garbage_and_unknown_types_without_losing_the_file() {
    let text = [
        r#"{"type":"user","uuid":"a","parentUuid":null,"message":{"role":"user","content":"hi"}}"#,
        "not json at all",
        "",
        r#"{"type":"brand-new-line-shape","sessionId":"s"}"#,
        r#"{"type":"assistant","uuid":"b","parentUuid":"a","message":{"role":"assistant","content":[{"type":"text","text":"yo"}]}}"#,
        // A chain type with no uuid cannot be placed, and counts as
        // malformed rather than silently vanishing.
        r#"{"type":"assistant","parentUuid":"b","message":{"role":"assistant","content":[]}}"#,
        // A line with no `type` is damage, and must not be filed under an
        // empty-string "unknown type" that a diagnostic would then print.
        r#"{"uuid":"c","parentUuid":"b"}"#,
    ].join("\n");
    let session = ClaudeSession::parse("s.jsonl", &text);
    assert_eq!(session.nodes.len(), 2);
    assert_eq!(session.malformed_lines, 3);
    assert_eq!(session.unknown_types.len(), 1);
    assert_eq!(session.unknown_types[0], ("brand-new-line-shape".to_string(), 1));
}

#[test]
fn a_real_branch_yields_two_chains_that_share_a_prefix() {
    let session = branched();
    let points = session.branch_points();
    assert_eq!(points.len(), 1, "the fixture forks in exactly one place");
    let point = &points[0];
    assert_eq!(point.parent, "00000000-0000-4000-8000-000000000016");
    assert_eq!(point.children.len(), 2);

    // Both children resolve to full chains; both contain the shared
    // parent; neither contains the other's tip. That is the property a
    // flat top-to-bottom read gets wrong.
    let left = session.resolve_chain(&point.children[0]);
    let right = session.resolve_chain(&point.children[1]);
    assert_eq!(left.stop, ChainStop::Root);
    assert_eq!(right.stop, ChainStop::Root);
    for chain in [&left, &right] {
        assert!(
            chain
                .nodes(&session)
                .iter()
                .any(|node| node.uuid == point.parent),
            "each branch descends from the fork"
        );
    }
    assert!(
        !left
            .nodes(&session)
            .iter()
            .any(|node| node.uuid == point.children[1])
    );
    assert!(
        !right
            .nodes(&session)
            .iter()
            .any(|node| node.uuid == point.children[0])
    );

    // The abandoned branch is genuinely shorter, which is why resuming
    // from the file's line count would over-count the conversation.
    let resume = session.resume_chain();
    assert!(resume.len() < session.nodes.len());
}

#[test]
fn a_chain_is_root_first_and_parent_linked() {
    let session = branched();
    let chain = session.resume_chain();
    assert_eq!(chain.stop, ChainStop::Root);
    let nodes = chain.nodes(&session);
    assert!(nodes.len() > 10, "the fixture's main chain is long");
    assert!(nodes[0].parent_uuid.is_none(), "root first");
    for pair in nodes.windows(2) {
        assert_eq!(
            pair[1].parent_uuid.as_deref(),
            Some(pair[0].uuid.as_str()),
            "consecutive chain entries are parent → child"
        );
    }
    assert_eq!(nodes.last().map(|node| node.uuid.as_str()), session.tip());

    // `replayable` is the same chain minus the agent's own chrome. The
    // fixture's chain ends on a `system` line and opens on an attachment,
    // so this is a strict subset, and it is what part two maps.
    let replayable = chain.replayable(&session);
    assert!(!replayable.is_empty());
    assert!(replayable.len() < nodes.len());
    assert!(
        replayable
            .iter()
            .all(|node| node.kind.is_message() && !node.is_meta && !node.is_sidechain)
    );
}

#[test]
fn tip_prefers_last_prompt_and_falls_back_to_file_order() {
    let session = linear();
    assert_eq!(
        session.tip(),
        Some("00000000-0000-4000-8000-000000000007"),
        "last-prompt names the tip"
    );

    // A session killed mid-turn has a leafUuid pointing at a line that is
    // no longer the tip, or none at all: fall back to the last node.
    let text = [
        r#"{"type":"user","uuid":"a","parentUuid":null,"message":{"role":"user","content":"hi"}}"#,
        r#"{"type":"assistant","uuid":"b","parentUuid":"a","message":{"role":"assistant","content":[{"type":"text","text":"yo"}]}}"#,
    ].join("\n");
    let unfinished = ClaudeSession::parse("s.jsonl", &text);
    assert_eq!(unfinished.tip(), Some("b"));

    // A leafUuid naming a line this file does not have is ignored, not
    // obeyed: obeying it would resume an empty conversation.
    let stale = ClaudeSession::parse(
        "s.jsonl",
        &format!("{text}\n{}", r#"{"type":"last-prompt","leafUuid":"gone"}"#),
    );
    assert_eq!(stale.meta.leaf_uuid.as_deref(), Some("gone"));
    assert_eq!(stale.tip(), Some("b"));
}

#[test]
fn a_cycle_terminates_instead_of_hanging() {
    // The agent cannot write this; a truncated-and-recovered file or a
    // hand edit can, and the reader must not spin on it.
    let text = [
        r#"{"type":"user","uuid":"a","parentUuid":"c","message":{"role":"user","content":"1"}}"#,
        r#"{"type":"assistant","uuid":"b","parentUuid":"a","message":{"role":"assistant","content":[]}}"#,
        r#"{"type":"user","uuid":"c","parentUuid":"b","message":{"role":"user","content":"2"}}"#,
    ].join("\n");
    let session = ClaudeSession::parse("cycle.jsonl", &text);
    let chain = session.resolve_chain("c");
    assert_eq!(chain.stop, ChainStop::Cycle("c".to_string()));
    assert_eq!(chain.len(), 3, "every node once, none twice");
    let mut seen: Vec<&str> = chain
        .nodes(&session)
        .iter()
        .map(|node| node.uuid.as_str())
        .collect();
    seen.sort_unstable();
    assert_eq!(seen, vec!["a", "b", "c"]);

    // The degenerate case: a node that is its own parent.
    let selfish = ClaudeSession::parse(
        "cycle.jsonl",
        r#"{"type":"user","uuid":"x","parentUuid":"x","message":{"role":"user","content":"1"}}"#,
    );
    let chain = selfish.resolve_chain("x");
    assert_eq!(chain.stop, ChainStop::Cycle("x".to_string()));
    assert_eq!(chain.len(), 1);

    // And a whole file that is one cycle still terminates through the
    // public entry point.
    assert!(!session.resume_chain().is_empty());
}

#[test]
fn missing_parents_multiple_roots_and_orphans() {
    let text = [
        // Root one, whose parent is simply absent.
        r#"{"type":"user","uuid":"a","parentUuid":null,"message":{"role":"user","content":"1"}}"#,
        r#"{"type":"assistant","uuid":"b","parentUuid":"a","message":{"role":"assistant","content":[]}}"#,
        // Root two: a fresh conversation in the same file, as after
        // `/clear`.
        r#"{"type":"user","uuid":"c","parentUuid":null,"message":{"role":"user","content":"2"}}"#,
        // An orphan: names a parent that this file does not contain.
        r#"{"type":"assistant","uuid":"d","parentUuid":"compacted-away","message":{"role":"assistant","content":[]}}"#,
    ].join("\n");
    let session = ClaudeSession::parse("s.jsonl", &text);
    let roots: Vec<&str> = session.roots().iter().map(|n| n.uuid.as_str()).collect();
    assert_eq!(roots, vec!["a", "c"]);
    let orphans: Vec<&str> = session.orphans().iter().map(|n| n.uuid.as_str()).collect();
    assert_eq!(orphans, vec!["d"]);

    let chain = session.resolve_chain("d");
    assert_eq!(
        chain.stop,
        ChainStop::MissingParent("compacted-away".to_string()),
        "a dangling parent ends the walk, it does not fail it"
    );
    assert_eq!(chain.len(), 1, "what this file does have is still returned");

    // A leaf that is not in the file at all is distinguishable from one
    // whose ancestry is.
    let unknown = session.resolve_chain("never-existed");
    assert_eq!(unknown.stop, ChainStop::UnknownLeaf("never-existed".into()));
    assert!(unknown.is_empty());

    // Two roots means two leaves plus the orphan.
    let leaves: Vec<&str> = session.leaves().iter().map(|n| n.uuid.as_str()).collect();
    assert_eq!(leaves, vec!["b", "c", "d"]);
}

#[test]
fn a_fork_survives_the_loss_of_its_parent() {
    // Compaction rewrites the history above a point and keeps what hangs
    // below it. A session compacted and *then* rewound has two children of
    // a uuid the file no longer contains: still a fork the picker must
    // offer, even though there is no line to anchor it to.
    let text = [
        r#"{"type":"user","uuid":"a","parentUuid":"compacted-away","message":{"role":"user","content":"1"}}"#,
        r#"{"type":"user","uuid":"b","parentUuid":"compacted-away","message":{"role":"user","content":"2"}}"#,
    ].join("\n");
    let session = ClaudeSession::parse("s.jsonl", &text);
    let points = session.branch_points();
    assert_eq!(points.len(), 1);
    assert_eq!(points[0].parent, "compacted-away");
    assert_eq!(points[0].children, vec!["a", "b"]);
    assert_eq!(session.preview().branch_points, 1);

    // Ordering is total even when several forks share the "not in this
    // file" sort key, which is otherwise at the mercy of the hasher.
    let text = format!(
        "{text}\n{}\n{}",
        r#"{"type":"user","uuid":"c","parentUuid":"also-gone","message":{"role":"user","content":"3"}}"#,
        r#"{"type":"user","uuid":"d","parentUuid":"also-gone","message":{"role":"user","content":"4"}}"#,
    );
    let session = ClaudeSession::parse("s.jsonl", &text);
    let points = session.branch_points();
    let parents: Vec<&str> = points.iter().map(|point| point.parent.as_str()).collect();
    assert_eq!(parents, vec!["also-gone", "compacted-away"]);
}

#[test]
fn an_empty_or_headerless_file_does_not_panic() {
    let empty = ClaudeSession::parse("empty.jsonl", "");
    assert!(empty.nodes.is_empty());
    assert_eq!(empty.tip(), None);
    assert!(empty.resume_chain().is_empty());
    assert_eq!(
        empty.session_id, "empty",
        "the filename is the session id of last resort"
    );
    assert_eq!(empty.preview().title, "empty");
    assert_eq!(empty.preview().title_source, TitleSource::SessionId);
}

#[test]
fn preview_uses_the_ai_title_and_counts_only_the_resume_chain() {
    let session = branched();
    let preview = session.preview();
    assert_eq!(preview.title, "Redacted session title");
    assert_eq!(preview.title_source, TitleSource::AiTitle);
    assert_eq!(preview.branch_points, 1);
    assert_eq!(preview.cwd.as_deref(), Some("/home/user/projects/demo"));
    assert_eq!(preview.git_branch.as_deref(), Some("work"));
    assert!(preview.started <= preview.updated);
    assert!(preview.started.is_some());

    // Fewer than the file's replayable messages, because one branch was
    // abandoned. This is the number the picker must show.
    let all_replayable = session
        .nodes
        .iter()
        .filter(|node| node.is_replayable())
        .count();
    assert!(preview.message_count > 0);
    assert!(
        preview.message_count < all_replayable,
        "{} of {} messages are on the resume chain",
        preview.message_count,
        all_replayable
    );
}

#[test]
fn preview_falls_back_to_the_first_real_prompt() {
    // No `ai-title`, and the first two user turns are the agent's own
    // slash-command plumbing: the title must be the third.
    let text = [
        r#"{"type":"user","uuid":"a","parentUuid":null,"isMeta":true,"message":{"role":"user","content":"<local-command-caveat>ignore me</local-command-caveat>"}}"#,
        r#"{"type":"user","uuid":"b","parentUuid":"a","message":{"role":"user","content":"<command-name>/model</command-name>"}}"#,
        r#"{"type":"user","uuid":"c","parentUuid":"b","message":{"role":"user","content":"  explain\n  the parser  "}}"#,
    ].join("\n");
    let session = ClaudeSession::parse("s.jsonl", &text);
    let preview = session.preview();
    assert_eq!(preview.title, "explain the parser");
    assert_eq!(preview.title_source, TitleSource::FirstPrompt);
}

/// A resume replays the conversation, not the agent's own chrome.
#[test]
fn slash_command_chrome_and_api_errors_are_not_conversation() {
    let text = [
        r#"{"type":"user","uuid":"a","parentUuid":null,"message":{"role":"user","content":"rename the parser"}}"#,
        r#"{"type":"user","uuid":"b","parentUuid":"a","message":{"role":"user","content":"<command-name>/model</command-name>"}}"#,
        r#"{"type":"user","uuid":"c","parentUuid":"b","message":{"role":"user","content":"<system-reminder>be nice</system-reminder>"}}"#,
        r#"{"type":"assistant","uuid":"d","parentUuid":"c","isApiErrorMessage":true,"message":{"role":"assistant","content":[{"type":"text","text":"API Error: 529 overloaded"}]}}"#,
        r#"{"type":"assistant","uuid":"e","parentUuid":"d","message":{"role":"assistant","content":[{"type":"tool_use","id":"t1","name":"Read","input":{}}]}}"#,
        r#"{"type":"user","uuid":"f","parentUuid":"e","message":{"role":"user","content":[{"type":"tool_result","tool_use_id":"t1","content":"file body"}]}}"#,
    ].join("\n");
    let session = ClaudeSession::parse("s.jsonl", &text);
    let replayed: Vec<&str> = session
        .nodes
        .iter()
        .filter(|node| node.is_replayable())
        .map(|node| node.uuid.as_str())
        .collect();
    assert_eq!(
        replayed,
        vec!["a", "e", "f"],
        "only the real prompt, the real assistant turn, and the tool result \
         that answers it"
    );
}

#[test]
fn long_titles_are_collapsed_and_clipped() {
    let long = "word ".repeat(60);
    let clipped = clip(&long);
    assert_eq!(clipped.chars().count(), TITLE_CHARS);
    assert!(clipped.ends_with('\u{2026}'));
    assert!(!clipped.contains("  "));
    // Multibyte input must not be cut mid-character.
    assert_eq!(clip("é".repeat(200).as_str()).chars().count(), TITLE_CHARS);
}

#[test]
fn project_slug_matches_the_directory_names_on_disk() {
    // The rule is "non-alphanumeric becomes a dash", not "path separators
    // become dashes".
    assert_eq!(project_slug("/home/teddy").name, "-home-teddy");
    assert_eq!(
        project_slug("/home/teddy/projects/reactor").name,
        "-home-teddy-projects-reactor"
    );
    assert!(project_slug("/home/teddy").exact);
    // Dots, underscores and spaces are all just "not alphanumeric".
    assert_eq!(
        project_slug("/a/.config/my_app v2").name,
        "-a--config-my-app-v2"
    );
}

#[test]
fn astral_characters_slugify_per_utf16_unit() {
    // A JS regex replaces per UTF-16 code unit, so an emoji (a surrogate
    // pair) becomes two dashes. Getting this wrong misses the directory.
    assert_eq!(project_slug("/a\u{1F600}b").name, "-a--b");
    // A BMP character is one unit and therefore one dash.
    assert_eq!(project_slug("/aéb").name, "-a-b");
}

#[test]
fn a_field_stands_only_on_the_kind_of_line_it_belongs_to() {
    let shared = r#""subtype":"note","content":"top","attachment":{"a":1},"message":{"id":"m","role":"user","model":"x","content":"hi"}}"#;
    let mut text = String::new();
    for kind in ["user", "attachment", "system", "progress"] {
        text.push_str(&format!(r#"{{"type":"{kind}","uuid":"{kind}",{shared}"#));
        text.push('\n');
    }
    let session = ClaudeSession::parse("s.jsonl", &text);
    assert_eq!(session.nodes.len(), 4);

    let user = &session.nodes[0];
    assert_eq!(user.role.as_deref(), Some("user"));
    assert_eq!(user.model.as_deref(), Some("x"));
    assert_eq!(user.text(), "hi");
    assert!(user.attachment.is_none());
    assert!(user.subtype.is_none());
    assert!(user.system_content.is_none());

    let attachment = &session.nodes[1];
    assert!(attachment.attachment.is_some());
    assert!(attachment.content.is_empty());

    let system = &session.nodes[2];
    assert_eq!(system.subtype.as_deref(), Some("note"));
    assert_eq!(system.system_content.as_deref(), Some("top"));
    assert!(system.role.is_none());
    assert!(system.attachment.is_none());

    let progress = &session.nodes[3];
    assert!(progress.content.is_empty());
    assert!(progress.model.is_none());
    assert_eq!(progress.message_id.as_deref(), Some("m"));
}

#[test]
fn one_undecodable_byte_costs_one_line_not_the_file() {
    let mut bytes = Vec::new();
    bytes.extend_from_slice(
        br#"{"type":"user","uuid":"a","parentUuid":null,"message":{"role":"user","content":"hi"}}"#,
    );
    bytes.push(b'\n');
    // Damage in the structure, not inside a string literal: lossily decoded
    // it becomes U+FFFD where a key was expected.
    bytes.extend_from_slice(br#"{"type":"user","uuid":"b","#);
    bytes.push(0xff); // not valid UTF-8 in any position
    bytes.extend_from_slice(br#""parentUuid":"a","message":{"role":"user","content":"x"}}"#);
    bytes.push(b'\n');
    bytes.extend_from_slice(
        br#"{"type":"assistant","uuid":"c","parentUuid":"a","message":{"role":"assistant","content":[{"type":"text","text":"yo"}]}}"#,
    );
    bytes.push(b'\n');

    let session = ClaudeSession::parse("torn.jsonl", &String::from_utf8_lossy(&bytes));
    let uuids: Vec<&str> = session.nodes.iter().map(|n| n.uuid.as_str()).collect();
    assert_eq!(uuids, vec!["a", "c"], "the lines around the damage survive");
    assert_eq!(session.malformed_lines, 1);
}

#[test]
fn a_long_path_truncates_and_is_matched_by_prefix() {
    let deep = format!("/{}", "segment/".repeat(40));
    let slug = project_slug(&deep);
    assert!(!slug.exact);
    assert_eq!(slug.name.len(), PROJECT_SLUG_MAX);

    // A hash is appended on disk; only the prefix is reproducible.
    let on_disk = format!("{}-1a2b3c", slug.name);
    let dirs = vec!["unrelated".to_string(), on_disk.clone()];
    assert_eq!(project_dir("/root", &deep, false, &dirs), Some(format!("/root/{on_disk}")));

    // Two long paths sharing a prefix are ambiguous, and guessing would
    // hand back another project's transcripts.
    let dirs = vec![on_disk.clone(), format!("{}-9z8y7x", slug.name)];
    assert_eq!(project_dir("/root", &deep, false, &dirs), None);
    let (found, verify) = session_dirs("/root", &deep, false, &dirs);
    assert_eq!(
        found,
        vec![format!("/root/{on_disk}"), format!("/root/{}-9z8y7x", slug.name)]
    );
    assert!(verify, "rows of a directory found by its start are checked");
}

#[test]
fn list_sessions_finds_and_orders_the_projects_transcripts() {
    let cwd = "/home/user/projects/demo";
    let dir = "/root/-home-user-projects-demo";
    assert_eq!(project_dir("/root", cwd, true, &vec![]).as_deref(), Some(dir));
    let (dirs, verify) = session_dirs("/root", cwd, true, &vec![]);
    assert_eq!(dirs, vec![dir]);
    assert!(!verify);

    // The branched session ran later than the linear one; most recent first.
    let rows = vec![linear().preview(), branched().preview()];
    let previews = list_rows(rows, cwd, verify);
    assert_eq!(previews.len(), 2);
    assert!(previews[0].updated >= previews[1].updated);
    assert_eq!(previews[0].branch_points, 1);

    // A working directory with no sessions yields nothing rather than
    // another project's.
    let (dirs, _) = session_dirs("/root", "/home/user/projects/other", false, &vec![]);
    assert!(dirs.is_empty());
    let rows = vec![linear().preview()];
    assert!(list_rows(rows, "/home/user/projects/other", true).is_empty());
}

#[test]
fn session_files_ignores_directories_and_other_extensions() {
    let files = ["b.jsonl", "a.jsonl", "a.json", "c.JSONL"];
    let files: Vec<String> = files.iter().map(|f| f.to_string()).collect();
    assert_eq!(session_files("/d", &files), vec!["/d/a.jsonl", "/d/b.jsonl", "/d/c.JSONL"]);
}

#[test]
fn no_write_api_reachable_from_this_module() {
    // The module is handed texts and gives values back: what it read is as it
    // was, and reading it again gives the same.
    let text = branched_text();
    let before = text.clone();
    let session = ClaudeSession::parse("branched.jsonl", &text);
    let again = ClaudeSession::parse("branched.jsonl", &text);
    assert_eq!(session.resume_chain(), again.resume_chain());
    assert_eq!(session.branch_points(), again.branch_points());
    assert_eq!(session.leaves(), again.leaves());
    assert_eq!(session.orphans(), again.orphans());
    assert_eq!(session.roots(), again.roots());
    assert_eq!(session.preview(), again.preview());
    assert!(import("branched.jsonl", &text, None, IMAGE_LIMIT).is_ok());
    assert_eq!(text, before);
}

#[test]
fn a_message_knows_its_kind_and_its_own_chrome() {
    assert_eq!(NodeKind::from_type("user"), Some(NodeKind::User));
    assert_eq!(NodeKind::from_type("system"), Some(NodeKind::System));
    assert_eq!(NodeKind::from_type("summary"), None);
    assert!(NodeKind::Assistant.is_message());
    assert!(!NodeKind::Attachment.is_message());
    assert!(is_synthetic_prompt("  <command-name>/x</command-name>"));
    assert!(is_synthetic_prompt("<local-command-stdout>"));
    assert!(!is_synthetic_prompt("compare <a> with <b>"));
    assert!(!is_synthetic_prompt("<div>why?</div>"));
}

#[test]
fn timestamps_are_moments() {
    let session = branched();
    // 2026-06-09T09:04:00.25Z
    assert_eq!(
        session.nodes[0].timestamp,
        Some(Stamp { secs: 1_780_995_840, nanos: 250_000_000 })
    );
    let odd = ClaudeSession::parse(
        "s.jsonl",
        r#"{"type":"user","uuid":"a","timestamp":"yesterday","message":{"content":"x"}}"#,
    );
    assert_eq!(odd.nodes[0].timestamp, None);
    let zoned = ClaudeSession::parse(
        "s.jsonl",
        r#"{"type":"user","uuid":"a","timestamp":"1970-01-01T02:00:01+02:00"}"#,
    );
    assert_eq!(zoned.nodes[0].timestamp, Some(Stamp { secs: 1, nanos: 0 }));
}

#[test]
fn every_kind_of_block_is_kept() {
    let session = ClaudeSession::parse(
        "s.jsonl",
        r#"{"type":"user","uuid":"a","message":{"role":"user","content":[{"type":"text","text":"t"},{"type":"image","source":{"data":"aGk=","media_type":"image/png"}},{"type":"tool_result","tool_use_id":"x","content":"no","is_error":true},{"type":"redacted_thinking","data":"z"},"loose"]}}"#,
    );
    let blocks = &session.nodes[0].content;
    assert!(matches!(&blocks[0], ClaudeBlock::Text(t) if t == "t"));
    assert!(matches!(&blocks[1], ClaudeBlock::Image { source } if source.get_text("data").is_some()));
    assert!(matches!(&blocks[2], ClaudeBlock::ToolResult { is_error: true, .. }));
    assert!(matches!(&blocks[3], ClaudeBlock::Other { kind, .. } if kind == "redacted_thinking"));
    assert_eq!(session.nodes[0].text(), "t");
}

#[test]
fn pull_requests_and_agent_names_are_read() {
    let session = ClaudeSession::parse(
        "s.jsonl",
        "{\"type\":\"agent-name\",\"agentName\":\"scout\"}\n\
         {\"type\":\"pr-link\",\"prNumber\":7,\"prRepository\":\"o/r\",\"prUrl\":\"https://e/7\"}\n\
         {\"type\":\"pr-link\",\"prNumber\":\"seven\"}\n\
         {\"type\":\"file-history-snapshot\"}\n",
    );
    assert_eq!(session.meta.agent_name.as_deref(), Some("scout"));
    assert_eq!(session.meta.pr_links.len(), 1);
    assert_eq!(session.meta.pr_links[0].number, 7);
    assert_eq!(session.meta.pr_links[0].repository, "o/r");
    assert_eq!(session.malformed_lines, 1);
    assert!(session.unknown_types.is_empty());
}

// -- importing ---------------------------------------------------------------

#[test]
fn a_linear_session_converts_to_the_messages_it_holds() {
    let session = linear();
    let messages = converted(&session, &session.resume_chain());
    assert_eq!(messages.len(), 2, "one prompt, one reply");
    assert_eq!(messages[0].role, Role::User);
    assert_eq!(messages[1].role, Role::Assistant);
    assert_eq!(messages[0].content, vec![ContentBlock::Text("explain it".to_string())]);
}

#[test]
fn tool_calls_keep_their_provider_ids_and_gain_their_names() {
    // The ids are the only correlation there is between a call and the
    // result that answers it, so an import that renumbered them would
    // hand the model a history no provider will accept.
    let session = branched();
    let messages = converted(&session, &session.resume_chain());

    let mut calls = std::collections::HashMap::new();
    let mut results = 0usize;
    for message in &messages {
        for block in &message.content {
            match block {
                ContentBlock::ToolUse { id, name, .. } => {
                    assert!(id.starts_with("toolu_"), "{id}");
                    calls.insert(id.clone(), name.clone());
                }
                ContentBlock::ToolResult { tool_use_id, name, .. } => {
                    results += 1;
                    assert_eq!(
                        calls.get(tool_use_id),
                        Some(name),
                        "a result must carry the name of the call it answers"
                    );
                    assert_ne!(name, UNKNOWN_TOOL);
                }
                _ => {}
            }
        }
    }
    assert!(results > 0, "the session has tool results");
}

#[test]
fn a_tool_result_lands_on_a_tool_message_before_the_call_is_answered() {
    // Tool results go on tool messages; the file has them on a `user` line.
    // Getting this wrong produces a history whose tool results are prose,
    // which providers reject.
    let session = branched();
    let messages = converted(&session, &session.resume_chain());
    let tool_messages = messages.iter().filter(|m| m.role == Role::Tool).count();
    assert!(tool_messages > 0);
    for message in &messages {
        let has_result = message
            .content
            .iter()
            .any(|block| matches!(block, ContentBlock::ToolResult { .. }));
        if has_result {
            assert_eq!(message.role, Role::Tool, "results only on tool messages");
        }
    }
}

#[test]
fn reasoning_is_not_replayed() {
    // Reasoning signatures were issued for another client's request, so
    // carrying them across would fail the first turn of the resumed session.
    let session = branched();
    assert!(
        session.nodes.iter().any(|node| node
            .content
            .iter()
            .any(|block| matches!(block, ClaudeBlock::Thinking { .. }))),
        "the session is only meaningful if it has reasoning in it"
    );
    let messages = converted(&session, &session.resume_chain());
    for message in &messages {
        for block in &message.content {
            assert!(
                !matches!(block, ContentBlock::Text(text) if text.contains("hm")),
                "no reasoning survives the import"
            );
        }
    }
}

/// The child of the fork that the resumed conversation does not go through.
fn abandoned(session: &ClaudeSession) -> String {
    let points = session.branch_points();
    assert_eq!(points.len(), 1, "the session forks exactly once");
    let resumed = session.resume_chain();
    points[0]
        .children
        .iter()
        .find(|child| {
            let tip = session.resolve_chain(child).positions.last().copied();
            tip.is_some_and(|at| !resumed.positions.contains(&at))
        })
        .expect("one of the two branches was abandoned")
        .clone()
}

#[test]
fn the_branch_that_is_imported_is_the_one_that_was_chosen() {
    // The file is a graph, so which conversation comes back is decided by the
    // leaf, not by reading the file top to bottom. The branch that was
    // abandoned must not appear in the import.
    let session = branched();
    assert_eq!(session.branch_points().len(), 1, "the file forks exactly once");
    let other = converted(&session, &session.resolve_chain(&abandoned(&session)));
    let resumed = converted(&session, &session.resume_chain());
    assert!(!other.is_empty());
    assert!(!resumed.is_empty());
    assert_ne!(other.len(), resumed.len(), "two conversations, not one");

    // A top-to-bottom read of the file would have taken every replayable
    // line in it, the abandoned branch with them.
    let all = session.nodes.iter().filter(|node| node.is_replayable()).count();
    assert!(resumed.len() < all, "the file holds more than one chain");
    assert!(other.len() < all);
}

#[test]
fn an_unknown_leaf_is_reported_rather_than_silently_resuming_something_else() {
    let session = branched();
    let chain = session.resolve_chain("not-a-uuid");
    assert!(matches!(chain.stop, ChainStop::UnknownLeaf(_)));
    assert!(converted(&session, &chain).is_empty());
}

#[test]
fn a_failed_tool_result_says_so_in_the_text() {
    // A tool-result block has no error flag, so it has to survive as text or
    // a resumed model reads a failure as a success.
    let plain = result_text(&text_json("ok"), false);
    assert_eq!(plain, "ok");
    let failed = result_text(&text_json("no such file"), true);
    assert!(failed.starts_with("error: "), "{failed}");

    // Block arrays are flattened to their text; a bare null is empty
    // rather than the string "null".
    let blocks = Json::Array(vec![
        object(vec![("type", text_json("text")), ("text", text_json("one"))]),
        object(vec![("type", text_json("image")), ("source", Json::Object(vec![]))]),
        object(vec![("type", text_json("text")), ("text", text_json("two"))]),
    ]);
    assert_eq!(result_text(&blocks, false), "one\ntwo");
    assert_eq!(result_text(&Json::Null, false), "");
    // Anything else is written out.
    let other = object(vec![
        ("b", Json::Array(vec![Json::Bool(true), Json::Null])),
        ("n", Json::Number(Some(3), "3".to_string())),
    ]);
    assert_eq!(result_text(&other, false), "{\"b\":[true,null],\"n\":3}");
}

#[test]
fn an_oversized_or_linked_image_is_dropped_at_this_seam() {
    let small = object(vec![
        ("type", text_json("base64")),
        ("media_type", text_json("image/png")),
        ("data", text_json("aGk=")),
    ]);
    let image = image_block(&small, IMAGE_LIMIT).expect("a small image is taken");
    assert!(matches!(image, ContentBlock::Image { mime, .. } if mime == "image/png"));

    // No bytes to take.
    let linked = object(vec![
        ("type", text_json("url")),
        ("url", text_json("https://x.invalid/a.png")),
    ]);
    assert!(image_block(&linked, IMAGE_LIMIT).is_none());

    // Past the cap every other seam applies. History is re-sent on every
    // turn, so an import is the worst place to make an exception.
    let huge = "A".repeat(IMAGE_LIMIT / 3 * 4 + 16);
    let big = object(vec![("media_type", text_json("image/png")), ("data", text_json(&huge))]);
    assert!(image_block(&big, IMAGE_LIMIT).is_none());
}

/// What a picker calls: it has to carry the chosen *branch* and nothing else,
/// and report enough for a surface with no terminal to explain what happened.
#[test]
fn importing_a_branched_session_writes_only_the_chosen_branch() {
    let text = branched_text();
    let session = branched();
    let tip = session.tip().map(str::to_string);
    let draft = import("branched.jsonl", &text, tip.as_deref(), IMAGE_LIMIT).expect("the tip");
    let imported = import_into(
        "new".to_string(),
        "/sessions/new.jsonl".to_string(),
        "branched.jsonl".to_string(),
        "Other Agent".to_string(),
        draft,
    );
    assert_eq!(imported.source, "branched.jsonl");
    assert_eq!(imported.source_id, session.session_id);
    assert_eq!(imported.stop, ChainStop::Root);
    assert_eq!(imported.caveat(), None, "a clean chain says nothing extra");
    assert!(imported.summary().contains("read, not modified"));

    // The file holds more than one conversation; the import holds one.
    let all = session.nodes.iter().filter(|node| node.is_replayable()).count();
    assert!(imported.messages > 0);
    assert!(
        imported.messages < all,
        "{} of {all} — a top-to-bottom read would have taken them all",
        imported.messages
    );

    // It is reported by the id and the path it was written under.
    assert_eq!(imported.id, "new");
    assert_eq!(imported.path, "/sessions/new.jsonl");

    // The abandoned branch is not in it: the file forks exactly once, and the
    // child off the resumed chain is another conversation.
    assert_eq!(session.branch_points().len(), 1);
    let draft = import("branched.jsonl", &text, Some(&abandoned(&session)), IMAGE_LIMIT)
        .expect("import the abandoned branch on purpose");
    let other = import_into(
        "other".to_string(),
        "/sessions/other.jsonl".to_string(),
        "branched.jsonl".to_string(),
        "Other Agent".to_string(),
        draft,
    );
    assert_ne!(other.messages, imported.messages, "two conversations, not one");
    assert_ne!(other.id, imported.id, "and two sessions");
}

/// A leaf that names nothing is refused rather than quietly resolving to
/// some other conversation.
#[test]
fn importing_an_unknown_leaf_writes_no_session() {
    let err = import("branched.jsonl", &branched_text(), Some("not-a-uuid"), IMAGE_LIMIT)
        .expect_err("an unknown leaf is an error");
    assert!(err.contains("not-a-uuid"), "{err}");
    assert!(import("empty.jsonl", "", None, IMAGE_LIMIT).is_err(), "nothing to replay");
}

#[test]
fn a_result_whose_call_is_off_the_chain_keeps_a_placeholder_name() {
    // The chain starts mid-conversation and the first tool result on it
    // answers something no longer in the file. The result is real and the
    // model needs it; the name is genuinely unknown, so it says so.
    let session = branched();
    let chain = session.resume_chain();
    let start = chain
        .positions
        .iter()
        .position(|&at| {
            session.nodes[at]
                .content
                .iter()
                .any(|block| matches!(block, ClaudeBlock::ToolResult { .. }))
        })
        .expect("the session answers a tool call");
    let tail = Chain {
        positions: chain.positions[start..].to_vec(),
        stop: chain.stop.clone(),
    };

    let messages = converted(&session, &tail);
    let (name, tool_use_id) = messages
        .iter()
        .flat_map(|message| &message.content)
        .find_map(|block| match block {
            ContentBlock::ToolResult { name, tool_use_id, .. } => Some((name, tool_use_id)),
            _ => None,
        })
        .expect("the window opens on a tool result");
    assert_eq!(name, UNKNOWN_TOOL);
    assert!(!tool_use_id.is_empty(), "the id still correlates");
}

#[test]
fn a_broken_chain_is_reported_with_the_import() {
    let orphan = "{\"type\":\"user\",\"uuid\":\"a\",\"parentUuid\":\"gone\",\
                  \"message\":{\"role\":\"user\",\"content\":\"hi\"}}";
    let draft = import_session(ClaudeSession::parse("s.jsonl", orphan), None, IMAGE_LIMIT)
        .expect("what is there is imported");
    assert_eq!(draft.stop, ChainStop::MissingParent("gone".to_string()));
    let imported = import_into(
        "new".to_string(),
        "p".to_string(),
        "s.jsonl".to_string(),
        "Other Agent".to_string(),
        draft,
    );
    assert_eq!(
        imported.summary(),
        "imported 1 message(s) from Other Agent session s — its file was read, not modified\n\
         The chain stops at gone, which is not in that file: normal after a /clear or a \
         compaction, and everything before it is not recoverable here."
    );

    let looped = "{\"type\":\"user\",\"uuid\":\"a\",\"parentUuid\":\"a\",\
                  \"message\":{\"role\":\"user\",\"content\":\"hi\"}}";
    let draft = import("s.jsonl", looped, None, IMAGE_LIMIT).expect("imported");
    let imported = import_into(
        "new".to_string(),
        "p".to_string(),
        "s.jsonl".to_string(),
        "Other Agent".to_string(),
        draft,
    );
    assert!(imported.caveat().expect("a caveat").starts_with("The chain loops back at a"));
}

#[test]
fn a_resume_lists_refuses_or_imports() {
    let request = |peer: bool, list: bool| Request { peer, session: None, leaf: None, list };
    assert_eq!(request(false, true).route(0), Route::Run);
    assert_eq!(request(true, false).route(0), Route::Refuse);
    assert_eq!(request(true, true).route(2), Route::List);
    assert_eq!(request(true, false).route(2), Route::Import);
    assert!(no_sessions(&peer(), "/p").starts_with("Other Agent has no sessions recorded for /p."));
}

#[test]
fn a_session_is_chosen_by_row_or_by_the_start_of_its_id() {
    let previews = vec![linear().preview(), branched().preview()];
    assert_eq!(
        pick_session(&previews, "00000000", &peer()),
        Err("\"00000000\" matches 2 sessions; give more of the id".to_string())
    );
    assert_eq!(
        pick_session(&previews, "zz", &peer()),
        Err("no Other Agent session for this directory has an id starting with \"zz\"; \
             `wizard resume --other --list` prints the ids"
            .to_string())
    );
    let one = vec![linear().preview()];
    assert_eq!(pick_session(&one, "0000", &peer()), Ok(0));

    assert_eq!(pick_row(" 2 \n", 2), Ok(Some(1)));
    assert_eq!(pick_row("\n", 2), Ok(None));
    assert_eq!(pick_row("Q\n", 2), Ok(None));
    assert_eq!(pick_row("3\n", 2), Err("there is no row 3".to_string()));
    assert_eq!(pick_row("0\n", 2), Err("there is no row 0".to_string()));
    assert_eq!(
        pick_row("two\n", 2),
        Err("\"two\" is not one of the row numbers above".to_string())
    );
}

#[test]
fn a_picker_row_says_what_would_come_back() {
    let session = branched();
    let count = session.resume_chain().replayable(&session).len();
    assert_eq!(
        preview_row(1, &session.preview()),
        format!(
            "  1  Redacted session title\n     2026-06-09 09:47  {count} message(s)  \
             1 branch point\n     {}",
            id(2)
        )
    );
    let undated = ClaudeSession::parse("s.jsonl", "").preview();
    assert_eq!(preview_row(12, &undated), " 12  s\n     undated  0 message(s)  unbranched\n     s");
}

#[test]
fn a_line_that_gives_a_field_twice_is_damage() {
    let parse = |line: &str| ClaudeSession::parse("s.jsonl", line);
    let good = "{\"type\":\"user\",\"uuid\":\"a\",\"message\":{\"role\":\"user\",\"content\":\"hi\"}}";
    assert_eq!((parse(good).nodes.len(), parse(good).malformed_lines), (1, 0));

    let twice = good.replace("\"uuid\":\"a\"", "\"uuid\":\"a\",\"uuid\":\"b\"");
    assert_eq!((parse(&twice).nodes.len(), parse(&twice).malformed_lines), (0, 1));
    let inside = good.replace("\"role\":\"user\"", "\"role\":\"user\",\"role\":null");
    assert_eq!((parse(&inside).nodes.len(), parse(&inside).malformed_lines), (0, 1));

    // What is not read may come twice, and a message has names of its own.
    let unread = good.replace("\"uuid\":\"a\"", "\"uuid\":\"a\",\"x\":1,\"x\":\"\\\",\\\"uuid\"");
    assert_eq!((parse(&unread).nodes.len(), parse(&unread).malformed_lines), (1, 0));
    let own = good.replace("\"role\":\"user\"", "\"role\":\"user\",\"uuid\":1,\"uuid\":2");
    assert_eq!((parse(&own).nodes.len(), parse(&own).malformed_lines), (1, 0));
}

#[test]
fn what_stands_beside_a_lines_fields_is_read_past() {
    let count = |beside: &str, inside: &str| {
        let line = format!(
            "{{{beside}\"type\":\"user\",\"uuid\":\"a\",\"message\":{{{inside}\"role\":\"user\",\"content\":\"hi\"}}}}"
        );
        let session = ClaudeSession::parse("s.jsonl", &line);
        (session.nodes.len(), session.malformed_lines)
    };
    let deep = format!("\"x\":{}{},", "{\"a\":[".repeat(200), "]}".repeat(200));
    for beside in ["\"x\":\"\\ud800\",", "\"x\":-1e999,", deep.as_str()] {
        assert_eq!(count(beside, ""), (1, 0), "{beside}");
        assert_eq!(count("", beside), (1, 0), "{beside}");
    }
    for damage in ["\"x\":01,", "\"x\":tru,", "\"\\udc00\":1,", "\"x\":[,"] {
        assert_eq!(count(damage, ""), (0, 1), "{damage}");
        assert_eq!(count("", damage), (0, 1), "{damage}");
    }
    // What is read has to be right.
    assert_eq!(count("\"cwd\":\"\\ud800\",", ""), (0, 1));
    assert_eq!(count("", "\"usage\":1e999,"), (0, 1));
    assert_eq!(count("\"attachment\":[1,{\"x\":\"y\"}],", "\"id\":\"m\","), (1, 0));
}

#[test]
fn a_field_counts_by_how_deep_it_stands_in_its_line() {
    // A line is one level, its message a second, and there are 127.
    let nested = |levels: usize| format!("{}1{}", "[".repeat(levels), "]".repeat(levels));
    let at = |levels: usize| {
        let line = format!("{{\"type\":\"system\",\"uuid\":\"a\",\"content\":{}}}", nested(levels));
        ClaudeSession::parse("s.jsonl", &line).malformed_lines
    };
    assert_eq!((at(126), at(127)), (0, 1));
    let inside = |levels: usize| {
        let line = format!(
            "{{\"type\":\"user\",\"uuid\":\"a\",\"message\":{{\"usage\":{}}}}}",
            nested(levels)
        );
        ClaudeSession::parse("s.jsonl", &line).malformed_lines
    };
    assert_eq!((inside(125), inside(126)), (0, 1));
}

#[test]
fn clipping_a_title_again_changes_nothing() {
    for text in ["", "  a\n\tb  ", &"word ".repeat(40), &format!("{} x y", "a".repeat(78))] {
        let once = clip(text);
        assert!(once.chars().count() <= TITLE_CHARS);
        assert_eq!(clip(&once), once);
    }
}
