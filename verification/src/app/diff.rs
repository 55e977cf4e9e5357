//! The contents of the diff sidebar.

use crate::text::{
    blank, contains_text, has_text, is_blank, is_empty_text, lines, replace, replaced, split_lines,
    texts,
};
use vstd::prelude::*;

verus! {

/// The path is Wizard's own state directory or inside it, at the repository's
/// root or below it, with either path separator: one of its parts is `.wizard`.
pub open spec fn in_state_dir(path: Seq<char>) -> bool {
    has_text("/"@ + replace(path, "\\"@, "/"@) + "/"@, "/.wizard/"@)
}

/// Is this repo-relative path inside Wizard's own state dir (`.wizard/`)?
pub fn is_wizard_state_path(path: &str) -> (r: bool)
    ensures
        r == in_state_dir(path@),
{
    proof {
        reveal_strlit("\\");
    }
    let mut parts = "/".to_string();
    parts.append(&replaced(path, "\\", "/"));
    parts.append("/");
    contains_text(&parts, "/.wizard/")
}

/// The lines that name a file of the user's.
pub open spec fn users_files(l: Seq<Seq<char>>) -> Seq<Seq<char>>
    decreases l.len(),
{
    if l.len() == 0 {
        Seq::empty()
    } else {
        let before = users_files(l.drop_last());
        if is_blank(l.last()) || in_state_dir(l.last()) {
            before
        } else {
            before.push(l.last())
        }
    }
}

/// The untracked files a listing names, without Wizard's own state.
pub fn untracked_files(listing: &str) -> (r: Vec<String>)
    ensures
        texts(r@) == users_files(lines(listing@)),
{
    let all = split_lines(listing);
    let ghost l = texts(all@);
    let mut out: Vec<String> = Vec::new();
    let mut i: usize = 0;
    assert(texts(out@) =~= users_files(l.take(0)));
    while i < all.len()
        invariant
            i <= all.len(),
            l == texts(all@),
            texts(out@) == users_files(l.take(i as int)),
        decreases all.len() - i,
    {
        assert(l.take(i + 1).drop_last() =~= l.take(i as int));
        assert(l.take(i + 1).last() == all@[i as int]@);
        if !(blank(&all[i]) || is_wizard_state_path(&all[i])) {
            let ghost before = out@;
            out.push(all[i].clone());
            assert(texts(out@) =~= texts(before).push(all@[i as int]@));
        }
        i += 1;
    }
    assert(l.take(l.len() as int) =~= l);
    out
}

/// A section behind what there is so far, under a heading; a blank one is left
/// out.
pub open spec fn section(so_far: Seq<char>, heading: Seq<char>, body: Seq<char>) -> Seq<char> {
    if is_blank(body) {
        so_far
    } else {
        (if so_far.len() == 0 {
            so_far
        } else {
            so_far.push('\n')
        }) + heading + body
    }
}

/// The texts one after the other.
pub open spec fn concat(t: Seq<Seq<char>>) -> Seq<char>
    decreases t.len(),
{
    if t.len() == 0 {
        Seq::empty()
    } else {
        concat(t.drop_last()) + t.last()
    }
}

/// The sidebar: unstaged, staged, then untracked changes; a word when there is
/// none.
pub open spec fn diff_sidebar(
    unstaged: Seq<char>,
    staged: Seq<char>,
    untracked: Seq<Seq<char>>,
) -> Seq<char> {
    let first = section(Seq::empty(), Seq::empty(), unstaged);
    let second = section(first, "# --- staged ---\n"@, staged);
    let all = section(second, "# --- untracked ---\n"@, concat(untracked));
    if all.len() == 0 {
        "(working tree clean)"@
    } else {
        all
    }
}

fn add_section(text: &mut String, heading: &str, body: &str)
    ensures
        final(text)@ == section(old(text)@, heading@, body@),
{
    if !blank(body) {
        if !is_empty_text(text) {
            text.push('\n');
        }
        text.append(heading);
        text.append(body);
    }
}

/// Compose the `/diff` sidebar contents from git's answers: the unstaged diff,
/// the staged diff, and one diff for each untracked file.
pub fn git_diff_text(unstaged: &str, staged: &str, untracked: &Vec<String>) -> (r: String)
    ensures
        r@ == diff_sidebar(unstaged@, staged@, texts(untracked@)),
{
    let mut all = String::new();
    let ghost t = texts(untracked@);
    let mut i: usize = 0;
    assert(all@ =~= concat(t.take(0)));
    while i < untracked.len()
        invariant
            i <= untracked.len(),
            t == texts(untracked@),
            all@ == concat(t.take(i as int)),
        decreases untracked.len() - i,
    {
        assert(t.take(i + 1).drop_last() =~= t.take(i as int));
        assert(t.take(i + 1).last() == untracked@[i as int]@);
        all.append(&untracked[i]);
        i += 1;
    }
    assert(t.take(t.len() as int) =~= t);
    let mut text = String::new();
    assert(text@ =~= Seq::empty());
    add_section(&mut text, "", unstaged);
    proof {
        reveal_strlit("");
        assert(""@ =~= Seq::empty());
    }
    add_section(&mut text, "# --- staged ---\n", staged);
    add_section(&mut text, "# --- untracked ---\n", &all);
    if is_empty_text(&text) {
        return "(working tree clean)".to_string();
    }
    text
}

} // verus!
