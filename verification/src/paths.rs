//! Paths as text: names, extensions, joining, and the home directory.

use crate::text::{chars_of, lower, lowered, same, slice_text};
use vstd::prelude::*;

verus! {

/// The last position of `c` in `s`; -1 where there is none.
pub open spec fn last_index(s: Seq<char>, c: char) -> int
    decreases s.len(),
{
    if s.len() == 0 {
        -1
    } else if s.last() == c {
        s.len() - 1
    } else {
        last_index(s.drop_last(), c)
    }
}

pub proof fn lemma_last_index(s: Seq<char>, c: char)
    ensures
        -1 <= last_index(s, c) < s.len(),
        last_index(s, c) >= 0 ==> s[last_index(s, c)] == c,
    decreases s.len(),
{
    if s.len() > 0 && s.last() != c {
        lemma_last_index(s.drop_last(), c);
    }
}

/// The number of characters up to and with the last `c` before `end`; 0 where
/// there is none.
pub fn after_last(s: &[char], end: usize, c: char) -> (r: usize)
    requires
        end <= s@.len(),
    ensures
        r == last_index(s@.take(end as int), c) + 1,
        r <= end,
{
    let mut i: usize = end;
    while i > 0
        invariant
            i <= end <= s@.len(),
            last_index(s@.take(end as int), c) == last_index(s@.take(i as int), c),
        decreases i,
    {
        assert(s@.take(i as int).drop_last() =~= s@.take(i - 1));
        if s[i - 1] == c {
            return i;
        }
        i -= 1;
    }
    0
}

/// The path starts at the root.
pub open spec fn is_absolute(p: Seq<char>) -> bool {
    p.len() > 0 && p[0] == '/'
}

/// `p` as seen from `root`.
pub open spec fn joined(root: Seq<char>, p: Seq<char>) -> Seq<char> {
    if is_absolute(p) {
        p
    } else if root.len() == 0 || root.last() == '/' {
        root + p
    } else {
        root + "/"@ + p
    }
}

/// `p` as seen from `root`.
pub fn join_path(root: &str, p: &str) -> (r: String)
    ensures
        r@ == joined(root@, p@),
{
    let rs = chars_of(root);
    let ps = chars_of(p);
    if ps.len() > 0 && ps[0] == '/' {
        return p.to_string();
    }
    let mut out = root.to_string();
    if rs.len() > 0 && rs[rs.len() - 1] != '/' {
        out.append("/");
    }
    out.append(p);
    out
}

/// The last part of a path that names something.
pub open spec fn last_part(p: Seq<char>) -> Option<Seq<char>>
    decreases p.len(),
    via last_part_decreases
{
    let i = last_index(p, '/');
    let part = p.skip(i + 1);
    if part.len() > 0 && part != "."@ {
        Some(part)
    } else if i < 0 {
        None
    } else {
        last_part(p.take(i))
    }
}

#[via_fn]
proof fn last_part_decreases(p: Seq<char>) {
    lemma_last_index(p, '/');
}

/// The file's own name.
pub open spec fn file_name(p: Seq<char>) -> Option<Seq<char>> {
    match last_part(p) {
        Some(name) => if name == ".."@ {
            None
        } else {
            Some(name)
        },
        None => None,
    }
}

/// The file's own name.
pub fn name_of(p: &str) -> (r: Option<String>)
    ensures
        crate::json::text_opt(r) == file_name(p@),
{
    let cs = chars_of(p);
    let mut end: usize = cs.len();
    assert(p@.take(end as int) =~= p@);
    loop
        invariant
            cs@ == p@,
            end <= cs.len(),
            last_part(p@) == last_part(p@.take(end as int)),
        decreases end,
    {
        let i = after_last(&cs, end, '/');
        let ghost head = p@.take(end as int);
        proof {
            lemma_last_index(head, '/');
        }
        let part = slice_text(&cs, i, end);
        assert(part@ =~= head.skip(i as int));
        if i < end && !same(&part, ".") {
            assert(last_part(head) == Some(part@));
            if same(&part, "..") {
                return None;
            }
            return Some(part);
        }
        if i == 0 {
            assert(last_part(head) is None);
            return None;
        }
        assert(head.take(i - 1) =~= p@.take(i - 1));
        end = i - 1;
    }
}

/// What stands before a name's extension.
pub open spec fn stem(name: Seq<char>) -> Seq<char> {
    let dot = last_index(name, '.');
    if dot > 0 {
        name.take(dot)
    } else {
        name
    }
}

/// A name's extension.
pub open spec fn extension(name: Seq<char>) -> Option<Seq<char>> {
    let dot = last_index(name, '.');
    if dot > 0 {
        Some(name.skip(dot + 1))
    } else {
        None
    }
}

/// What stands before a name's extension.
pub fn stem_of(name: &str) -> (r: String)
    ensures
        r@ == stem(name@),
{
    let cs = chars_of(name);
    assert(cs@.take(cs@.len() as int) =~= cs@);
    let after = after_last(&cs, cs.len(), '.');
    if after > 1 {
        let s = slice_text(&cs, 0, after - 1);
        assert(s@ =~= name@.take(after - 1));
        s
    } else {
        name.to_string()
    }
}

/// A name's extension.
pub fn extension_of(name: &str) -> (r: Option<String>)
    ensures
        crate::json::text_opt(r) == extension(name@),
{
    let cs = chars_of(name);
    assert(cs@.take(cs@.len() as int) =~= cs@);
    let after = after_last(&cs, cs.len(), '.');
    if after > 1 {
        let s = slice_text(&cs, after, cs.len());
        assert(s@ =~= name@.skip(after as int));
        Some(s)
    } else {
        None
    }
}

/// The extensions of the images a model reads.
pub open spec fn is_image_extension(e: Seq<char>) -> bool {
    e == "png"@ || e == "jpg"@ || e == "jpeg"@ || e == "gif"@ || e == "webp"@
}

/// The path names an image a model reads, by its extension in any case.
pub open spec fn names_image(p: Seq<char>) -> bool {
    match file_name(p) {
        Some(name) => match extension(name) {
            Some(e) => is_image_extension(lower(e)),
            None => false,
        },
        None => false,
    }
}

/// Whether the path names an image a model reads.
pub fn is_image_path(p: &str) -> (r: bool)
    ensures
        r == names_image(p@),
{
    match name_of(p) {
        Some(name) => match extension_of(&name) {
            Some(e) => {
                let e = lowered(&e);
                same(&e, "png") || same(&e, "jpg") || same(&e, "jpeg") || same(&e, "gif") || same(
                    &e,
                    "webp",
                )
            },
            None => false,
        },
        None => false,
    }
}

/// The text starts with the mark for the home directory.
pub open spec fn is_homed(text: Seq<char>) -> bool {
    text.len() > 0 && text[0] == '~' && (text.len() == 1 || text[1] == '/' || text[1] == '\\')
}

/// The text with the home directory, where one is known, in place of its mark.
pub open spec fn expanded(text: Seq<char>, home: Option<Seq<char>>) -> Seq<char> {
    match home {
        Some(h) => if is_homed(text) {
            h + text.skip(1)
        } else {
            text
        },
        None => text,
    }
}

/// Calls `shellexpand::tilde`, which puts the user's home directory, where the
/// system knows one, in place of a leading `~` that stands alone or before a
/// separator, and returns any other text as it is.
#[verifier::external_body]
pub(crate) fn tilde(text: &str) -> (r: String)
    ensures
        exists|home: Option<Seq<char>>| r@ == #[trigger] expanded(text@, home),
{
    shellexpand::tilde(text).into_owned()
}

/// `text` as a path seen from `root`, `~` meaning the home directory.
pub fn resolve(text: &str, root: &str) -> (r: String)
    ensures
        exists|home: Option<Seq<char>>|
            r@ == joined(root@, #[trigger] expanded(text@, home)),
        !is_homed(text@) ==> r@ == joined(root@, text@),
{
    let t = tilde(text);
    join_path(root, &t)
}

} // verus!
