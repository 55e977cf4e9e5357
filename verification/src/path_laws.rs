//! What holds of paths, and of the fields of JSON values.

use crate::json::{find_field, JsonView};
use crate::paths::{
    expanded, extension, file_name, joined, last_index, last_part, names_image, stem,
};
use crate::text::lower;
use crate::text_laws::lacks;
use vstd::prelude::*;

verus! {

/// A character is found where it last stands.
pub proof fn law_a_character_is_found_last(a: Seq<char>, c: char, b: Seq<char>)
    requires
        lacks(b, c),
    ensures
        last_index(a + seq![c] + b, c) == a.len(),
        last_index(b, c) == -1,
    decreases b.len(),
{
    let s = a + seq![c] + b;
    if b.len() == 0 {
        assert(s.last() == c);
    } else {
        assert(b[b.len() - 1] != c);
        let d = b.drop_last();
        assert(lacks(d, c)) by {
            assert forall|i: int| 0 <= i < d.len() implies #[trigger] d[i] != c by {
                assert(d[i] == b[i]);
            }
        }
        assert(s.last() == b.last());
        assert(s.drop_last() =~= a + seq![c] + d);
        law_a_character_is_found_last(a, c, d);
    }
}

/// The text names a file: something without a slash that is neither the directory
/// itself nor the one above.
pub open spec fn is_file_name(name: Seq<char>) -> bool {
    name.len() > 0 && lacks(name, '/') && name != "."@ && name != ".."@
}

/// A file's name is what stands behind the last slash of its path; slashes at the
/// end are passed over.
pub proof fn law_a_path_ends_in_its_name(dir: Seq<char>, name: Seq<char>)
    requires
        is_file_name(name),
    ensures
        file_name(name) == Some(name),
        file_name(dir + seq!['/'] + name) == Some(name),
        file_name(dir + seq!['/'] + name + seq!['/']) == Some(name),
{
    let p = dir + seq!['/'] + name;
    law_a_character_is_found_last(dir, '/', name);
    assert(p.skip(dir.len() as int + 1) =~= name);
    assert(name.skip(0) =~= name);
    let q = p + seq!['/'];
    law_a_character_is_found_last(p, '/', Seq::empty());
    assert(q + Seq::<char>::empty() =~= q);
    assert(q.skip(p.len() as int + 1) =~= Seq::empty());
    assert(q.take(p.len() as int) =~= p);
    assert(last_part(q) == last_part(p));
}

/// A name's extension is what stands behind its last dot, and its stem what stands
/// before it; a dot at the start is part of the name.
pub proof fn law_a_name_is_stem_and_extension(a: Seq<char>, e: Seq<char>)
    requires
        lacks(e, '.'),
    ensures
        a.len() > 0 ==> extension(a + seq!['.'] + e) == Some(e),
        a.len() > 0 ==> stem(a + seq!['.'] + e) == a,
        extension(e) is None,
        stem(e) == e,
        extension(seq!['.'] + e) is None,
        stem(seq!['.'] + e) == seq!['.'] + e,
{
    let n = a + seq!['.'] + e;
    law_a_character_is_found_last(a, '.', e);
    assert(n.skip(a.len() as int + 1) =~= e);
    assert(n.take(a.len() as int) =~= a);
    let h = seq!['.'] + e;
    law_a_character_is_found_last(Seq::empty(), '.', e);
    assert(Seq::<char>::empty() + seq!['.'] + e =~= h);
}

/// A path is seen from a directory: an absolute one is itself, and another stands
/// behind the directory and one slash.
pub proof fn law_a_path_is_seen_from_a_directory(root: Seq<char>, p: Seq<char>)
    ensures
        p.len() > 0 && p[0] == '/' ==> joined(root, p) == p,
        !(p.len() > 0 && p[0] == '/') && root.len() > 0 && root.last() != '/' ==> joined(root, p)
            == root + seq!['/'] + p,
        !(p.len() > 0 && p[0] == '/') && root.len() > 0 && root.last() == '/' ==> joined(root, p)
            == root + p,
        !(p.len() > 0 && p[0] == '/') && root.len() == 0 ==> joined(root, p) == p,
{
    reveal_strlit("/");
    assert("/"@ =~= seq!['/']);
    if root.len() == 0 {
        assert(root + p =~= p);
    }
}

/// Only a tilde that stands alone, or before a separator, is the home directory.
pub proof fn law_a_tilde_is_the_home_directory(home: Seq<char>, rest: Seq<char>, text: Seq<char>)
    ensures
        expanded(seq!['~'], Some(home)) == home,
        expanded(seq!['~', '/'] + rest, Some(home)) == home + seq!['/'] + rest,
        text.len() == 0 || text[0] != '~' ==> expanded(text, Some(home)) == text,
        expanded(text, None) == text,
{
    let t = seq!['~', '/'] + rest;
    assert(t[0] == '~' && t[1] == '/');
    assert(t.skip(1) =~= seq!['/'] + rest);
    assert(home + (seq!['/'] + rest) =~= home + seq!['/'] + rest);
    assert(home + seq!['~'].skip(1) =~= home);
}

/// A path names an image by the extension of its file, in small letters or
/// capitals.
pub proof fn law_an_image_is_named_by_its_extension(dir: Seq<char>, a: Seq<char>, e: Seq<char>)
    requires
        a.len() > 0,
        lacks(e, '.'),
        is_file_name(a + seq!['.'] + e),
    ensures
        names_image(dir + seq!['/'] + (a + seq!['.'] + e)) <==> (lower(e) == "png"@ || lower(e)
            == "jpg"@ || lower(e) == "jpeg"@ || lower(e) == "gif"@ || lower(e) == "webp"@),
{
    law_a_path_ends_in_its_name(dir, a + seq!['.'] + e);
    law_a_name_is_stem_and_extension(a, e);
}

/// A field of an object is found by its key, the first of them if there are more;
/// another value has none.
pub proof fn law_a_field_is_found_by_its_key(
    fields: Seq<(Seq<char>, JsonView)>,
    key: Seq<char>,
    i: int,
)
    requires
        0 <= i <= fields.len(),
        i < fields.len() ==> fields[i].0 == key,
        forall|k: int| 0 <= k < i ==> (#[trigger] fields[k]).0 != key,
    ensures
        JsonView::Object(fields).field(key) == if i < fields.len() {
            Some(fields[i].1)
        } else {
            None
        },
        JsonView::Null.field(key) is None,
        i < fields.len() && fields[i].1 is Text ==> JsonView::Object(fields).field_text(key) == Some(
            fields[i].1->Text_0,
        ),
        i < fields.len() && !(fields[i].1 is Text) ==> JsonView::Object(fields).field_text(key)
            is None,
{
    lemma_field(fields, key, i);
}

proof fn lemma_field(fields: Seq<(Seq<char>, JsonView)>, key: Seq<char>, i: int)
    requires
        0 <= i <= fields.len(),
        i < fields.len() ==> fields[i].0 == key,
        forall|k: int| 0 <= k < i ==> (#[trigger] fields[k]).0 != key,
    ensures
        find_field(fields, key) == if i < fields.len() {
            Some(fields[i].1)
        } else {
            None
        },
    decreases fields.len(),
{
    if i > 0 {
        assert(fields[0].0 != key);
        let d = fields.drop_first();
        assert forall|k: int| 0 <= k < i - 1 implies (#[trigger] d[k]).0 != key by {
            assert(d[k] == fields[k + 1]);
        }
        lemma_field(d, key, i - 1);
    }
}

} // verus!
