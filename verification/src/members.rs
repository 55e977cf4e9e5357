//! The parts of a JSON object or array as they are written, repeated names
//! included.

use crate::json::{json_of, parse_json, Json, JsonView};
use crate::text::{chars_of, is_white, is_whitespace, same, slice_text, texts};
use vstd::prelude::*;

verus! {

/// The first place at or after `i` that is not white.
pub open spec fn white_end(s: Seq<char>, i: int) -> int
    decreases s.len() - i,
{
    if 0 <= i < s.len() && is_white(s[i]) {
        white_end(s, i + 1)
    } else {
        i
    }
}

/// The place behind the closing quote of the string that `i` is inside of.
pub open spec fn string_end(s: Seq<char>, i: int) -> int
    decreases s.len() - i,
{
    if !(0 <= i < s.len()) {
        s.len() as int
    } else if s[i] == '"' {
        i + 1
    } else if s[i] == '\\' {
        if i + 1 < s.len() {
            string_end(s, i + 2)
        } else {
            s.len() as int
        }
    } else {
        string_end(s, i + 1)
    }
}

/// The place of the comma or bracket that ends the value at `i`, which is
/// `depth` brackets deep.
pub open spec fn value_end(s: Seq<char>, i: int, depth: nat) -> int
    decreases s.len() - i,
    via value_end_decreases
{
    if !(0 <= i < s.len()) {
        s.len() as int
    } else if s[i] == '"' {
        value_end(s, string_end(s, i + 1), depth)
    } else if s[i] == '{' || s[i] == '[' {
        value_end(s, i + 1, depth + 1)
    } else if s[i] == '}' || s[i] == ']' {
        if depth == 0 {
            i
        } else {
            value_end(s, i + 1, (depth - 1) as nat)
        }
    } else if s[i] == ',' && depth == 0 {
        i
    } else {
        value_end(s, i + 1, depth)
    }
}

#[via_fn]
proof fn value_end_decreases(s: Seq<char>, i: int, depth: nat) {
    if 0 <= i < s.len() {
        lemma_string_end(s, i + 1);
    }
}

proof fn lemma_white_end(s: Seq<char>, i: int)
    requires
        0 <= i <= s.len(),
    ensures
        i <= white_end(s, i) <= s.len(),
    decreases s.len() - i,
{
    if i < s.len() && is_white(s[i]) {
        lemma_white_end(s, i + 1);
    }
}

proof fn lemma_string_end(s: Seq<char>, i: int)
    requires
        0 <= i <= s.len(),
    ensures
        i <= string_end(s, i) <= s.len(),
    decreases s.len() - i,
{
    if i < s.len() && s[i] != '"' {
        if s[i] == '\\' {
            if i + 1 < s.len() {
                lemma_string_end(s, i + 2);
            }
        } else {
            lemma_string_end(s, i + 1);
        }
    }
}

proof fn lemma_value_end(s: Seq<char>, i: int, depth: nat)
    requires
        0 <= i <= s.len(),
    ensures
        i <= value_end(s, i, depth) <= s.len(),
    decreases s.len() - i,
{
    if i < s.len() {
        if s[i] == '"' {
            lemma_string_end(s, i + 1);
            lemma_value_end(s, string_end(s, i + 1), depth);
        } else if s[i] == '{' || s[i] == '[' {
            lemma_value_end(s, i + 1, depth + 1);
        } else if s[i] == '}' || s[i] == ']' {
            if depth > 0 {
                lemma_value_end(s, i + 1, (depth - 1) as nat);
            }
        } else if s[i] != ',' || depth > 0 {
            lemma_value_end(s, i + 1, depth);
        }
    }
}

/// Where the value of a member starts, whose name ends at `e`.
pub open spec fn value_start(s: Seq<char>, e: int) -> int {
    let colon = white_end(s, e);
    if colon < s.len() {
        colon + 1
    } else {
        s.len() as int
    }
}

/// The members written from `i` on: for each the name, in its quotes, and the
/// value.
pub open spec fn members_from(s: Seq<char>, i: int) -> Seq<(Seq<char>, Seq<char>)>
    decreases s.len() - i,
    via members_from_decreases
{
    let q = white_end(s, i);
    if !(0 <= i <= s.len() && q < s.len() && s[q] == '"') {
        Seq::empty()
    } else {
        let e = string_end(s, q + 1);
        let start = value_start(s, e);
        let v = value_end(s, start, 0);
        let first = (s.subrange(q, e), s.subrange(start, v));
        if v < s.len() && s[v] == ',' {
            seq![first] + members_from(s, v + 1)
        } else {
            seq![first]
        }
    }
}

proof fn lemma_member(s: Seq<char>, i: int)
    requires
        0 <= i <= s.len(),
        white_end(s, i) < s.len(),
    ensures
        ({
            let q = white_end(s, i);
            let e = string_end(s, q + 1);
            let start = value_start(s, e);
            i <= q && q + 1 <= e <= white_end(s, e) <= s.len() && e <= start <= value_end(s, start, 0)
                <= s.len()
        }),
{
    let q = white_end(s, i);
    lemma_white_end(s, i);
    lemma_string_end(s, q + 1);
    let e = string_end(s, q + 1);
    lemma_white_end(s, e);
    lemma_value_end(s, value_start(s, e), 0);
}

#[via_fn]
proof fn members_from_decreases(s: Seq<char>, i: int) {
    if 0 <= i <= s.len() && white_end(s, i) < s.len() {
        lemma_member(s, i);
    }
}

/// The members of an object's text; none of any other text.
pub open spec fn members(text: Seq<char>) -> Seq<(Seq<char>, Seq<char>)> {
    let q = white_end(text, 0);
    if q < text.len() && text[q] == '{' {
        members_from(text, q + 1)
    } else {
        Seq::empty()
    }
}

/// The items written from `i` on.
pub open spec fn items_from(s: Seq<char>, i: int) -> Seq<Seq<char>>
    decreases s.len() - i,
    via items_from_decreases
{
    if !(0 <= i <= s.len()) {
        Seq::empty()
    } else {
        let v = value_end(s, i, 0);
        if v < s.len() && s[v] == ',' {
            seq![s.subrange(i, v)] + items_from(s, v + 1)
        } else {
            seq![s.subrange(i, v)]
        }
    }
}

#[via_fn]
proof fn items_from_decreases(s: Seq<char>, i: int) {
    if 0 <= i <= s.len() {
        lemma_value_end(s, i, 0);
    }
}

/// The items of an array's text; none of any other text.
pub open spec fn items(text: Seq<char>) -> Seq<Seq<char>> {
    let q = white_end(text, 0);
    if q < text.len() && text[q] == '[' {
        items_from(text, q + 1)
    } else {
        Seq::empty()
    }
}

/// What a name in its quotes says.
pub open spec fn named(token: Seq<char>) -> Option<Seq<char>> {
    match json_of(token) {
        Some(JsonView::Text(t)) => Some(t),
        _ => None,
    }
}

/// Whether an object's text writes one of `fields` more than once.
pub open spec fn repeats(text: Seq<char>, fields: Seq<Seq<char>>) -> bool {
    let m = members(text);
    exists|i: int, j: int|
        0 <= i < j < m.len() && named(#[trigger] m[i].0) == named(#[trigger] m[j].0) && (named(
            m[i].0,
        ) matches Some(name) && fields.contains(name))
}

/// The value that an object's text writes for a name, the first time it does.
pub open spec fn written(m: Seq<(Seq<char>, Seq<char>)>, name: Seq<char>) -> Option<Seq<char>>
    decreases m.len(),
{
    if m.len() == 0 {
        None
    } else if named(m[0].0) == Some(name) {
        Some(m[0].1)
    } else {
        written(m.drop_first(), name)
    }
}

/// Whether a text begins as an object does.
pub open spec fn opens_object(text: Seq<char>) -> bool {
    let q = white_end(text, 0);
    q < text.len() && text[q] == '{'
}

/// Whether every name that an object's text writes can be read.
pub open spec fn names_read(text: Seq<char>) -> bool {
    forall|i: int| 0 <= i < members(text).len() ==> named((#[trigger] members(text)[i]).0) is Some
}

/// Whether a name in its quotes is one of `fields`.
pub open spec fn names_one_of(token: Seq<char>, fields: Seq<Seq<char>>) -> bool {
    named(token) matches Some(name) && fields.contains(name)
}

/// The members whose names are of `fields`, in their order.
pub open spec fn of_fields(m: Seq<(Seq<char>, Seq<char>)>, fields: Seq<Seq<char>>) -> Seq<
    (Seq<char>, Seq<char>),
>
    decreases m.len(),
{
    if m.len() == 0 {
        Seq::empty()
    } else if names_one_of(m.last().0, fields) {
        of_fields(m.drop_last(), fields).push(m.last())
    } else {
        of_fields(m.drop_last(), fields)
    }
}

/// Members written one after the other, behind an opening bracket.
pub open spec fn open_text(m: Seq<(Seq<char>, Seq<char>)>) -> Seq<char>
    decreases m.len(),
{
    if m.len() == 0 {
        "{"@
    } else {
        open_text(m.drop_last()) + (if m.len() > 1 {
            ","@
        } else {
            ""@
        }) + m.last().0 + ":"@ + m.last().1
    }
}

/// The text of an object with some members.
pub open spec fn object_text(m: Seq<(Seq<char>, Seq<char>)>) -> Seq<char> {
    open_text(m) + "}"@
}

/// An object's text with nothing but the members of `fields`; any other text as
/// it is.
pub open spec fn only(text: Seq<char>, fields: Seq<Seq<char>>) -> Seq<char> {
    if opens_object(text) {
        object_text(of_fields(members(text), fields))
    } else {
        text
    }
}

/// A record written as a list of its fields' values, in their order, as the
/// object it stands for; any other value as it is.
pub open spec fn spread(j: JsonView, fields: Seq<Seq<char>>) -> JsonView {
    match j {
        JsonView::Array(values) => if values.len() == fields.len() {
            JsonView::Object(Seq::new(fields.len(), |i: int| (fields[i], values[i])))
        } else {
            j
        },
        _ => j,
    }
}

/// The object that a record written as a list stands for.
pub fn spread_fields(j: Json, fields: &Vec<&'static str>) -> (r: Json)
    ensures
        r@ == spread(j@, field_names(fields@)),
{
    match &j {
        Json::Array(values) => {
            assert(field_names(fields@).len() == fields@.len());
            assert(j@->Array_0.len() == values@.len());
            if values.len() != fields.len() {
                return j;
            }
            let ghost names = field_names(fields@);
            let mut out: Vec<(String, Json)> = Vec::new();
            let mut i: usize = 0;
            while i < values.len()
                invariant
                    i <= values.len(),
                    values.len() == fields.len(),
                    out.len() == i,
                    names == field_names(fields@),
                    forall|k: int|
                        0 <= k < i ==> (#[trigger] out@[k]).0@ == names[k] && out@[k].1@
                            == values@[k]@,
                decreases values.len() - i,
            {
                out.push((fields[i].to_string(), values[i].copy()));
                i += 1;
            }
            let r = Json::Object(out);
            assert(r@->Object_0 =~= spread(j@, names)->Object_0);
            r
        },
        _ => j,
    }
}

fn find_white_end(s: &Vec<char>, from: usize) -> (r: usize)
    requires
        from <= s.len(),
    ensures
        r == white_end(s@, from as int),
        from <= r <= s.len(),
{
    let mut i: usize = from;
    while i < s.len() && is_whitespace(s[i])
        invariant
            from <= i <= s.len(),
            white_end(s@, from as int) == white_end(s@, i as int),
        decreases s.len() - i,
    {
        i += 1;
    }
    i
}

fn find_string_end(s: &Vec<char>, from: usize) -> (r: usize)
    requires
        from <= s.len(),
    ensures
        r == string_end(s@, from as int),
        from <= r <= s.len(),
{
    let mut i: usize = from;
    while i < s.len()
        invariant
            from <= i <= s.len(),
            string_end(s@, from as int) == string_end(s@, i as int),
        decreases s.len() - i,
    {
        if s[i] == '"' {
            return i + 1;
        }
        if s[i] == '\\' {
            if i + 1 == s.len() {
                return s.len();
            }
            i += 2;
        } else {
            i += 1;
        }
    }
    i
}

fn find_value_end(s: &Vec<char>, from: usize) -> (r: usize)
    requires
        from <= s.len(),
    ensures
        r == value_end(s@, from as int, 0),
        from <= r <= s.len(),
{
    let mut i: usize = from;
    let mut depth: usize = 0;
    while i < s.len()
        invariant
            from <= i <= s.len(),
            depth <= i,
            value_end(s@, from as int, 0) == value_end(s@, i as int, depth as nat),
        decreases s.len() - i,
    {
        if s[i] == '"' {
            i = find_string_end(s, i + 1);
        } else if s[i] == '{' || s[i] == '[' {
            i += 1;
            depth += 1;
        } else if s[i] == '}' || s[i] == ']' {
            if depth == 0 {
                return i;
            }
            i += 1;
            depth -= 1;
        } else if s[i] == ',' && depth == 0 {
            return i;
        } else {
            i += 1;
        }
    }
    i
}

pub open spec fn members_view(v: Seq<(String, String)>) -> Seq<(Seq<char>, Seq<char>)> {
    v.map_values(|x: (String, String)| (x.0@, x.1@))
}

/// Split an object's text into its members.
pub fn split_members(text: &str) -> (r: Vec<(String, String)>)
    ensures
        members_view(r@) == members(text@),
{
    let s = chars_of(text);
    let mut out: Vec<(String, String)> = Vec::new();
    assert(members_view(out@) =~= Seq::empty());
    let first = find_white_end(&s, 0);
    if first >= s.len() || s[first] != '{' {
        return out;
    }
    let mut i: usize = first + 1;
    loop
        invariant
            s@ == text@,
            i <= s.len(),
            members(text@) == members_view(out@) + members_from(s@, i as int),
        decreases s.len() - i,
    {
        let q = find_white_end(&s, i);
        if q >= s.len() || s[q] != '"' {
            assert(members_view(out@) + members_from(s@, i as int) =~= members_view(out@));
            return out;
        }
        proof {
            lemma_member(s@, i as int);
        }
        let e = find_string_end(&s, q + 1);
        let colon = find_white_end(&s, e);
        let start: usize = if colon < s.len() {
            colon + 1
        } else {
            s.len()
        };
        let v = find_value_end(&s, start);
        let ghost was = members_view(out@);
        let token = slice_text(&s, q, e);
        let value = slice_text(&s, start, v);
        out.push((token, value));
        assert(members_view(out@) =~= was.push((token@, value@)));
        if v < s.len() && s[v] == ',' {
            assert(was + members_from(s@, i as int) =~= members_view(out@) + members_from(
                s@,
                v + 1,
            ));
            i = v + 1;
        } else {
            assert(was + members_from(s@, i as int) =~= members_view(out@));
            return out;
        }
    }
}

/// Split an array's text into its items.
pub fn split_items(text: &str) -> (r: Vec<String>)
    ensures
        texts(r@) == items(text@),
{
    let s = chars_of(text);
    let mut out: Vec<String> = Vec::new();
    assert(texts(out@) =~= Seq::empty());
    let first = find_white_end(&s, 0);
    if first >= s.len() || s[first] != '[' {
        return out;
    }
    let mut i: usize = first + 1;
    loop
        invariant
            s@ == text@,
            i <= s.len(),
            items(text@) == texts(out@) + items_from(s@, i as int),
        decreases s.len() - i,
    {
        let v = find_value_end(&s, i);
        let ghost was = texts(out@);
        let item = slice_text(&s, i, v);
        out.push(item);
        assert(texts(out@) =~= was.push(item@));
        if v < s.len() && s[v] == ',' {
            assert(was + items_from(s@, i as int) =~= texts(out@) + items_from(s@, v + 1));
            i = v + 1;
        } else {
            assert(was + items_from(s@, i as int) =~= texts(out@));
            return out;
        }
    }
}

/// What a name in its quotes says.
pub fn read_name(token: &str) -> (r: Option<String>)
    ensures
        crate::json::text_opt(r) == named(token@),
{
    match parse_json(token) {
        Some(Json::Text(t)) => Some(t),
        _ => None,
    }
}

fn is_one_of(fields: &Vec<&'static str>, name: &str) -> (r: bool)
    ensures
        r == field_names(fields@).contains(name@),
{
    let ghost all = field_names(fields@);
    let mut i: usize = 0;
    while i < fields.len()
        invariant
            i <= fields.len(),
            all == field_names(fields@),
            forall|k: int| 0 <= k < i ==> (#[trigger] all[k]) != name@,
        decreases fields.len() - i,
    {
        assert(all[i as int] == fields@[i as int]@);
        if same(fields[i], name) {
            return true;
        }
        i += 1;
    }
    assert(all.len() == fields@.len());
    false
}

/// The names of a list of fields.
pub open spec fn field_names(fields: Seq<&'static str>) -> Seq<Seq<char>> {
    fields.map_values(|f: &'static str| f@)
}

/// Whether an object's text writes one of `fields` more than once.
pub fn repeats_a_field(text: &str, fields: &Vec<&'static str>) -> (r: bool)
    ensures
        r == repeats(text@, field_names(fields@)),
{
    let parts = split_members(text);
    let ghost m = members(text@);
    let ghost f = field_names(fields@);
    let mut seen: Vec<String> = Vec::new();
    let mut i: usize = 0;
    while i < parts.len()
        invariant
            i <= parts.len(),
            members_view(parts@) == m,
            m == members(text@),
            f == field_names(fields@),
            forall|k: int|
                0 <= k < i && (named(#[trigger] m[k].0) matches Some(name) && f.contains(name))
                    ==> texts(seen@).contains(named(m[k].0)->0),
            forall|x: int|
                0 <= x < seen@.len() ==> exists|k: int|
                    0 <= k < i && named(#[trigger] m[k].0) == Some(#[trigger] seen@[x]@),
            forall|a: int, b: int|
                0 <= a < b < i && named(#[trigger] m[a].0) == named(#[trigger] m[b].0) && (named(
                    m[a].0,
                ) matches Some(name) && f.contains(name)) ==> false,
        decreases parts.len() - i,
    {
        assert(m[i as int] == (parts@[i as int].0@, parts@[i as int].1@));
        let ghost was = seen@;
        if let Some(name) = read_name(&parts[i].0) {
            if is_one_of(fields, &name) {
                if crate::text::has_item(&seen, &name) {
                    proof {
                        let x = texts(seen@).index_of(name@);
                        assert(seen@[x]@ == name@);
                        let k = choose|k: int|
                            0 <= k < i && named(#[trigger] m[k].0) == Some(seen@[x]@);
                        assert(named(m[k].0) == named(m[i as int].0));
                    }
                    return true;
                }
                let ghost said = name@;
                seen.push(name);
                proof {
                    assert(texts(seen@) =~= texts(was).push(said));
                    assert forall|k: int|
                        0 <= k < i + 1 && (named(#[trigger] m[k].0) matches Some(n) && f.contains(
                            n,
                        )) implies texts(seen@).contains(named(m[k].0)->0) by {
                        if k < i {
                            let x = texts(was).index_of(named(m[k].0)->0);
                            assert(texts(seen@)[x] == named(m[k].0)->0);
                        } else {
                            assert(texts(seen@)[was.len() as int] == said);
                        }
                    }
                    assert forall|x: int| 0 <= x < seen@.len() implies exists|k: int|
                        0 <= k < i + 1 && named(#[trigger] m[k].0) == Some(
                            #[trigger] seen@[x]@,
                        ) by {
                        if x < was.len() {
                            assert(seen@[x] == was[x]);
                            let k = choose|k: int|
                                0 <= k < i && named(#[trigger] m[k].0) == Some(was[x]@);
                            assert(named(m[k].0) == Some(seen@[x]@));
                        } else {
                            assert(named(m[i as int].0) == Some(seen@[x]@));
                        }
                    }
                    assert forall|a: int, b: int|
                        0 <= a < b < i + 1 && named(#[trigger] m[a].0) == named(
                            #[trigger] m[b].0,
                        ) && (named(m[a].0) matches Some(n) && f.contains(n)) implies false by {
                        if b == i {
                            assert(texts(was).contains(named(m[a].0)->0));
                        }
                    }
                }
            }
        }
        i += 1;
    }
    false
}

/// The value that an object's text writes for a name, the first time it does.
pub fn find_written(text: &str, name: &str) -> (r: Option<String>)
    ensures
        crate::json::text_opt(r) == written(members(text@), name@),
{
    let parts = split_members(text);
    let ghost m = members(text@);
    let mut i: usize = 0;
    assert(m.skip(0) =~= m);
    while i < parts.len()
        invariant
            i <= parts.len(),
            members_view(parts@) == m,
            m == members(text@),
            written(m, name@) == written(m.skip(i as int), name@),
        decreases parts.len() - i,
    {
        assert(m.skip(i as int)[0] == (parts@[i as int].0@, parts@[i as int].1@));
        assert(m.skip(i as int).drop_first() =~= m.skip(i + 1));
        if let Some(said) = read_name(&parts[i].0) {
            if same(&said, name) {
                return Some(parts[i].1.clone());
            }
        }
        i += 1;
    }
    assert(m.skip(i as int).len() == 0);
    None
}

/// Whether a text begins as an object does.
pub fn is_object_text(text: &str) -> (r: bool)
    ensures
        r == opens_object(text@),
{
    let s = chars_of(text);
    let q = find_white_end(&s, 0);
    q < s.len() && s[q] == '{'
}

/// Whether every name that an object's text writes can be read.
pub fn reads_names(text: &str) -> (r: bool)
    ensures
        r == names_read(text@),
{
    let parts = split_members(text);
    let ghost m = members(text@);
    let mut i: usize = 0;
    while i < parts.len()
        invariant
            i <= parts.len(),
            members_view(parts@) == m,
            m == members(text@),
            forall|k: int| 0 <= k < i ==> named((#[trigger] m[k]).0) is Some,
        decreases parts.len() - i,
    {
        assert(m[i as int] == (parts@[i as int].0@, parts@[i as int].1@));
        if read_name(&parts[i].0).is_none() {
            return false;
        }
        i += 1;
    }
    assert(m.len() == parts@.len());
    true
}

/// The members of an object's text whose names are of `fields`.
pub fn keep_fields(text: &str, fields: &Vec<&'static str>) -> (r: Vec<(String, String)>)
    ensures
        members_view(r@) == of_fields(members(text@), field_names(fields@)),
{
    let parts = split_members(text);
    let ghost m = members(text@);
    let ghost f = field_names(fields@);
    let mut out: Vec<(String, String)> = Vec::new();
    let mut i: usize = 0;
    assert(m.take(0) =~= Seq::empty());
    assert(members_view(out@) =~= Seq::empty());
    while i < parts.len()
        invariant
            i <= parts.len(),
            members_view(parts@) == m,
            m == members(text@),
            f == field_names(fields@),
            members_view(out@) == of_fields(m.take(i as int), f),
        decreases parts.len() - i,
    {
        assert(m.take(i + 1).drop_last() =~= m.take(i as int));
        assert(m.take(i + 1).last() == (parts@[i as int].0@, parts@[i as int].1@));
        if let Some(name) = read_name(&parts[i].0) {
            if is_one_of(fields, &name) {
                let ghost was = members_view(out@);
                let kept = (parts[i].0.clone(), parts[i].1.clone());
                out.push(kept);
                assert(members_view(out@) =~= was.push((kept.0@, kept.1@)));
            }
        }
        i += 1;
    }
    assert(m.len() == parts@.len());
    assert(m.take(m.len() as int) =~= m);
    out
}

/// Write an object with some members.
pub fn write_object(parts: &Vec<(String, String)>) -> (r: String)
    ensures
        r@ == object_text(members_view(parts@)),
{
    let ghost m = members_view(parts@);
    let mut out = "{".to_string();
    let mut i: usize = 0;
    assert(m.take(0) =~= Seq::empty());
    while i < parts.len()
        invariant
            i <= parts.len(),
            m == members_view(parts@),
            out@ == open_text(m.take(i as int)),
        decreases parts.len() - i,
    {
        assert(m.take(i + 1).drop_last() =~= m.take(i as int));
        assert(m.take(i + 1).last() == (parts@[i as int].0@, parts@[i as int].1@));
        if i > 0 {
            out.append(",");
        } else {
            out.append("");
        }
        out.append(&parts[i].0);
        out.append(":");
        out.append(&parts[i].1);
        i += 1;
    }
    assert(m.take(m.len() as int) =~= m);
    out.append("}");
    out
}

/// An object's text with nothing but the members of `fields`; any other text as
/// it is.
pub fn only_fields(text: &str, fields: &Vec<&'static str>) -> (r: String)
    ensures
        r@ == only(text@, field_names(fields@)),
{
    if is_object_text(text) {
        write_object(&keep_fields(text, fields))
    } else {
        text.to_string()
    }
}

} // verus!
