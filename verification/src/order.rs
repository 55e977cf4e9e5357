//! Orders on numbers, texts and paths, and lists kept in order.

use crate::text::{chars_of, texts};
use vstd::prelude::*;

verus! {

/// Whether one key comes before another: at the first place where they differ,
/// or by ending first.
pub open spec fn before(a: Seq<u64>, b: Seq<u64>) -> bool
    decreases a.len(),
{
    if b.len() == 0 {
        false
    } else if a.len() == 0 {
        true
    } else if a[0] == b[0] {
        before(a.drop_first(), b.drop_first())
    } else {
        a[0] < b[0]
    }
}

/// Of two keys exactly one comes before the other, unless they are equal.
pub proof fn lemma_total(a: Seq<u64>, b: Seq<u64>)
    ensures
        a == b ==> !before(a, b),
        a != b ==> before(a, b) != before(b, a),
    decreases a.len(),
{
    if a.len() == 0 || b.len() == 0 {
        if a.len() == 0 && b.len() == 0 {
            assert(a =~= b);
        }
    } else if a[0] == b[0] {
        lemma_total(a.drop_first(), b.drop_first());
        if a.drop_first() == b.drop_first() {
            assert(a =~= seq![a[0]] + a.drop_first());
            assert(b =~= seq![b[0]] + b.drop_first());
        }
    }
}

pub proof fn lemma_transitive(a: Seq<u64>, b: Seq<u64>, c: Seq<u64>)
    requires
        before(a, b),
        before(b, c),
    ensures
        before(a, c),
    decreases a.len(),
{
    if a.len() > 0 && b.len() > 0 && c.len() > 0 && a[0] == b[0] && b[0] == c[0] {
        lemma_transitive(a.drop_first(), b.drop_first(), c.drop_first());
    }
}

/// Whether the key `a` comes before the key `b`.
pub fn precedes(a: &Vec<u64>, b: &Vec<u64>) -> (r: bool)
    ensures
        r == before(a@, b@),
{
    let mut i: usize = 0;
    assert(a@.skip(0) =~= a@);
    assert(b@.skip(0) =~= b@);
    while i < a.len() && i < b.len()
        invariant
            i <= a.len(),
            i <= b.len(),
            before(a@, b@) == before(a@.skip(i as int), b@.skip(i as int)),
        decreases a.len() - i,
    {
        let ghost x = a@.skip(i as int);
        let ghost y = b@.skip(i as int);
        assert(x[0] == a@[i as int] && y[0] == b@[i as int]);
        if a[i] != b[i] {
            return a[i] < b[i];
        }
        assert(x.drop_first() =~= a@.skip(i + 1));
        assert(y.drop_first() =~= b@.skip(i + 1));
        i += 1;
    }
    i < b.len()
}

/// Something that a list can be ordered by.
pub trait Keyed {
    spec fn key(&self) -> Seq<u64>;

    fn sort_key(&self) -> (r: Vec<u64>)
        ensures
            r@ == self.key(),
    ;
}

/// A text's key: its characters, by their code points.
pub open spec fn text_key(s: Seq<char>) -> Seq<u64> {
    s.map_values(|c: char| c as u32 as u64)
}

proof fn lemma_char_code(x: char, y: char)
    ensures
        x as u32 as u64 == y as u32 as u64 ==> x == y,
{
}

/// Texts with one key are one text.
pub proof fn lemma_text_key(a: Seq<char>, b: Seq<char>)
    ensures
        text_key(a) == text_key(b) <==> a == b,
{
    if text_key(a) == text_key(b) {
        assert(a.len() == text_key(a).len());
        assert(b.len() == text_key(b).len());
        assert forall|i: int| 0 <= i < a.len() implies a[i] == b[i] by {
            assert(text_key(a)[i] == a[i] as u32 as u64);
            assert(text_key(b)[i] == b[i] as u32 as u64);
            lemma_char_code(a[i], b[i]);
        }
        assert(a =~= b);
    }
}

fn text_sort_key(s: &str) -> (r: Vec<u64>)
    ensures
        r@ == text_key(s@),
{
    let cs = chars_of(s);
    let mut out: Vec<u64> = Vec::new();
    let mut i: usize = 0;
    while i < cs.len()
        invariant
            i <= cs.len(),
            out@ =~= text_key(cs@.take(i as int)),
        decreases cs.len() - i,
    {
        out.push(cs[i] as u32 as u64);
        i += 1;
    }
    assert(cs@.take(cs@.len() as int) =~= cs@);
    out
}

impl Keyed for u64 {
    open spec fn key(&self) -> Seq<u64> {
        seq![*self]
    }

    fn sort_key(&self) -> (r: Vec<u64>) {
        let mut v: Vec<u64> = Vec::new();
        v.push(*self);
        assert(v@ =~= self.key());
        v
    }
}

impl Keyed for String {
    open spec fn key(&self) -> Seq<u64> {
        text_key(self@)
    }

    fn sort_key(&self) -> (r: Vec<u64>) {
        let r = text_sort_key(self.as_str());
        assert(r@ == text_key(self@));
        assert(self.key() == text_key(self@));
        r
    }
}

/// What one component of a path adds to the path's key.  The root comes before
/// `.`, that before `..`, and that before any name.
pub open spec fn part_key(part: Seq<char>) -> Seq<u64> {
    if part == "."@ {
        seq![1u64]
    } else if part == ".."@ {
        seq![2u64]
    } else {
        seq![3u64] + part.map_values(|c: char| (c as u32 + 1) as u64) + seq![0u64]
    }
}

/// The key of what follows a place in a path: its components up to each `/`,
/// of which empty ones, and `.` but at the very start, do not count.
pub open spec fn parts_key(rest: Seq<char>, start: bool) -> Seq<u64>
    decreases rest.len(),
    via parts_key_decreases
{
    if rest.len() == 0 {
        Seq::empty()
    } else {
        let n = crate::text::index_of_char(rest, '/');
        let part = rest.take(n as int);
        let tail = rest.skip(n as int + 1);
        let here = if part.len() == 0 || (part == "."@ && !start) {
            Seq::empty()
        } else {
            part_key(part)
        };
        if n < rest.len() {
            here + parts_key(tail, false)
        } else {
            here
        }
    }
}

#[via_fn]
proof fn parts_key_decreases(rest: Seq<char>, start: bool) {
    crate::text::lemma_index_of_char(rest, '/');
}

/// A path's key: its components in order.  Paths with the same components are
/// the same path.
pub open spec fn path_key(p: Seq<char>) -> Seq<u64> {
    if p.len() > 0 && p[0] == '/' {
        seq![0u64] + parts_key(p.drop_first(), false)
    } else {
        parts_key(p, true)
    }
}

/// Whether two paths name one place by their components.
pub open spec fn same_path(a: Seq<char>, b: Seq<char>) -> bool {
    path_key(a) == path_key(b)
}

fn add_part(out: &mut Vec<u64>, cs: &Vec<char>, start: usize, end: usize, first: bool)
    requires
        start <= end <= cs.len(),
    ensures
        ({
            let part = cs@.subrange(start as int, end as int);
            final(out)@ == old(out)@ + (if part.len() == 0 || (part == "."@ && !first) {
                Seq::empty()
            } else {
                part_key(part)
            })
        }),
{
    proof {
        reveal_strlit(".");
        reveal_strlit("..");
    }
    let ghost part = cs@.subrange(start as int, end as int);
    let ghost was = out@;
    if start == end {
        assert(was + Seq::empty() =~= was);
        return ;
    }
    if end - start == 1 && cs[start] == '.' {
        assert(part =~= "."@);
        if first {
            out.push(1);
            assert(out@ =~= was + seq![1u64]);
        } else {
            assert(was + Seq::empty() =~= was);
        }
        return ;
    }
    assert(part != "."@) by {
        if part == "."@ {
            assert(part.len() == 1 && part[0] == '.');
        }
    }
    if end - start == 2 && cs[start] == '.' && cs[start + 1] == '.' {
        assert(part =~= ".."@);
        out.push(2);
        assert(out@ =~= was + seq![2u64]);
        return ;
    }
    assert(part != ".."@) by {
        if part == ".."@ {
            assert(part.len() == 2 && part[0] == '.' && part[1] == '.');
        }
    }
    out.push(3);
    let mut i: usize = start;
    let ghost code = |c: char| (c as u32 + 1) as u64;
    assert(out@ =~= was + (seq![3u64] + part.take(0).map_values(code)));
    while i < end
        invariant
            start <= i <= end <= cs.len(),
            part == cs@.subrange(start as int, end as int),
            code == (|c: char| (c as u32 + 1) as u64),
            out@ == was + (seq![3u64] + part.take(i - start).map_values(code)),
        decreases end - i,
    {
        assert(part.take(i - start + 1) =~= part.take(i - start).push(cs@[i as int]));
        out.push(cs[i] as u32 as u64 + 1);
        assert(out@ =~= was + (seq![3u64] + part.take(i - start + 1).map_values(code)));
        i += 1;
    }
    assert(part.take(end - start) =~= part);
    out.push(0);
    assert(out@ =~= was + part_key(part));
}

fn path_sort_key(p: &str) -> (r: Vec<u64>)
    ensures
        r@ == path_key(p@),
{
    let cs = chars_of(p);
    let mut out: Vec<u64> = Vec::new();
    let mut i: usize = 0;
    let mut first = true;
    if cs.len() > 0 && cs[0] == '/' {
        out.push(0);
        i = 1;
        first = false;
        assert(cs@.skip(1) =~= cs@.drop_first());
        assert(out@ =~= seq![0u64]);
    } else {
        assert(cs@.skip(0) =~= cs@);
        assert(out@ + parts_key(cs@, true) =~= parts_key(cs@, true));
    }
    while i < cs.len()
        invariant
            i <= cs.len(),
            path_key(cs@) == out@ + parts_key(cs@.skip(i as int), first),
        decreases cs.len() - i,
    {
        let ghost rest = cs@.skip(i as int);
        let end = crate::text::find_char(&cs, i, '/');
        proof {
            crate::text::lemma_index_of_char(rest, '/');
        }
        assert(rest.take(end - i) =~= cs@.subrange(i as int, end as int));
        let ghost was = out@;
        add_part(&mut out, &cs, i, end, first);
        if end < cs.len() {
            assert(rest.skip(end - i + 1) =~= cs@.skip(end + 1));
            let ghost here = if end == i || (rest.take(end - i) == "."@ && !first) {
                Seq::empty()
            } else {
                part_key(rest.take(end - i))
            };
            assert(was + (here + parts_key(cs@.skip(end + 1), false)) =~= (was + here) + parts_key(
                cs@.skip(end + 1),
                false,
            ));
            i = end + 1;
            first = false;
        } else {
            assert(cs@.skip(cs@.len() as int) =~= Seq::empty());
            assert(out@ + Seq::<u64>::empty() =~= out@);
            i = end;
        }
    }
    assert(cs@.skip(cs@.len() as int) =~= Seq::empty());
    assert(out@ + Seq::<u64>::empty() =~= out@);
    out
}

fn same_keys(a: &Vec<u64>, b: &Vec<u64>) -> (r: bool)
    ensures
        r == (a@ == b@),
{
    proof {
        lemma_total(a@, b@);
    }
    !precedes(a, b) && !precedes(b, a)
}

/// Whether two paths name one place by their components.
pub fn is_same_path(a: &str, b: &str) -> (r: bool)
    ensures
        r == same_path(a@, b@),
{
    same_keys(&path_sort_key(a), &path_sort_key(b))
}

/// Whether one of `paths` names the place that `p` does.
pub open spec fn lists_path(paths: Seq<Seq<char>>, p: Seq<char>) -> bool {
    exists|i: int| 0 <= i < paths.len() && same_path(#[trigger] paths[i], p)
}

/// Whether one of `paths` names the place that `p` does.
pub fn has_same_path(paths: &Vec<String>, p: &str) -> (r: bool)
    ensures
        r == lists_path(texts(paths@), p@),
{
    let ghost all = texts(paths@);
    let mut i: usize = 0;
    while i < paths.len()
        invariant
            i <= paths.len(),
            all == texts(paths@),
            forall|k: int| 0 <= k < i ==> !same_path(#[trigger] all[k], p@),
        decreases paths.len() - i,
    {
        assert(all[i as int] == paths@[i as int]@);
        if is_same_path(&paths[i], p) {
            return true;
        }
        i += 1;
    }
    false
}

/// A path, ordered as paths are.
pub struct ByPath {
    pub path: String,
}

impl Keyed for ByPath {
    open spec fn key(&self) -> Seq<u64> {
        path_key(self.path@)
    }

    fn sort_key(&self) -> (r: Vec<u64>) {
        path_sort_key(&self.path)
    }
}

/// Whether each key comes before all that follow it.
pub open spec fn ascending(keys: Seq<Seq<u64>>) -> bool {
    forall|i: int, j: int|
        0 <= i < j < keys.len() ==> before(#[trigger] keys[i], #[trigger] keys[j])
}

pub open spec fn keys_of<T: Keyed>(v: Seq<T>) -> Seq<Seq<u64>> {
    v.map_values(|x: T| x.key())
}

/// Put `x` in its place in an ascending list, unless its key is there.
pub fn add_sorted<T: Keyed>(v: &mut Vec<T>, x: T) -> (added: bool)
    requires
        ascending(keys_of(old(v)@)),
    ensures
        ascending(keys_of(final(v)@)),
        added == !keys_of(old(v)@).contains(x.key()),
        !added ==> final(v)@ == old(v)@,
        added ==> exists|i: int|
            #![trigger old(v)@.insert(i, x)]
            0 <= i <= old(v)@.len() && final(v)@ == old(v)@.insert(i, x),
{
    let key = x.sort_key();
    let mut i: usize = 0;
    let ghost keys = keys_of(v@);
    while i < v.len()
        invariant
            i <= v.len(),
            keys == keys_of(v@),
            v@ == old(v)@,
            ascending(keys),
            key@ == x.key(),
            forall|j: int| 0 <= j < i ==> before(#[trigger] keys[j], key@),
        decreases v.len() - i,
    {
        let k = v[i].sort_key();
        assert(keys[i as int] == k@);
        if !precedes(&k, &key) {
            proof {
                lemma_total(k@, key@);
                assert forall|j: int| i < j < keys.len() implies before(key@, #[trigger] keys[j]) by {
                    assert(before(keys[i as int], keys[j]));
                    if k@ != key@ {
                        lemma_transitive(key@, k@, keys[j]);
                    }
                }
                assert forall|j: int| 0 <= j < keys.len() implies (#[trigger] keys[j] == key@) == (j
                    == i && k@ == key@) by {
                    lemma_total(keys[j], key@);
                }
            }
            if same_keys(&k, &key) {
                assert(keys.contains(key@));
                return false;
            }
            assert(!keys.contains(key@));
            let ghost was = v@;
            v.insert(i, x);
            assert(keys_of(v@) =~= keys.insert(i as int, key@));
            assert(v@ == was.insert(i as int, x));
            return true;
        }
        i += 1;
    }
    proof {
        assert forall|j: int| 0 <= j < keys.len() implies #[trigger] keys[j] != key@ by {
            lemma_total(keys[j], key@);
        }
        assert(!keys.contains(key@));
    }
    let ghost was = v@;
    v.push(x);
    assert(keys_of(v@) =~= keys.push(key@));
    assert(v@ =~= was.insert(was.len() as int, x));
    true
}

/// Something put in an ordered list: after everything that it does not come
/// before.
pub open spec fn place<T: Keyed>(s: Seq<T>, x: T) -> Seq<T>
    decreases s.len(),
{
    if s.len() == 0 || !before(x.key(), s.last().key()) {
        s.push(x)
    } else {
        place(s.drop_last(), x).push(s.last())
    }
}

/// A list in order; what has the same key stays in the order it was in.
pub open spec fn in_order<T: Keyed>(s: Seq<T>) -> Seq<T>
    decreases s.len(),
{
    if s.len() == 0 {
        s
    } else {
        place(in_order(s.drop_last()), s.last())
    }
}

/// Whether no key comes after one that follows it.
pub open spec fn ordered(keys: Seq<Seq<u64>>) -> bool {
    forall|i: int, j: int|
        0 <= i < j < keys.len() ==> !before(#[trigger] keys[j], #[trigger] keys[i])
}

proof fn lemma_place<T: Keyed>(s: Seq<T>, x: T, at: int)
    requires
        0 <= at <= s.len(),
        forall|j: int| at <= j < s.len() ==> before(x.key(), (#[trigger] s[j]).key()),
        at > 0 ==> !before(x.key(), s[at - 1].key()),
    ensures
        place(s, x) == s.insert(at, x),
    decreases s.len(),
{
    if at == s.len() {
        assert(place(s, x) =~= s.insert(at, x));
    } else {
        let init = s.drop_last();
        assert forall|j: int| at <= j < init.len() implies before(
            x.key(),
            (#[trigger] init[j]).key(),
        ) by {
            assert(init[j] == s[j]);
        }
        assert(before(x.key(), s[s.len() - 1].key()));
        lemma_place(init, x, at);
        assert(place(s, x) =~= s.insert(at, x));
    }
}

proof fn lemma_place_orders<T: Keyed>(s: Seq<T>, x: T)
    requires
        ordered(keys_of(s)),
    ensures
        ordered(keys_of(place(s, x))),
        place(s, x).to_multiset() == s.to_multiset().insert(x),
        place(s, x).len() == s.len() + 1,
        forall|k: int|
            0 <= k < place(s, x).len() ==> (#[trigger] keys_of(place(s, x))[k] == x.key() || exists|
                j: int,
            |
                0 <= j < s.len() && #[trigger] keys_of(s)[j] == keys_of(place(s, x))[k]),
    decreases s.len(),
{
    broadcast use vstd::seq_lib::group_to_multiset_ensures;

    let r = place(s, x);
    let keys = keys_of(r);
    if s.len() == 0 || !before(x.key(), s.last().key()) {
        assert forall|i: int, j: int| 0 <= i < j < keys.len() implies !before(
            #[trigger] keys[j],
            #[trigger] keys[i],
        ) by {
            if j == s.len() {
                assert(keys[j] == x.key());
                let last = s.len() - 1;
                assert(keys_of(s)[i] == keys[i]);
                assert(keys_of(s)[last] == s.last().key());
                if before(x.key(), keys[i]) {
                    lemma_total(keys_of(s)[last], keys[i]);
                    if i < last {
                        assert(!before(keys_of(s)[last], keys_of(s)[i]));
                        if keys_of(s)[last] != keys[i] {
                            lemma_transitive(x.key(), keys[i], keys_of(s)[last]);
                        }
                    }
                }
            } else {
                assert(keys[i] == keys_of(s)[i] && keys[j] == keys_of(s)[j]);
            }
        }
        assert forall|k: int| 0 <= k < r.len() implies (#[trigger] keys[k] == x.key() || exists|
            j: int,
        |
            0 <= j < s.len() && #[trigger] keys_of(s)[j] == keys[k]) by {
            if k < s.len() {
                assert(keys_of(s)[k] == keys[k]);
            }
        }
    } else {
        let init = s.drop_last();
        assert(ordered(keys_of(init))) by {
            assert forall|i: int, j: int| 0 <= i < j < keys_of(init).len() implies !before(
                #[trigger] keys_of(init)[j],
                #[trigger] keys_of(init)[i],
            ) by {
                assert(keys_of(init)[i] == keys_of(s)[i] && keys_of(init)[j] == keys_of(s)[j]);
            }
        }
        lemma_place_orders(init, x);
        let p = place(init, x);
        assert(s =~= init.push(s.last()));
        assert(s.to_multiset() == init.to_multiset().insert(s.last()));
        assert(r.to_multiset() == p.to_multiset().insert(s.last()));
        assert(r.to_multiset() =~= s.to_multiset().insert(x));
        assert forall|k: int| 0 <= k < p.len() implies !before(
            s.last().key(),
            #[trigger] keys_of(p)[k],
        ) by {
            if keys_of(p)[k] == x.key() {
                lemma_total(x.key(), s.last().key());
            } else {
                let j = choose|j: int|
                    0 <= j < init.len() && #[trigger] keys_of(init)[j] == keys_of(p)[k];
                assert(keys_of(init)[j] == keys_of(s)[j]);
                assert(keys_of(s)[s.len() - 1] == s.last().key());
            }
        }
        assert forall|i: int, j: int| 0 <= i < j < keys.len() implies !before(
            #[trigger] keys[j],
            #[trigger] keys[i],
        ) by {
            assert(keys[i] == keys_of(p)[i]);
            if j < p.len() {
                assert(keys[j] == keys_of(p)[j]);
            } else {
                assert(keys[j] == s.last().key());
            }
        }
        assert forall|k: int| 0 <= k < r.len() implies (#[trigger] keys[k] == x.key() || exists|
            j: int,
        |
            0 <= j < s.len() && #[trigger] keys_of(s)[j] == keys[k]) by {
            if k < p.len() {
                assert(keys[k] == keys_of(p)[k]);
                if keys[k] != x.key() {
                    let j = choose|j: int|
                        0 <= j < init.len() && #[trigger] keys_of(init)[j] == keys_of(p)[k];
                    assert(keys_of(s)[j] == keys_of(init)[j]);
                }
            } else {
                assert(keys_of(s)[s.len() - 1] == keys[k]);
            }
        }
    }
}

/// A list put in order is in order, and holds what it held.
pub proof fn law_in_order_sorts<T: Keyed>(s: Seq<T>)
    ensures
        ordered(keys_of(in_order(s))),
        in_order(s).to_multiset() == s.to_multiset(),
        in_order(s).len() == s.len(),
    decreases s.len(),
{
    broadcast use vstd::seq_lib::group_to_multiset_ensures;

    if s.len() > 0 {
        let init = s.drop_last();
        law_in_order_sorts(init);
        lemma_place_orders(in_order(init), s.last());
        assert(s =~= init.push(s.last()));
        assert(s.to_multiset() == init.to_multiset().insert(s.last()));
    }
}

/// Put a list in order; what has the same key stays in the order it was in.
pub fn sort<T: Keyed>(v: Vec<T>) -> (r: Vec<T>)
    ensures
        r@ == in_order(v@),
{
    let ghost all = v@;
    let mut out: Vec<T> = Vec::new();
    assert(all.take(0) =~= Seq::empty());
    assert(out@ =~= in_order(all.take(0)));
    for x in it: v
        invariant
            it.seq() == all,
            out@ == in_order(all.take(it.index() as int)),
    {
        let ghost done = it.index() as int;
        assert(all.take(done + 1).drop_last() =~= all.take(done));
        assert(all.take(done + 1).last() == x);
        let key = x.sort_key();
        let mut i: usize = out.len();
        let ghost was = out@;
        while i > 0
            invariant
                i <= out.len(),
                out@ == was,
                key@ == x.key(),
                forall|j: int| i <= j < out@.len() ==> before(x.key(), (#[trigger] out@[j]).key()),
            ensures
                i <= out.len(),
                out@ == was,
                forall|j: int| i <= j < out@.len() ==> before(x.key(), (#[trigger] out@[j]).key()),
                i > 0 ==> !before(x.key(), out@[i - 1].key()),
            decreases i,
        {
            let k = out[i - 1].sort_key();
            if !precedes(&key, &k) {
                break;
            }
            i -= 1;
        }
        proof {
            lemma_place(was, x, i as int);
        }
        out.insert(i, x);
    }
    assert(all.take(all.len() as int) =~= all);
    out
}

} // verus!
