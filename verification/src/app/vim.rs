//! Modal editing of the composer: its state, and the motions over a line.

use crate::text::{is_white, is_whitespace};
use vstd::prelude::*;

verus! {

/// Whether keys are text or commands.
#[derive(Debug, Clone, Copy, PartialEq, Eq, Structural)]
pub enum VimMode {
    Insert,
    Normal,
}

/// An operator that waits for a motion.
#[derive(Debug, Clone, Copy, PartialEq, Eq, Structural)]
pub enum VimOp {
    Delete,
    Change,
    Yank,
}

/// What the next key completes.
#[derive(Debug, Clone, Copy, PartialEq, Eq, Structural)]
pub enum Pending {
    Operator(VimOp),
    Replace,
}

/// Modal editing state.  Inert unless `enabled`.
pub struct VimState {
    pub enabled: bool,
    pub mode: VimMode,
    pub pending: Option<Pending>,
    /// The count typed so far.
    pub count: Option<usize>,
    /// What the last delete or yank took.
    pub register: String,
    /// Snapshots of the line and its cursor, newest last.
    pub undo: Vec<(String, usize)>,
}

/// What a [`VimState`] holds.
pub struct VimView {
    pub enabled: bool,
    pub mode: VimMode,
    pub pending: Option<Pending>,
    pub count: Option<usize>,
    pub register: Seq<char>,
    pub undo: Seq<(Seq<char>, usize)>,
}

impl View for VimState {
    type V = VimView;

    open spec fn view(&self) -> VimView {
        VimView {
            enabled: self.enabled,
            mode: self.mode,
            pending: self.pending,
            count: self.count,
            register: self.register@,
            undo: self.undo@.map_values(|u: (String, usize)| (u.0@, u.1)),
        }
    }
}

impl VimView {
    /// Modal editing, on or off, ready to type.
    pub open spec fn fresh(enabled: bool) -> VimView {
        VimView {
            enabled,
            mode: VimMode::Insert,
            pending: None,
            count: None,
            register: Seq::empty(),
            undo: Seq::empty(),
        }
    }

    /// Keys are commands.
    pub open spec fn normal(self) -> bool {
        self.enabled && self.mode == VimMode::Normal
    }

    /// Every snapshot's cursor is inside its line.
    pub open spec fn wf(self) -> bool {
        &&& forall|i: int|
            0 <= i < self.undo.len() ==> (#[trigger] self.undo[i]).1 <= self.undo[i].0.len()
        &&& self.count matches Some(n) ==> n <= 100_000
    }

    /// No operator and no count under way.
    pub open spec fn cleared(self) -> VimView {
        VimView { pending: None, count: None, ..self }
    }
}

impl VimState {
    /// Modal editing, on or off, ready to type.
    pub fn fresh(enabled: bool) -> (r: VimState)
        ensures
            r@ == VimView::fresh(enabled),
    {
        let r = VimState {
            enabled,
            mode: VimMode::Insert,
            pending: None,
            count: None,
            register: String::new(),
            undo: Vec::new(),
        };
        assert(r@.register =~= Seq::empty());
        assert(r@.undo =~= Seq::empty());
        r
    }

    /// Keys are commands rather than text.
    pub fn is_normal(&self) -> (r: bool)
        ensures
            r == self@.normal(),
    {
        self.enabled && self.mode == VimMode::Normal
    }

    /// Forgets a pending operator and count.
    pub fn clear_pending(&mut self)
        ensures
            final(self)@ == old(self)@.cleared(),
    {
        self.pending = None;
        self.count = None;
    }

    /// Starts or drops a pending operator.
    pub fn set_pending(&mut self, pending: Option<Pending>)
        ensures
            final(self)@ == (VimView { pending, ..old(self)@ }),
    {
        self.pending = pending;
    }

    /// Sets or drops the count.
    pub fn set_count(&mut self, count: Option<usize>)
        ensures
            final(self)@ == (VimView { count, ..old(self)@ }),
    {
        self.count = count;
    }

    /// Fills the register.
    pub fn set_register(&mut self, text: String)
        ensures
            final(self)@ == (VimView { register: text@, ..old(self)@ }),
    {
        self.register = text;
    }

    /// Switches between text and commands.
    pub fn set_mode(&mut self, mode: VimMode)
        ensures
            final(self)@ == (VimView { mode, ..old(self)@ }),
    {
        self.mode = mode;
    }

    /// Remembers the line for undo.
    pub fn push_undo(&mut self, input: &str, cursor: usize)
        ensures
            final(self)@ == (VimView {
                undo: old(self)@.undo.push((input@, cursor)),
                ..old(self)@
            }),
    {
        self.undo.push((input.to_string(), cursor));
        assert(self@.undo =~= old(self)@.undo.push((input@, cursor)));
    }

    /// The count typed, or one; the count is used up.
    pub fn take_count(&mut self) -> (n: usize)
        ensures
            n == (match old(self).count {
                Some(k) => k,
                None => 1,
            }),
            final(self)@ == (VimView { count: None, ..old(self)@ }),
    {
        let n: usize = match self.count {
            Some(k) => k,
            None => 1,
        };
        self.count = None;
        n
    }
}

/// White space, word characters, and the rest: motions stop where the kind
/// changes.
pub open spec fn char_kind(c: char) -> int {
    if is_white(c) {
        0
    } else if crate::text::is_alphanumeric(c) || c == '_' || c as int > 127 {
        1
    } else {
        2
    }
}

/// The kind of a character: white space, a word character, or other.
pub fn kind_of(c: char) -> (r: u8)
    ensures
        r == char_kind(c),
{
    if is_whitespace(c) {
        0
    } else if ('0' <= c && c <= '9') || ('a' <= c && c <= 'z') || ('A' <= c && c <= 'Z') || c == '_'
        || c as u32 > 127 {
        1
    } else {
        2
    }
}

/// The end of the run of kind `k` that starts at `i`.
pub open spec fn run_end(s: Seq<char>, i: int, k: int) -> int
    decreases s.len() - i,
{
    if 0 <= i < s.len() && char_kind(s[i]) == k {
        run_end(s, i + 1, k)
    } else {
        i
    }
}

/// The start of the run of kind `k` that ends before `i`.
pub open spec fn run_start(s: Seq<char>, i: int, k: int) -> int
    decreases i,
{
    if 0 < i <= s.len() && char_kind(s[i - 1]) == k {
        run_start(s, i - 1, k)
    } else {
        i
    }
}

/// `w`: the start of the next word.
pub open spec fn next_word(s: Seq<char>, i: int) -> int {
    if i >= s.len() {
        s.len() as int
    } else {
        run_end(
            s,
            if char_kind(s[i]) == 0 {
                i
            } else {
                run_end(s, i, char_kind(s[i]))
            },
            0,
        )
    }
}

/// `b`: the start of this word, or of the one before.
pub open spec fn prev_word(s: Seq<char>, i: int) -> int {
    let j = run_start(s, i, 0);
    if j <= 0 {
        0
    } else {
        run_start(s, j, char_kind(s[j - 1]))
    }
}

/// `e`: the last character of this word, or of the next one.
pub open spec fn end_of_word(s: Seq<char>, i: int) -> int {
    let j = run_end(s, i + 1, 0);
    if s.len() == 0 {
        0
    } else if j >= s.len() {
        s.len() - 1
    } else {
        run_end(s, j, char_kind(s[j])) - 1
    }
}

/// The first character that is not white, or the start of a blank line.
pub open spec fn first_text(s: Seq<char>) -> int {
    let j = run_end(s, 0, 0);
    if j >= s.len() {
        0
    } else {
        j
    }
}

fn skip_run(s: &[char], i: usize, k: u8) -> (r: usize)
    requires
        i <= s.len(),
    ensures
        i <= r <= s.len(),
        r == run_end(s@, i as int, k as int),
{
    let mut j: usize = i;
    while j < s.len() && kind_of(s[j]) == k
        invariant
            i <= j <= s.len(),
            run_end(s@, i as int, k as int) == run_end(s@, j as int, k as int),
        decreases s.len() - j,
    {
        j += 1;
    }
    j
}

fn skip_run_back(s: &[char], i: usize, k: u8) -> (r: usize)
    requires
        i <= s.len(),
    ensures
        r <= i,
        r == run_start(s@, i as int, k as int),
{
    let mut j: usize = i;
    while j > 0 && kind_of(s[j - 1]) == k
        invariant
            j <= i <= s.len(),
            run_start(s@, i as int, k as int) == run_start(s@, j as int, k as int),
        decreases j,
    {
        j -= 1;
    }
    j
}

/// `w`: the start of the next word.
pub fn word_forward(s: &[char], i: usize) -> (r: usize)
    requires
        i <= s.len(),
    ensures
        r <= s.len(),
        r == next_word(s@, i as int),
{
    if i >= s.len() {
        return s.len();
    }
    let k = kind_of(s[i]);
    let j: usize = if k == 0 {
        i
    } else {
        skip_run(s, i, k)
    };
    skip_run(s, j, 0)
}

/// `b`: the start of this word, or of the one before.
pub fn word_back(s: &[char], i: usize) -> (r: usize)
    requires
        i <= s.len(),
    ensures
        r <= i,
        r == prev_word(s@, i as int),
{
    let j = skip_run_back(s, i, 0);
    if j == 0 {
        0
    } else {
        skip_run_back(s, j, kind_of(s[j - 1]))
    }
}

/// `e`: the last character of this word, or of the next one.
pub fn word_end(s: &[char], i: usize) -> (r: usize)
    requires
        i <= s.len(),
    ensures
        r <= s.len(),
        s.len() > 0 ==> r < s.len(),
        r == end_of_word(s@, i as int),
{
    if s.len() == 0 {
        return 0;
    }
    if i >= s.len() - 1 {
        return s.len() - 1;
    }
    let j = skip_run(s, i + 1, 0);
    if j >= s.len() {
        s.len() - 1
    } else {
        let e = skip_run(s, j, kind_of(s[j]));
        e - 1
    }
}

/// The first character that is not white, or the start of a blank line.
pub fn first_non_blank(s: &[char]) -> (r: usize)
    ensures
        r <= s.len(),
        r == first_text(s@),
{
    let j = skip_run(s, 0, 0);
    if j >= s.len() {
        0
    } else {
        j
    }
}

/// `w` pressed `n` times.
pub open spec fn forward_by(s: Seq<char>, i: int, n: nat) -> int
    decreases n,
{
    if n == 0 {
        i
    } else {
        next_word(s, forward_by(s, i, (n - 1) as nat))
    }
}

/// `b` pressed `n` times.
pub open spec fn back_by(s: Seq<char>, i: int, n: nat) -> int
    decreases n,
{
    if n == 0 {
        i
    } else {
        prev_word(s, back_by(s, i, (n - 1) as nat))
    }
}

/// `e` pressed `n` times.
pub open spec fn end_by(s: Seq<char>, i: int, n: nat) -> int
    decreases n,
{
    if n == 0 {
        i
    } else {
        end_of_word(s, end_by(s, i, (n - 1) as nat))
    }
}

/// `n` words forward.
pub fn words_forward(s: &[char], i: usize, n: usize) -> (r: usize)
    requires
        i <= s.len(),
    ensures
        r <= s.len(),
        r == forward_by(s@, i as int, n as nat),
{
    let mut at: usize = i;
    let mut k: usize = 0;
    while k < n
        invariant
            k <= n,
            at <= s.len(),
            at == forward_by(s@, i as int, k as nat),
        decreases n - k,
    {
        at = word_forward(s, at);
        k += 1;
    }
    at
}

/// `n` words back.
pub fn words_back(s: &[char], i: usize, n: usize) -> (r: usize)
    requires
        i <= s.len(),
    ensures
        r <= i,
        r == back_by(s@, i as int, n as nat),
{
    let mut at: usize = i;
    let mut k: usize = 0;
    while k < n
        invariant
            k <= n,
            at <= i <= s.len(),
            at == back_by(s@, i as int, k as nat),
        decreases n - k,
    {
        at = word_back(s, at);
        k += 1;
    }
    at
}

/// `n` word ends forward.
pub fn word_ends(s: &[char], i: usize, n: usize) -> (r: usize)
    requires
        i <= s.len(),
    ensures
        r <= s.len(),
        r == end_by(s@, i as int, n as nat),
{
    let mut at: usize = i;
    let mut k: usize = 0;
    while k < n
        invariant
            k <= n,
            at <= s.len(),
            at == end_by(s@, i as int, k as nat),
        decreases n - k,
    {
        at = word_end(s, at);
        k += 1;
    }
    at
}

/// The characters a motion covers.
#[derive(Debug, Clone, Copy, PartialEq, Eq, Structural)]
pub struct Motion {
    pub start: usize,
    pub end: usize,
}

/// The range that `motion`, repeated `n` times from `cursor`, covers for an
/// operator: `e` takes its last character along, the other motions stop
/// before where they land.
pub open spec fn motion_range(motion: char, n: nat, s: Seq<char>, cursor: int) -> Option<(int, int)> {
    let len = s.len() as int;
    if motion == 'h' {
        Some((if cursor >= n {
            cursor - n
        } else {
            0
        }, cursor))
    } else if motion == 'l' || motion == ' ' {
        Some((cursor, if cursor + n <= len {
            cursor + n
        } else {
            len
        }))
    } else if motion == '0' {
        Some((0, cursor))
    } else if motion == '^' {
        Some((first_text(s), cursor))
    } else if motion == '$' {
        Some((cursor, len))
    } else if motion == 'w' {
        Some((cursor, forward_by(s, cursor, n)))
    } else if motion == 'b' {
        Some((back_by(s, cursor, n), cursor))
    } else if motion == 'e' {
        Some((cursor, if end_by(s, cursor, n) + 1 <= len {
            end_by(s, cursor, n) + 1
        } else {
            len
        }))
    } else {
        None
    }
}

/// The range a motion covers for an operator.
pub fn resolve_motion(motion: char, n: usize, s: &[char], cursor: usize) -> (r: Option<Motion>)
    requires
        cursor <= s.len(),
    ensures
        r is Some <==> motion_range(motion, n as nat, s@, cursor as int) is Some,
        r matches Some(m) ==> motion_range(motion, n as nat, s@, cursor as int) == Some(
            (m.start as int, m.end as int),
        ) && m.start <= s.len() && m.end <= s.len(),
{
    let len = s.len();
    match motion {
        'h' => Some(
            Motion {
                start: if cursor >= n {
                    cursor - n
                } else {
                    0
                },
                end: cursor,
            },
        ),
        'l' | ' ' => Some(
            Motion {
                start: cursor,
                end: if n <= len - cursor {
                    cursor + n
                } else {
                    len
                },
            },
        ),
        '0' => Some(Motion { start: 0, end: cursor }),
        '^' => Some(Motion { start: first_non_blank(s), end: cursor }),
        '$' => Some(Motion { start: cursor, end: len }),
        'w' => Some(Motion { start: cursor, end: words_forward(s, cursor, n) }),
        'b' => Some(Motion { start: words_back(s, cursor, n), end: cursor }),
        'e' => {
            let e = word_ends(s, cursor, n);
            Some(
                Motion {
                    start: cursor,
                    end: if e < len {
                        e + 1
                    } else {
                        len
                    },
                },
            )
        },
        _ => None,
    }
}

} // verus!
