//! Pasting: images by data URL, by path or from the clipboard, and text; and
//! completing `@path` references.

use crate::app::editor::{image_mark, image_token};
use crate::app::state::{App, AppView, Composer, ComposerView, Effect, EffectView};
use crate::json::text_opt;
use crate::order::{has_same_path, lists_path};
use crate::paths::{file_name, is_image_path, name_of, names_image};
use crate::text::{
    begins_with, blank, chars_of, contains_text, decimal, find_char, has_text,
    index_of_char, is_blank, is_white, is_whitespace, lemma_index_of_char, number, same,
    slice_text, split_words, starts_with, texts, trim, trimmed, words,
};
use vstd::prelude::*;

verus! {

/// The media type and payload of a `data:image/<subtype>;base64,<payload>` URL.
pub open spec fn data_image(text: Seq<char>) -> Option<(Seq<char>, Seq<char>)> {
    if !starts_with(text, "data:"@) {
        None
    } else {
        let rest = text.skip("data:"@.len() as int);
        let comma = index_of_char(rest, ',') as int;
        if comma >= rest.len() {
            None
        } else {
            let meta = rest.take(comma);
            let mime = trim(meta.take(index_of_char(meta, ';') as int));
            if !has_text(meta, ";base64"@) || !starts_with(mime, "image/"@) {
                None
            } else {
                Some((mime, trim(rest.skip(comma + 1))))
            }
        }
    }
}

/// Parse a `data:image/<subtype>;base64,<payload>` URL into its media type and
/// payload.
pub fn parse_data_image_url(text: &str) -> (r: Option<(String, String)>)
    ensures
        match r {
            Some(x) => data_image(text@) == Some((x.0@, x.1@)),
            None => data_image(text@) is None,
        },
{
    if !begins_with(text, "data:") {
        return None;
    }
    let cs = chars_of(text);
    let head = chars_of("data:").len();
    let ghost rest = text@.skip(head as int);
    let comma = find_char(&cs, head, ',');
    proof {
        lemma_index_of_char(rest, ',');
    }
    if comma >= cs.len() {
        return None;
    }
    let meta = slice_text(&cs, head, comma);
    assert(meta@ =~= rest.take(comma - head));
    let ms = chars_of(&meta);
    let semi = find_char(&ms, 0, ';');
    proof {
        assert(ms@.skip(0) =~= ms@);
        lemma_index_of_char(meta@, ';');
    }
    let first = slice_text(&ms, 0, semi);
    assert(first@ =~= meta@.take(semi as int));
    let mime = trimmed(&first);
    if !contains_text(&meta, ";base64") || !begins_with(&mime, "image/") {
        return None;
    }
    let payload = slice_text(&cs, comma + 1, cs.len());
    assert(payload@ =~= rest.skip(comma - head + 1));
    Some((mime, trimmed(&payload)))
}

/// The extension an image of a media type is saved under.
pub open spec fn mime_extension(mime: Seq<char>) -> Seq<char> {
    if mime == "image/png"@ {
        "png"@
    } else if mime == "image/jpeg"@ || mime == "image/jpg"@ {
        "jpg"@
    } else if mime == "image/gif"@ {
        "gif"@
    } else if mime == "image/webp"@ {
        "webp"@
    } else {
        "bin"@
    }
}

/// The extension an image of a media type is saved under.
pub fn extension_for(mime: &str) -> (r: &'static str)
    ensures
        r@ == mime_extension(mime@),
{
    if same(mime, "image/png") {
        "png"
    } else if same(mime, "image/jpeg") || same(mime, "image/jpg") {
        "jpg"
    } else if same(mime, "image/gif") {
        "gif"
    } else if same(mime, "image/webp") {
        "webp"
    } else {
        "bin"
    }
}

/// What `base64`'s standard engine decodes a text to, or why it cannot.
pub uninterp spec fn base64_of(text: Seq<char>) -> Result<Seq<u8>, Seq<char>>;

/// What an attempt to decode gave.
pub open spec fn decoded_view(r: Result<Vec<u8>, String>) -> Result<Seq<u8>, Seq<char>> {
    match r {
        Ok(b) => Ok(b@),
        Err(e) => Err(e@),
    }
}

/// Calls `decode` of `base64::engine::general_purpose::STANDARD`; the result,
/// or the text of the error, depends on `text` alone.
#[verifier::external_body]
pub(crate) fn decode_base64(text: &str) -> (r: Result<Vec<u8>, String>)
    ensures
        decoded_view(r) == base64_of(text@),
{
    match base64::Engine::decode(&base64::engine::general_purpose::STANDARD, text) {
        Ok(bytes) => Ok(bytes),
        Err(err) => Err(err.to_string()),
    }
}

/// What `base64`'s standard engine encodes the UTF-8 bytes of a text to.
pub uninterp spec fn base64_text(text: Seq<char>) -> Seq<char>;

/// Calls `encode` of `base64::engine::general_purpose::STANDARD` on the bytes
/// of `text`; the result depends on `text` alone.
#[verifier::external_body]
pub(crate) fn encode_base64(text: &str) -> (r: String)
    ensures
        r@ == base64_text(text@),
{
    base64::Engine::encode(&base64::engine::general_purpose::STANDARD, text.as_bytes())
}

/// The terminal sequence that puts `payload`, in base64, on the clipboard.
pub open spec fn osc52(payload: Seq<char>) -> Seq<char> {
    "\x1b]52;c;"@ + payload + "\x07"@
}

/// The terminal sequence that puts an encoded payload on the clipboard.
pub fn clipboard_sequence(payload: &str) -> (r: String)
    ensures
        r@ == osc52(payload@),
{
    let mut s = "\x1b]52;c;".to_string();
    s.append(payload);
    s.append("\x07");
    s
}

/// The terminal sequence that puts `text` on the clipboard.
pub fn clipboard_escape(text: &str) -> (r: String)
    ensures
        r@ == osc52(base64_text(text@)),
{
    clipboard_sequence(&encode_base64(text))
}

/// Why an image of `size` bytes is too large for a limit, if it is.
pub open spec fn too_large(size: nat, limit: nat) -> Option<Seq<char>> {
    if size > limit {
        Some(
            "image is "@ + decimal(size) + " bytes (max "@ + decimal(limit / 1_048_576)
                + " MB)"@,
        )
    } else {
        None
    }
}

/// Why an image is too large for the model, if it is.
pub fn check_image_size(size: usize, limit: usize) -> (r: Option<String>)
    ensures
        text_opt(r) == too_large(size as nat, limit as nat),
{
    if size > limit {
        let mut m = "image is ".to_string();
        m.append(&number(size as u64));
        m.append(" bytes (max ");
        m.append(&number((limit / 1_048_576) as u64));
        m.append(" MB)");
        Some(m)
    } else {
        None
    }
}

/// What is saved of a pasted image: its bytes and extension, or why it is not.
pub open spec fn accepted_image(
    mime: Seq<char>,
    decoded: Result<Seq<u8>, Seq<char>>,
    limit: nat,
) -> Result<(Seq<u8>, Seq<char>), Seq<char>> {
    match decoded {
        Err(e) => Err("invalid base64: "@ + e),
        Ok(bytes) => match too_large(bytes.len(), limit) {
            Some(m) => Err(m),
            None => Ok((bytes, mime_extension(mime))),
        },
    }
}

/// What an image to save holds.
pub open spec fn saved_view(r: Result<(Vec<u8>, &'static str), String>) -> Result<
    (Seq<u8>, Seq<char>),
    Seq<char>,
> {
    match r {
        Ok(x) => Ok((x.0@, x.1@)),
        Err(e) => Err(e@),
    }
}

/// Decides what is saved of a pasted image from what its payload decoded to.
pub fn accept_image(mime: &str, decoded: Result<Vec<u8>, String>, limit: usize) -> (r: Result<
    (Vec<u8>, &'static str),
    String,
>)
    ensures
        saved_view(r) == accepted_image(mime@, decoded_view(decoded), limit as nat),
{
    match decoded {
        Err(e) => {
            let mut m = "invalid base64: ".to_string();
            m.append(&e);
            Err(m)
        },
        Ok(bytes) => match check_image_size(bytes.len(), limit) {
            Some(m) => Err(m),
            None => Ok((bytes, extension_for(mime))),
        },
    }
}

/// Decode a data URL's payload into the bytes to save and their extension.
pub fn decode_pasted_image(mime: &str, payload: &str, limit: usize) -> (r: Result<
    (Vec<u8>, &'static str),
    String,
>)
    ensures
        saved_view(r) == accepted_image(mime@, base64_of(trim(payload@)), limit as nat),
{
    accept_image(mime, decode_base64(&trimmed(payload)), limit)
}

/// The bytes start with `head`.
pub open spec fn begins(bytes: Seq<u8>, head: Seq<u8>) -> bool {
    bytes.len() >= head.len() && bytes.take(head.len() as int) == head
}

/// The image format the bytes are in, by their first bytes.
pub open spec fn image_format(bytes: Seq<u8>) -> Option<Seq<char>> {
    if begins(bytes, seq![0x89u8, 0x50, 0x4e, 0x47, 0x0d, 0x0a, 0x1a, 0x0a]) {
        Some("png"@)
    } else if begins(bytes, seq![0xffu8, 0xd8, 0xff]) {
        Some("jpg"@)
    } else if begins(bytes, seq![0x47u8, 0x49, 0x46, 0x38, 0x37, 0x61]) || begins(
        bytes,
        seq![0x47u8, 0x49, 0x46, 0x38, 0x39, 0x61],
    ) {
        Some("gif"@)
    } else if bytes.len() > 12 && begins(bytes, seq![0x52u8, 0x49, 0x46, 0x46])
        && bytes.subrange(8, 12) == seq![0x57u8, 0x45, 0x42, 0x50] {
        Some("webp"@)
    } else {
        None
    }
}

fn bytes_begin(bytes: &[u8], head: &Vec<u8>) -> (r: bool)
    ensures
        r == begins(bytes@, head@),
{
    if bytes.len() < head.len() {
        return false;
    }
    let mut i: usize = 0;
    while i < head.len()
        invariant
            i <= head.len() <= bytes@.len(),
            forall|j: int| 0 <= j < i ==> bytes@[j] == head@[j],
        decreases head.len() - i,
    {
        if bytes[i] != head[i] {
            assert(bytes@.take(head@.len() as int)[i as int] != head@[i as int]);
            return false;
        }
        i += 1;
    }
    assert(bytes@.take(head@.len() as int) =~= head@);
    true
}

/// Identify a supported image format from its magic bytes, returning the file
/// extension to save it under.
pub fn sniff_image_ext(bytes: &[u8]) -> (r: Option<&'static str>)
    ensures
        match r {
            Some(e) => image_format(bytes@) == Some(e@),
            None => image_format(bytes@) is None,
        },
{
    let png: Vec<u8> = vec![0x89, 0x50, 0x4e, 0x47, 0x0d, 0x0a, 0x1a, 0x0a];
    let jpg: Vec<u8> = vec![0xff, 0xd8, 0xff];
    let gif87: Vec<u8> = vec![0x47, 0x49, 0x46, 0x38, 0x37, 0x61];
    let gif89: Vec<u8> = vec![0x47, 0x49, 0x46, 0x38, 0x39, 0x61];
    let riff: Vec<u8> = vec![0x52, 0x49, 0x46, 0x46];
    assert(png@ =~= seq![0x89u8, 0x50, 0x4e, 0x47, 0x0d, 0x0a, 0x1a, 0x0a]);
    assert(jpg@ =~= seq![0xffu8, 0xd8, 0xff]);
    assert(gif87@ =~= seq![0x47u8, 0x49, 0x46, 0x38, 0x37, 0x61]);
    assert(gif89@ =~= seq![0x47u8, 0x49, 0x46, 0x38, 0x39, 0x61]);
    assert(riff@ =~= seq![0x52u8, 0x49, 0x46, 0x46]);
    if bytes_begin(bytes, &png) {
        return Some("png");
    }
    if bytes_begin(bytes, &jpg) {
        return Some("jpg");
    }
    if bytes_begin(bytes, &gif87) || bytes_begin(bytes, &gif89) {
        return Some("gif");
    }
    if bytes.len() > 12 && bytes_begin(bytes, &riff) && bytes[8] == 0x57 && bytes[9] == 0x45
        && bytes[10] == 0x42 && bytes[11] == 0x50 {
        assert(bytes@.subrange(8, 12) =~= seq![0x57u8, 0x45, 0x42, 0x50]);
        return Some("webp");
    }
    proof {
        if bytes@.len() > 12 && bytes@.subrange(8, 12) == seq![0x57u8, 0x45, 0x42, 0x50] {
            let s = bytes@.subrange(8, 12);
            assert(s[0] == bytes@[8] && s[1] == bytes@[9] && s[2] == bytes@[10] && s[3]
                == bytes@[11]);
        }
    }
    None
}

/// A clipboard reader to run next.
#[derive(Debug, PartialEq, Eq)]
pub enum Probe {
    /// List what the Wayland clipboard holds.
    WaylandTypes,
    /// Read the Wayland clipboard as a media type.
    Wayland(String),
    /// Read the X11 clipboard as a PNG.
    X11Png,
    /// Read the X11 clipboard as a JPEG.
    X11Jpeg,
}

pub enum ProbeView {
    WaylandTypes,
    Wayland(Seq<char>),
    X11Png,
    X11Jpeg,
}

impl View for Probe {
    type V = ProbeView;

    open spec fn view(&self) -> ProbeView {
        match self {
            Probe::WaylandTypes => ProbeView::WaylandTypes,
            Probe::Wayland(t) => ProbeView::Wayland(t@),
            Probe::X11Png => ProbeView::X11Png,
            Probe::X11Jpeg => ProbeView::X11Jpeg,
        }
    }
}

/// What a clipboard reader gave.
#[derive(Debug, PartialEq, Eq)]
pub enum ProbeReply {
    /// It is missing, failed, or printed nothing.
    Nothing,
    /// What it printed, as text.
    Listing(String),
    /// What it printed.
    Bytes(Vec<u8>),
}

pub enum ReplyView {
    Nothing,
    Listing(Seq<char>),
    Bytes(Seq<u8>),
}

impl View for ProbeReply {
    type V = ReplyView;

    open spec fn view(&self) -> ReplyView {
        match self {
            ProbeReply::Nothing => ReplyView::Nothing,
            ProbeReply::Listing(t) => ReplyView::Listing(t@),
            ProbeReply::Bytes(b) => ReplyView::Bytes(b@),
        }
    }
}

/// Where the search for a clipboard image stands.
#[derive(Debug, PartialEq, Eq)]
pub enum ClipboardSearch {
    Ask(Probe),
    Found(Vec<u8>),
    Empty,
}

pub enum SearchView {
    Ask(ProbeView),
    Found(Seq<u8>),
    Empty,
}

impl View for ClipboardSearch {
    type V = SearchView;

    open spec fn view(&self) -> SearchView {
        match self {
            ClipboardSearch::Ask(p) => SearchView::Ask(p@),
            ClipboardSearch::Found(b) => SearchView::Found(b@),
            ClipboardSearch::Empty => SearchView::Empty,
        }
    }
}

/// The first of `w` that is an image's media type.
pub open spec fn first_image_type(w: Seq<Seq<char>>) -> Option<Seq<char>>
    decreases w.len(),
{
    if w.len() == 0 {
        None
    } else if starts_with(w[0], "image/"@) {
        Some(w[0])
    } else {
        first_image_type(w.drop_first())
    }
}

impl ProbeView {
    /// The reader tried when this one gives no image.
    pub open spec fn next(self) -> SearchView {
        match self {
            ProbeView::WaylandTypes => SearchView::Ask(ProbeView::X11Png),
            ProbeView::Wayland(_) => SearchView::Ask(ProbeView::X11Png),
            ProbeView::X11Png => SearchView::Ask(ProbeView::X11Jpeg),
            ProbeView::X11Jpeg => SearchView::Empty,
        }
    }

    /// Where the search stands after a reply: bytes count when they are an
    /// image, a listing names the media type to read.
    pub open spec fn replied(self, reply: ReplyView) -> SearchView {
        match reply {
            ReplyView::Bytes(b) => if self !is WaylandTypes && image_format(b) is Some {
                SearchView::Found(b)
            } else {
                self.next()
            },
            ReplyView::Listing(t) => match first_image_type(words(t)) {
                Some(ty) => if self is WaylandTypes {
                    SearchView::Ask(ProbeView::Wayland(ty))
                } else {
                    self.next()
                },
                None => self.next(),
            },
            ReplyView::Nothing => self.next(),
        }
    }
}

impl Probe {
    fn next(&self) -> (r: ClipboardSearch)
        ensures
            r@ == self@.next(),
    {
        match self {
            Probe::WaylandTypes => ClipboardSearch::Ask(Probe::X11Png),
            Probe::Wayland(_) => ClipboardSearch::Ask(Probe::X11Png),
            Probe::X11Png => ClipboardSearch::Ask(Probe::X11Jpeg),
            Probe::X11Jpeg => ClipboardSearch::Empty,
        }
    }
}

/// Where the search for a clipboard image starts: Wayland first, in a Wayland
/// session.
pub fn clipboard_search(wayland: bool) -> (r: ClipboardSearch)
    ensures
        r@ == SearchView::Ask(
            if wayland {
                ProbeView::WaylandTypes
            } else {
                ProbeView::X11Png
            },
        ),
{
    if wayland {
        ClipboardSearch::Ask(Probe::WaylandTypes)
    } else {
        ClipboardSearch::Ask(Probe::X11Png)
    }
}

fn find_image_type(list: &Vec<String>) -> (r: Option<String>)
    ensures
        text_opt(r) == first_image_type(texts(list@)),
{
    let ghost all = texts(list@);
    let mut i: usize = 0;
    assert(all.skip(0) =~= all);
    while i < list.len()
        invariant
            i <= list.len(),
            all == texts(list@),
            first_image_type(all) == first_image_type(all.skip(i as int)),
        decreases list.len() - i,
    {
        assert(all.skip(i as int)[0] == list@[i as int]@);
        if begins_with(&list[i], "image/") {
            return Some(list[i].clone());
        }
        assert(all.skip(i as int).drop_first() =~= all.skip(i + 1));
        i += 1;
    }
    None
}

/// Carries the search for a clipboard image on after a reader's reply.
pub fn clipboard_image_bytes(probe: Probe, reply: ProbeReply) -> (r: ClipboardSearch)
    ensures
        r@ == probe@.replied(reply@),
{
    let listing = matches!(probe, Probe::WaylandTypes);
    match reply {
        ProbeReply::Bytes(b) => {
            if !listing && sniff_image_ext(&b).is_some() {
                ClipboardSearch::Found(b)
            } else {
                probe.next()
            }
        },
        ProbeReply::Listing(t) => match find_image_type(&split_words(&t)) {
            Some(ty) => {
                if listing {
                    ClipboardSearch::Ask(Probe::Wayland(ty))
                } else {
                    probe.next()
                }
            },
            None => probe.next(),
        },
        ProbeReply::Nothing => probe.next(),
    }
}

/// A quotation mark of either kind.
pub open spec fn is_quote(c: char) -> bool {
    c == '"' || c == '\''
}

/// The text without the quotation marks at its ends.
pub open spec fn unquoted(s: Seq<char>) -> Seq<char>
    decreases s.len(),
{
    if s.len() > 0 && is_quote(s[0]) {
        unquoted(s.drop_first())
    } else if s.len() > 0 && is_quote(s.last()) {
        unquoted(s.drop_last())
    } else {
        s
    }
}

/// A pasted token as the path it stands for.
pub open spec fn pasted_path(token: Seq<char>) -> Seq<char> {
    let s = unquoted(trim(token));
    if starts_with(s, "file://"@) {
        s.skip("file://"@.len() as int)
    } else {
        s
    }
}

/// A pasted token as the path it stands for: without white space and quotation
/// marks around it or `file://` before it.
pub fn clean_path(token: &str) -> (r: String)
    ensures
        r@ == pasted_path(token@),
{
    let t = trimmed(token);
    let cs = chars_of(&t);
    let mut start: usize = 0;
    let mut end: usize = cs.len();
    assert(t@.subrange(0, end as int) =~= t@);
    while start < end && (cs[start] == '"' || cs[start] == '\'')
        invariant
            start <= end == cs.len(),
            cs@ == t@,
            unquoted(t@) == unquoted(t@.subrange(start as int, end as int)),
        decreases end - start,
    {
        assert(t@.subrange(start as int, end as int).drop_first() =~= t@.subrange(
            start + 1,
            end as int,
        ));
        start += 1;
    }
    while end > start && (cs[end - 1] == '"' || cs[end - 1] == '\'')
        invariant
            start <= end <= cs.len(),
            cs@ == t@,
            start < end ==> !is_quote(cs@[start as int]),
            unquoted(t@) == unquoted(t@.subrange(start as int, end as int)),
        decreases end,
    {
        assert(t@.subrange(start as int, end as int).drop_last() =~= t@.subrange(
            start as int,
            end - 1,
        ));
        end -= 1;
    }
    let s = slice_text(&cs, start, end);
    assert(s@ =~= t@.subrange(start as int, end as int));
    if begins_with(&s, "file://") {
        let ss = chars_of(&s);
        let n = chars_of("file://").len();
        let out = slice_text(&ss, n, ss.len());
        assert(out@ =~= s@.skip(n as int));
        out
    } else {
        s
    }
}

/// Whether a paste token looks like an image path (extension only).
pub fn looks_like_image_path_token(token: &str) -> (r: bool)
    ensures
        r == names_image(pasted_path(token@)),
{
    is_image_path(&clean_path(token))
}

/// The file a pasted token may stand for, seen from the project's root; whether
/// it exists is for the caller to find out.
pub fn resolve_pasted_image_path(token: &str, root: &str) -> (r: Option<String>)
    ensures
        r is Some ==> names_image(r->0@),
        exists|home: Option<Seq<char>>|
            {
                let path = crate::paths::joined(
                    root@,
                    #[trigger] crate::paths::expanded(pasted_path(token@), home),
                );
                text_opt(r) == if names_image(path) {
                    Some(path)
                } else {
                    None
                }
            },
{
    let path = crate::paths::resolve(&clean_path(token), root);
    if is_image_path(&path) {
        Some(path)
    } else {
        None
    }
}

/// Every one of the tokens looks like an image path.
pub open spec fn all_image_paths(tokens: Seq<Seq<char>>) -> bool {
    forall|i: int| 0 <= i < tokens.len() ==> names_image(pasted_path(#[trigger] tokens[i]))
}

fn all_look_like_images(tokens: &Vec<String>) -> (r: bool)
    ensures
        r == all_image_paths(texts(tokens@)),
{
    let mut i: usize = 0;
    while i < tokens.len()
        invariant
            i <= tokens.len(),
            forall|j: int| 0 <= j < i ==> names_image(pasted_path(#[trigger] texts(tokens@)[j])),
        decreases tokens.len() - i,
    {
        if !looks_like_image_path_token(&tokens[i]) {
            assert(texts(tokens@)[i as int] == tokens@[i as int]@);
            return false;
        }
        i += 1;
    }
    true
}

/// A pasted token and the image file it resolved to, if it did.
pub struct ResolvedPath {
    pub token: String,
    pub path: Option<String>,
}

pub struct ResolvedView {
    pub token: Seq<char>,
    pub path: Option<Seq<char>>,
}

impl View for ResolvedPath {
    type V = ResolvedView;

    open spec fn view(&self) -> ResolvedView {
        ResolvedView { token: self.token@, path: text_opt(self.path) }
    }
}

pub open spec fn resolved_view(r: Seq<ResolvedPath>) -> Seq<ResolvedView> {
    r.map_values(|x: ResolvedPath| x@)
}

/// What was found on the clipboard.
#[derive(Debug, PartialEq, Eq)]
pub enum ClipboardImage {
    /// No image.
    Absent,
    /// An image, saved at this path.
    Saved(String),
    /// An image that could not be saved, and why.
    Unsaved(String),
}

/// The label of a saved image: its file's name, or another text without one.
pub open spec fn label_of(path: Seq<char>, other: Seq<char>) -> Seq<char> {
    match file_name(path) {
        Some(name) => name,
        None => other,
    }
}

fn label_for(path: &str, other: &str) -> (r: String)
    ensures
        r@ == label_of(path@, other@),
{
    match name_of(path) {
        Some(name) => name,
        None => other.to_string(),
    }
}

impl ComposerView {
    /// An image staged, its mark in the text, set off from a word before it.
    pub open spec fn with_image(self, path: Seq<char>) -> ComposerView {
        let s = ComposerView { pending_images: self.pending_images.push(path), ..self };
        let set_off = if s.input.len() > 0 && !is_white(s.input.last()) {
            s.inserted(seq![' '])
        } else {
            s
        };
        set_off.inserted(image_token(s.pending_images.len()))
    }
}

impl AppView {
    /// An image staged for the next submit, unless it already is.
    pub open spec fn staged(self, path: Seq<char>, label: Seq<char>) -> AppView {
        if lists_path(self.composer.pending_images, path) {
            self.noticed(label + " is already attached"@)
        } else {
            self.with_composer(self.composer.with_image(path)).noticed(
                "attached "@ + label + " as Image #"@ + decimal(
                    self.composer.pending_images.len() + 1,
                ),
            )
        }
    }

    /// The input mode follows the text.
    pub open spec fn resynced(self) -> AppView {
        self.with_composer(self.composer.synced())
    }

    /// Text was pasted: an image by data URL or path is looked at, an empty
    /// paste asks the clipboard, other text is inserted.
    pub open spec fn pasted_text(self, text: Seq<char>) -> AppView {
        match data_image(trim(text)) {
            Some((mime, data)) => self.asking(EffectView::SavePastedImage { mime, data }),
            None => {
                let tokens = words(text);
                if tokens.len() > 0 && all_image_paths(tokens) {
                    self.asking(EffectView::ResolvePaths { text, tokens })
                } else if is_blank(text) {
                    self.asking(EffectView::ReadClipboard { explicit: false })
                } else {
                    self.with_composer(self.composer.inserted(text)).resynced()
                }
            },
        }
    }

    /// A pasted image was saved, or was not.
    pub open spec fn pasted_saved(self, saved: Result<Seq<char>, Seq<char>>) -> AppView {
        (match saved {
            Ok(path) => self.staged(path, label_of(path, "image"@)),
            Err(e) => self.noticed("could not save pasted image: "@ + e),
        }).resynced()
    }

    /// The tokens that resolved are staged, in order.
    pub open spec fn all_staged(self, resolved: Seq<ResolvedView>) -> AppView
        decreases resolved.len(),
    {
        if resolved.len() == 0 {
            self
        } else {
            let before = self.all_staged(resolved.drop_last());
            let r = resolved.last();
            match r.path {
                Some(path) => before.staged(path, label_of(path, r.token)),
                None => before,
            }
        }
    }

    /// Pasted paths were resolved; text of which none is an image is inserted.
    pub open spec fn paths_resolved(self, text: Seq<char>, resolved: Seq<ResolvedView>) -> AppView {
        if exists|i: int| 0 <= i < resolved.len() && (#[trigger] resolved[i]).path is Some {
            self.all_staged(resolved).resynced()
        } else {
            self.with_composer(self.composer.inserted(text)).resynced()
        }
    }

    /// The clipboard was read; an empty one is worth a notice only when the
    /// user asked for it.
    pub open spec fn clipboard_seen(self, explicit: bool, found: ClipboardImage) -> AppView {
        (match found {
            ClipboardImage::Absent => if explicit {
                self.noticed("no image on the clipboard to attach"@)
            } else {
                self
            },
            ClipboardImage::Saved(path) => self.staged(path@, "pasted image"@),
            ClipboardImage::Unsaved(e) => self.noticed("could not attach pasted image: "@ + e@),
        }).resynced()
    }
}

impl Composer {
    fn add_image(&mut self, path: String) -> (n: usize)
        requires
            old(self)@.wf(),
        ensures
            n == old(self)@.pending_images.len() + 1,
            final(self)@ == old(self)@.with_image(path@),
            final(self)@.wf(),
    {
        self.pending_images.push(path);
        let ghost s = self@;
        assert(s.pending_images =~= old(self)@.pending_images.push(path@));
        let n = self.pending_images.len();
        let cs = chars_of(&self.input);
        if cs.len() > 0 && !is_whitespace(cs[cs.len() - 1]) {
            self.insert_char(' ');
        }
        let mark = image_mark(n);
        self.insert_str(&mark);
        n
    }
}

impl App {
    /// Stage `path` for the next submit and insert its numbered mark.  `label`
    /// names the source only for the confirmation notice.
    fn stage_image(&mut self, path: String, label: &str)
        requires
            old(self)@.wf(),
        ensures
            final(self)@ == old(self)@.staged(path@, label@),
            final(self)@.wf(),
    {
        if has_same_path(&self.composer.pending_images, &path) {
            let mut m = label.to_string();
            m.append(" is already attached");
            self.notice(m);
            return ;
        }
        let n = self.composer.add_image(path);
        let mut m = "attached ".to_string();
        m.append(label);
        m.append(" as Image #");
        m.append(&number(n as u64));
        self.notice(m);
    }

    /// Handle a bracketed paste.
    pub fn handle_paste(&mut self, text: &str)
        requires
            old(self)@.wf(),
        ensures
            final(self)@ == old(self)@.pasted_text(text@),
            final(self)@.wf(),
    {
        if let Some((mime, data)) = parse_data_image_url(&trimmed(text)) {
            self.ask(Effect::SavePastedImage { mime, data });
            return ;
        }
        let tokens = split_words(text);
        assert(texts(tokens@).len() == tokens@.len());
        if tokens.len() > 0 && all_look_like_images(&tokens) {
            self.ask(Effect::ResolvePaths { text: text.to_string(), tokens });
            return ;
        }
        if blank(text) {
            self.ask(Effect::ReadClipboard { explicit: false });
            return ;
        }
        self.composer.insert_str(text);
        self.composer.sync_input_mode();
    }

    /// The main loop saved a pasted image, or failed to.
    pub fn pasted_image_saved(&mut self, saved: Result<String, String>)
        requires
            old(self)@.wf(),
        ensures
            final(self)@ == old(self)@.pasted_saved(
                match saved {
                    Ok(path) => Ok(path@),
                    Err(e) => Err(e@),
                },
            ),
            final(self)@.wf(),
    {
        match saved {
            Ok(path) => {
                let label = label_for(&path, "image");
                self.stage_image(path, &label);
            },
            Err(e) => {
                let mut m = "could not save pasted image: ".to_string();
                m.append(&e);
                self.notice(m);
            },
        }
        self.composer.sync_input_mode();
    }

    /// The main loop resolved the tokens of a paste.
    pub fn pasted_paths_resolved(&mut self, text: &str, resolved: &Vec<ResolvedPath>)
        requires
            old(self)@.wf(),
        ensures
            final(self)@ == old(self)@.paths_resolved(text@, resolved_view(resolved@)),
            final(self)@.wf(),
    {
        let ghost all = resolved_view(resolved@);
        let mut any = false;
        let mut i: usize = 0;
        assert(all.take(0) =~= Seq::empty());
        while i < resolved.len()
            invariant
                i <= resolved.len(),
                all == resolved_view(resolved@),
                self@ == old(self)@.all_staged(all.take(i as int)),
                self@.wf(),
                any == exists|j: int| 0 <= j < i && (#[trigger] all[j]).path is Some,
                !any ==> self@ == old(self)@,
            decreases resolved.len() - i,
        {
            assert(all[i as int] == resolved@[i as int]@);
            assert(all.take(i + 1).drop_last() =~= all.take(i as int));
            assert(all.take(i + 1).last() == all[i as int]);
            if let Some(path) = &resolved[i].path {
                let label = label_for(path, &resolved[i].token);
                self.stage_image(path.clone(), &label);
                any = true;
            }
            i += 1;
        }
        assert(all.take(all.len() as int) =~= all);
        if !any {
            self.composer.insert_str(text);
        }
        self.composer.sync_input_mode();
    }

    /// The main loop looked at the clipboard.
    pub fn clipboard_read(&mut self, explicit: bool, found: ClipboardImage)
        requires
            old(self)@.wf(),
        ensures
            final(self)@ == old(self)@.clipboard_seen(explicit, found),
            final(self)@.wf(),
    {
        match found {
            ClipboardImage::Absent => {
                if explicit {
                    self.notice("no image on the clipboard to attach".to_string());
                }
            },
            ClipboardImage::Saved(path) => {
                self.stage_image(path, "pasted image");
            },
            ClipboardImage::Unsaved(e) => {
                let mut m = "could not attach pasted image: ".to_string();
                m.append(&e);
                self.notice(m);
            },
        }
        self.composer.sync_input_mode();
    }
}

} // verus!
