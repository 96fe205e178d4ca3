//! Clipboard content: constructors, the short preview shown in logs and
//! history listings, what a read of the clipboard gives and how content is
//! written back to it (images as PNG), and the watcher that decides which
//! clipboard changes are new.

use vstd::prelude::*;
use vstd::utf8::{encode_utf8, decode_utf8, is_char_boundary, encode_utf8_decode_utf8, is_ascii_chars, is_ascii_chars_encode_utf8, encode_utf8_valid_utf8, is_char_boundary_iff_not_is_continuation_byte};
use vstd::slice::slice_to_vec;
use vstd::string::StringSliceAdditionalSpecFns;
use crate::protocol::{ContentType, ClipboardContent, content_hash, blake3_digest, hash_view, is_hash};
use crate::png::{png_of_rgba, rgba_of_png, encode_png, decode_png, ImageConversionError};
use crate::text::{starts_with, utf8_lossy, lossy_string, decimal_string, decimal_chars, has_url_scheme, starts_with_url_scheme};

verus! {

/// Text content holding the UTF-8 bytes of `s`.
pub fn text_content(s: &str) -> (c: ClipboardContent)
    ensures
        c.content_type == ContentType::Text,
        c.data@ == s.spec_bytes(),
{
    ClipboardContent { content_type: ContentType::Text, data: slice_to_vec(s.as_bytes()) }
}

/// URL content holding the UTF-8 bytes of `s`.
pub fn url_content(s: &str) -> (c: ClipboardContent)
    ensures
        c.content_type == ContentType::Url,
        c.data@ == s.spec_bytes(),
{
    ClipboardContent { content_type: ContentType::Url, data: slice_to_vec(s.as_bytes()) }
}

/// Image content holding PNG bytes.
pub fn image_content(png_data: Vec<u8>) -> (c: ClipboardContent)
    ensures
        c.content_type == ContentType::Image,
        c.data@ == png_data@,
{
    ClipboardContent { content_type: ContentType::Image, data: png_data }
}

/// The preview of text: the text itself when its UTF-8 form has at most
/// `max_len` bytes, else its first `max_len` bytes followed by `...`.
pub open spec fn text_preview(text: Seq<char>, max_len: nat) -> Seq<char> {
    let bytes = encode_utf8(text);
    if bytes.len() > max_len {
        decode_utf8(bytes.take(max_len as int)) + "..."@
    } else {
        text
    }
}

/// The preview of an image: `[image N bytes]`.
pub open spec fn image_preview(size: nat) -> Seq<char> {
    "[image "@ + decimal_chars(size) + " bytes]"@
}

/// The preview of a piece of content; text and URLs are read leniently as
/// UTF-8 first.
pub open spec fn preview(content_type: ContentType, data: Seq<u8>, max_len: nat) -> Seq<char> {
    match content_type {
        ContentType::Image => image_preview(data.len()),
        _ => text_preview(utf8_lossy(data), max_len),
    }
}

/// Whether the preview can be cut where it is cut: a text preview that is
/// shortened must be cut between two characters, for the cut is a string
/// slice at byte `max_len`, which panics inside a character.
pub open spec fn preview_cut_ok(content_type: ContentType, data: Seq<u8>, max_len: nat) -> bool {
    content_type == ContentType::Image || {
        let bytes = encode_utf8(utf8_lossy(data));
        bytes.len() <= max_len || is_char_boundary(bytes, max_len as int)
    }
}

/// A one-line preview of `content` for logs and history listings.
pub fn preview_content(content: &ClipboardContent, max_len: usize) -> (s: String)
    requires
        preview_cut_ok(content.content_type, content.data@, max_len as nat),
    ensures
        s@ == preview(content.content_type, content.data@, max_len as nat),
{
    match content.content_type {
        ContentType::Text | ContentType::Url => {
            let text = lossy_string(content.data.as_slice());
            let t = text.as_str();
            if t.len() > max_len {
                let (head, _tail) = t.split_at(max_len);
                proof {
                    encode_utf8_decode_utf8(head@);
                }
                let mut s = String::from_str(head);
                s.append("...");
                s
            } else {
                text
            }
        },
        ContentType::Image => {
            let mut s = String::from_str("[image ");
            let n = decimal_string(content.data.len());
            s.append(n.as_str());
            s.append(" bytes]");
            s
        },
    }
}

/// Whether `preview_content` can cut the preview of this content where it
/// cuts it (see `preview_cut_ok`).
pub fn can_preview(content_type: ContentType, data: &[u8], max_len: usize) -> (r: bool)
    ensures
        r == preview_cut_ok(content_type, data@, max_len as nat),
        content_type == ContentType::Image ==> r,
        content_type != ContentType::Image ==> (r <==> (encode_utf8(utf8_lossy(data@)).len()
            <= max_len || is_char_boundary(encode_utf8(utf8_lossy(data@)), max_len as int))),
{
    match content_type {
        ContentType::Image => true,
        _ => {
            let text = lossy_string(data);
            let t = text.as_str();
            t.len() <= max_len || t.is_char_boundary(max_len)
        },
    }
}

/// The preview of `content`, or `None` where `preview_content` would have to
/// cut a character in two.
pub fn preview_content_checked(content: &ClipboardContent, max_len: usize) -> (r: Option<String>)
    ensures
        match r {
            Some(s) => preview_cut_ok(content.content_type, content.data@, max_len as nat)
                && s@ == preview(content.content_type, content.data@, max_len as nat),
            None => !preview_cut_ok(content.content_type, content.data@, max_len as nat),
        },
{
    if can_preview(content.content_type, content.data.as_slice(), max_len) {
        Some(preview_content(content, max_len))
    } else {
        None
    }
}

/// The kind of a clipboard text: a URL when it starts with `http://` or
/// `https://`, plain text otherwise.
pub fn classify_text(text: &str) -> (t: ContentType)
    ensures
        t == (if has_url_scheme(text.spec_bytes()) { ContentType::Url } else { ContentType::Text }),
{
    if starts_with_url_scheme(text.as_bytes()) {
        ContentType::Url
    } else {
        ContentType::Text
    }
}


/// The bytes of `text`, the start of a text MIME type.
pub open spec fn text_mime_prefix() -> Seq<u8> {
    seq![116u8, 101u8, 120u8, 116u8]
}

/// Whether a MIME type (given by its bytes) is a text type.
pub open spec fn is_text_mime(mime: Seq<u8>) -> bool {
    mime.len() >= 4 && mime.take(4) == text_mime_prefix()
}

/// Text content made from clipboard text: a URL or plain text, as
/// `classify_text` says, holding the text's UTF-8 bytes.
pub open spec fn text_reading(c: ClipboardContent, text: Seq<char>) -> bool {
    &&& c.content_type == (if has_url_scheme(encode_utf8(text)) {
        ContentType::Url
    } else {
        ContentType::Text
    })
    &&& c.data@ == encode_utf8(text)
}

/// The content of a clipboard change that the listener reports with its
/// MIME type: text types are read leniently as UTF-8 text (a URL or plain
/// text), anything else is an image.
pub fn listened_content(mime_type: &str, data: Vec<u8>) -> (c: ClipboardContent)
    ensures
        is_text_mime(mime_type.spec_bytes()) ==> text_reading(c, utf8_lossy(data@)),
        !is_text_mime(mime_type.spec_bytes()) ==> c.content_type == ContentType::Image && c.data@ == data@,
{
    let prefix: [u8; 4] = [116, 101, 120, 116];
    assert(prefix@ =~= text_mime_prefix());
    if starts_with(mime_type.as_bytes(), prefix.as_slice()) {
        let text = lossy_string(data.as_slice());
        let t = text.as_str();
        ClipboardContent { content_type: classify_text(t), data: slice_to_vec(t.as_bytes()) }
    } else {
        ClipboardContent { content_type: ContentType::Image, data }
    }
}

/// The bytes of RGBA pixels that `width` by `height` needs.
pub open spec fn rgba_len(width: usize, height: usize) -> int {
    4 * (width as u32) * (height as u32)
}

/// Whether a pixel buffer is too long for its dimensions: the one case in
/// which the PNG encoder's length check fails.
pub open spec fn pixels_overlong(width: usize, height: usize, pixels: Seq<u8>) -> bool {
    rgba_len(width, height) <= usize::MAX && rgba_len(width, height) < pixels.len()
}

/// What a read of the clipboard gives, from the text it holds (if any) and
/// its image (width, height and RGBA pixels, if any): non-empty text as
/// text or a URL; otherwise the image, encoded as PNG (the dimensions are
/// taken as 32-bit numbers; pixels too few for them give nothing);
/// otherwise nothing.
pub fn clipboard_reading(text: Option<String>, image: Option<(usize, usize, Vec<u8>)>) -> (r: Result<
    Option<ClipboardContent>,
    ImageConversionError,
>)
    requires
        image matches Some((w, h, px)) ==> !pixels_overlong(w, h, px@),
    ensures
        match text {
            Some(t) if t@.len() > 0 => r matches Ok(Some(c)) && text_reading(c, t@),
            _ => match image {
                None => r matches Ok(None),
                Some((w, h, px)) => if rgba_len(w, h) > usize::MAX || rgba_len(w, h) > px@.len() {
                    r matches Ok(None)
                } else {
                    match png_of_rgba(w as u32, h as u32, px@) {
                        Some(png) => r matches Ok(Some(c)) && c.content_type == ContentType::Image
                            && c.data@ == png,
                        None => r is Err,
                    }
                },
            },
        },
{
    if let Some(t) = &text {
        if !t.as_str().is_empty() {
            let s = t.as_str();
            return Ok(Some(ClipboardContent { content_type: classify_text(s), data: slice_to_vec(s.as_bytes()) }));
        }
    }
    match image {
        None => Ok(None),
        Some((w, h, pixels)) => {
            let width = w as u32;
            let height = h as u32;
            let (wl, hl) = (width as u128, height as u128);
            assert(wl * hl <= 0xffff_ffff * 0xffff_ffff) by (nonlinear_arith)
                requires
                    wl <= 0xffff_ffff,
                    hl <= 0xffff_ffff,
            ;
            let need: u128 = 4 * (wl * hl);
            assert(need == rgba_len(w, h)) by (nonlinear_arith)
                requires
                    need == 4 * (wl * hl),
                    wl == w as u32,
                    hl == h as u32,
            ;
            if need > usize::MAX as u128 || need > pixels.len() as u128 {
                return Ok(None);
            }
            match encode_png(width, height, pixels.as_slice()) {
                Ok(png) => Ok(Some(ClipboardContent { content_type: ContentType::Image, data: png })),
                Err(e) => Err(ImageConversionError::Encode(e)),
            }
        },
    }
}

/// What writing content to the clipboard sets.
#[derive(Debug)]
pub enum WritePlan {
    /// Set this text.
    Text(String),
    /// Set this image of RGBA pixels.
    Image { width: u32, height: u32, rgba: Vec<u8> },
}

/// How `content` is written to the clipboard: the hash to record as this
/// process's own last write (so that the watcher drops the echo), and what
/// to set: text and URLs as text (read leniently as UTF-8), images as the
/// pixels of the PNG file they hold.
pub fn prepare_write(content: &ClipboardContent) -> (r: ([u8; 32], Result<WritePlan, ImageConversionError>))
    ensures
        r.0@ == blake3_digest(content.data@),
        match content.content_type {
            ContentType::Image => match rgba_of_png(content.data@) {
                Some((w, h, px)) => r.1 matches Ok(WritePlan::Image { width, height, rgba }) && width
                    == w && height == h && rgba@ == px,
                None => r.1 is Err,
            },
            _ => r.1 matches Ok(WritePlan::Text(s)) && s@ == utf8_lossy(content.data@),
        },
{
    let echo = content_hash(content.data.as_slice());
    let plan = match content.content_type {
        ContentType::Image => match decode_png(content.data.as_slice()) {
            Ok((width, height, rgba)) => Ok(WritePlan::Image { width, height, rgba }),
            Err(e) => Err(ImageConversionError::Decode(e)),
        },
        _ => Ok(WritePlan::Text(lossy_string(content.data.as_slice()))),
    };
    (echo, plan)
}

/// Whether the watcher passes on content whose hash is `hash`, given the
/// hash it passed on last and the hash of what this process itself last
/// wrote to the clipboard.
pub open spec fn is_new_change(last_seen: Option<Seq<u8>>, last_written: Option<Seq<u8>>, hash: Seq<u8>) -> bool {
    last_seen != Some(hash) && last_written != Some(hash)
}

/// Decides which clipboard changes are passed on: a change is dropped when
/// its content hash equals that of the change passed on before it, or that
/// of the content this process last wrote itself (its own echo).
pub struct ClipboardWatcher {
    last_hash: Option<[u8; 32]>,
}

impl ClipboardWatcher {
    /// The hash of the content passed on last, if any.
    pub closed spec fn last_seen(&self) -> Option<Seq<u8>> {
        hash_view(self.last_hash)
    }

    pub fn new() -> (w: Self)
        ensures
            w.last_seen() == None::<Seq<u8>>,
    {
        ClipboardWatcher { last_hash: None }
    }

    /// Looks at one clipboard change; returns it when it is to be passed on.
    pub fn observe(&mut self, content: ClipboardContent, last_written: Option<[u8; 32]>) -> (r: Option<ClipboardContent>)
        ensures
            old(self).last_seen() != Some(blake3_digest(content.data@)) && hash_view(last_written)
                != Some(blake3_digest(content.data@)) ==> r == Some(content),
            r is Some ==> final(self).last_seen() == Some(blake3_digest(content.data@)),
            ({
                let h = blake3_digest(content.data@);
                if is_new_change(old(self).last_seen(), hash_view(last_written), h) {
                    r == Some(content) && final(self).last_seen() == Some(h)
                } else {
                    r == None::<ClipboardContent> && final(self).last_seen() == old(self).last_seen()
                }
            }),
    {
        let hash = content_hash(content.data.as_slice());
        if is_hash(&self.last_hash, &hash) {
            return None;
        }
        if is_hash(&last_written, &hash) {
            return None;
        }
        self.last_hash = Some(hash);
        Some(content)
    }
}

/// A change that was just passed on is not passed on again: once the
/// watcher has let content through, the same bytes seen next are dropped,
/// whatever this process wrote meanwhile.
pub proof fn lemma_watcher_no_repeat(last_seen: Option<Seq<u8>>, written: Option<Seq<u8>>, written_next: Option<Seq<u8>>, data: Seq<u8>)
    requires
        is_new_change(last_seen, written, blake3_digest(data)),
    ensures
        !is_new_change(Some(blake3_digest(data)), written_next, blake3_digest(data)),
{
}

/// One clipboard change as the watcher sees it: the hash of its content,
/// and the hash of what this process had last written when it was seen.
pub type SeenChange = (Seq<u8>, Option<Seq<u8>>);

/// The hash the watcher holds as last passed on after `changes`, starting
/// from `last`; each step is one `observe`.
pub open spec fn watcher_state(last: Option<Seq<u8>>, changes: Seq<SeenChange>) -> Option<Seq<u8>>
    decreases changes.len(),
{
    if changes.len() == 0 {
        last
    } else {
        let st = watcher_state(last, changes.drop_last());
        let c = changes.last();
        if is_new_change(st, c.1, c.0) {
            Some(c.0)
        } else {
            st
        }
    }
}

/// The changes that the watcher passes on, in order, out of `changes`,
/// starting from `last`; each step is one `observe`.
pub open spec fn passed_on(last: Option<Seq<u8>>, changes: Seq<SeenChange>) -> Seq<SeenChange>
    decreases changes.len(),
{
    if changes.len() == 0 {
        seq![]
    } else {
        let prev = passed_on(last, changes.drop_last());
        let c = changes.last();
        if is_new_change(watcher_state(last, changes.drop_last()), c.1, c.0) {
            prev.push(c)
        } else {
            prev
        }
    }
}

proof fn lemma_state_is_last_passed(last: Option<Seq<u8>>, changes: Seq<SeenChange>)
    ensures
        watcher_state(last, changes) == (if passed_on(last, changes).len() > 0 {
            Some(passed_on(last, changes).last().0)
        } else {
            last
        }),
    decreases changes.len(),
{
    if changes.len() > 0 {
        lemma_state_is_last_passed(last, changes.drop_last());
    }
}

/// Over any run of clipboard changes, what the watcher passes on never
/// holds the content this process had itself just written (its echo), the
/// first one differs from what was passed on before the run, and no two in
/// a row have the same content hash.
pub proof fn lemma_watcher_passes_no_echo_no_repeat(last: Option<Seq<u8>>, changes: Seq<SeenChange>)
    ensures
        ({
            let p = passed_on(last, changes);
            &&& forall|i: int| 0 <= i < p.len() ==> (#[trigger] p[i]).1 != Some(p[i].0)
            &&& p.len() > 0 ==> last != Some(p[0].0)
            &&& forall|i: int, j: int| 0 <= i && j == i + 1 && j < p.len() ==> #[trigger] p[i].0
                != #[trigger] p[j].0
        }),
    decreases changes.len(),
{
    if changes.len() > 0 {
        let rest = changes.drop_last();
        lemma_watcher_passes_no_echo_no_repeat(last, rest);
        lemma_state_is_last_passed(last, rest);
        let q = passed_on(last, rest);
        let p = passed_on(last, changes);
        if p.len() > q.len() {
            assert(p == q.push(changes.last()));
            assert forall|i: int, j: int| 0 <= i && j == i + 1 && j < p.len() implies #[trigger] p[i].0
                != #[trigger] p[j].0 by {
                if j < q.len() {
                    assert(p[i] == q[i] && p[j] == q[j]);
                }
            }
        }
    }
}

/// What this process writes is not sent back as a change: once the hash
/// that `prepare_write` gives for some content is recorded as the last
/// write, `observe` drops that content, whatever it passed on before.
pub proof fn lemma_own_write_not_passed_on(last_seen: Option<Seq<u8>>, data: Seq<u8>)
    ensures
        !is_new_change(last_seen, Some(blake3_digest(data)), blake3_digest(data)),
{
}

/// When a preview can be cut: an image always; text (read leniently as
/// UTF-8) exactly when its UTF-8 form is at most `max_len` bytes long or
/// byte `max_len` starts a character, whatever its length.
pub proof fn lemma_preview_cut_ok_exactly(content_type: ContentType, data: Seq<u8>, max_len: nat)
    ensures
        content_type == ContentType::Image ==> preview_cut_ok(content_type, data, max_len),
        content_type != ContentType::Image ==> (preview_cut_ok(content_type, data, max_len) <==> (
        encode_utf8(utf8_lossy(data)).len() <= max_len || is_char_boundary(
            encode_utf8(utf8_lossy(data)),
            max_len as int,
        ))),
{
}

/// Text that is all ASCII can be previewed at any length: every byte of its
/// UTF-8 form starts a character.
pub proof fn lemma_ascii_text_always_previewable(content_type: ContentType, data: Seq<u8>, max_len: nat)
    requires
        is_ascii_chars(utf8_lossy(data)),
    ensures
        preview_cut_ok(content_type, data, max_len),
{
    let text = utf8_lossy(data);
    let bytes = encode_utf8(text);
    lemma_preview_cut_ok_exactly(content_type, data, max_len);
    if content_type != ContentType::Image && bytes.len() > max_len {
        is_ascii_chars_encode_utf8(text);
        encode_utf8_valid_utf8(text);
        assert(text[max_len as int] as u8 == bytes[max_len as int]);
        assert('\0' <= text[max_len as int] <= '\u{7f}');
        is_char_boundary_iff_not_is_continuation_byte(bytes, max_len as int);
    }
}

/// Which changes the watcher passes on: exactly those whose hash differs
/// both from the one passed on last and from this process's last write, so
/// a new copy is synced even after this process has written something else.
pub proof fn lemma_new_change_exactly(last_seen: Option<Seq<u8>>, last_written: Option<Seq<u8>>, hash: Seq<u8>)
    ensures
        is_new_change(last_seen, last_written, hash) <==> (last_seen != Some(hash) && last_written
            != Some(hash)),
{
}

} // verus!
