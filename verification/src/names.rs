//! Names for people: what to call a stream or a file, and what counts as media.
use crate::text::{
    after_last, find_char, first_char, first_index, is_empty, last_index, lower, lowercase,
    rfind_char, same, split, split_char, starts_with, strs, tail_after,
};
use vstd::prelude::*;
use vstd::utf8::{encode_utf8, is_ascii_chars, is_ascii_chars_encode_utf8};

verus! {

/// An entry of a playlist: where it comes from, and the title that the player has
/// found for it.
#[derive(Debug)]
pub struct PlaylistItem {
    pub filename: String,
    pub title: Option<String>,
}

pub struct PlaylistItemV {
    pub filename: Seq<char>,
    pub title: Option<Seq<char>>,
}

/// What an item is called: its title unless that is empty; a file goes by its last
/// path segment, a web address by itself.
pub open spec fn item_display(i: PlaylistItemV) -> Seq<char> {
    match i.title {
        Some(t) if t.len() > 0 => t,
        _ => if "http"@.is_prefix_of(i.filename) {
            i.filename
        } else {
            after_last(i.filename, '/')
        },
    }
}

impl PlaylistItem {
    pub open spec fn view(&self) -> PlaylistItemV {
        PlaylistItemV { filename: self.filename@, title: crate::text::opt(self.title) }
    }

    /// What the item is called.
    pub fn display(&self) -> (r: &str)
        ensures
            r@ == item_display(self.view()),
    {
        if let Some(t) = &self.title {
            if !is_empty(t.as_str()) {
                return t.as_str();
            }
        }
        if starts_with(self.filename.as_str(), "http") {
            self.filename.as_str()
        } else {
            tail_after(self.filename.as_str(), '/')
        }
    }

    /// A copy of the item.
    pub fn copy(&self) -> (r: PlaylistItem)
        ensures
            r.view() == self.view(),
    {
        let title: Option<String> = match &self.title {
            Some(t) => Some(t.clone()),
            None => None,
        };
        PlaylistItem { filename: self.filename.clone(), title }
    }
}

// ---------------------------------------------------------------------------
// Percent encoding
// ---------------------------------------------------------------------------

/// The value of a hexadecimal digit.
pub open spec fn hex_value(b: u8) -> Option<int> {
    if 0x30 <= b <= 0x39 {
        Some(b - 0x30)
    } else if 0x61 <= b <= 0x66 {
        Some(b - 0x61 + 10)
    } else if 0x41 <= b <= 0x46 {
        Some(b - 0x41 + 10)
    } else {
        None
    }
}

/// The byte that two characters write in base 16: two digits, or one behind a plus
/// sign.
pub open spec fn hex_byte(a: u8, b: u8) -> Option<u8> {
    match hex_value(b) {
        Some(y) => if a == 0x2b {
            Some(y as u8)
        } else {
            match hex_value(a) {
                Some(x) => Some((x * 16 + y) as u8),
                None => None,
            }
        },
        None => None,
    }
}

/// Bytes as characters of the same number, with each `%` and the two digits behind
/// it standing for one.
pub open spec fn decoded_bytes(b: Seq<u8>) -> Seq<char>
    decreases b.len(),
{
    if b.len() == 0 {
        Seq::empty()
    } else if b[0] == 0x25 && b.len() > 2 && hex_byte(b[1], b[2]) is Some {
        seq![hex_byte(b[1], b[2])->0 as char] + decoded_bytes(b.skip(3))
    } else {
        seq![b[0] as char] + decoded_bytes(b.skip(1))
    }
}

/// One pass of percent decoding over the UTF-8 bytes of a text.
pub open spec fn percent_decoded(s: Seq<char>) -> Seq<char> {
    decoded_bytes(encode_utf8(s))
}

/// Three passes of percent decoding, which undo as many layers of encoding.
pub open spec fn url_decoded(s: Seq<char>) -> Seq<char> {
    percent_decoded(percent_decoded(percent_decoded(s)))
}

fn hex_digit(b: u8) -> (r: Option<u8>)
    ensures
        match r {
            Some(v) => v < 16 && hex_value(b) == Some(v as int),
            None => hex_value(b) is None,
        },
{
    if 0x30 <= b && b <= 0x39 {
        Some(b - 0x30)
    } else if 0x61 <= b && b <= 0x66 {
        Some(b - 0x61 + 10)
    } else if 0x41 <= b && b <= 0x46 {
        Some(b - 0x41 + 10)
    } else {
        None
    }
}

/// One pass of percent decoding.
pub fn percent_decode(s: &str) -> (r: String)
    ensures
        r@ == percent_decoded(s@),
{
    let bytes: &[u8] = s.as_bytes();
    let ghost all = encode_utf8(s@);
    let mut out: String = String::new();
    let mut i: usize = 0;
    assert(all.skip(0) =~= all);
    assert(out@ + decoded_bytes(all.skip(0)) =~= decoded_bytes(all));
    while i < bytes.len()
        invariant
            bytes@ == all,
            i <= bytes@.len(),
            out@ + decoded_bytes(all.skip(i as int)) == decoded_bytes(all),
        decreases bytes@.len() - i,
    {
        let ghost rest = all.skip(i as int);
        let ghost before = out@;
        assert(rest[0] == all[i as int]);
        if bytes[i] == 0x25 && bytes.len() - i > 2 {
            assert(rest[1] == all[i + 1]);
            assert(rest[2] == all[i + 2]);
            if let Some(y) = hex_digit(bytes[i + 2]) {
                let byte: Option<u8> = if bytes[i + 1] == 0x2b {
                    Some(y)
                } else {
                    match hex_digit(bytes[i + 1]) {
                        Some(x) => Some(x * 16 + y),
                        None => None,
                    }
                };
                if let Some(b) = byte {
                    out.push(b as char);
                    proof {
                        assert(hex_byte(rest[1], rest[2]) == Some(b));
                        assert(rest.skip(3) =~= all.skip(i + 3));
                        assert(before + (seq![b as char] + decoded_bytes(all.skip(i + 3))) =~= out@
                            + decoded_bytes(all.skip(i + 3)));
                    }
                    i = i + 3;
                    continue;
                }
            }
        }
        out.push(bytes[i] as char);
        proof {
            assert(rest.skip(1) =~= all.skip(i + 1));
            assert(before + (seq![rest[0] as char] + decoded_bytes(all.skip(i + 1))) =~= out@
                + decoded_bytes(all.skip(i + 1)));
        }
        i = i + 1;
    }
    assert(all.skip(i as int) =~= Seq::empty());
    assert(out@ + decoded_bytes(all.skip(i as int)) =~= out@);
    out
}

/// Percent decoding, up to three times and until nothing changes.
pub fn url_decode(s: &str) -> (r: String)
    ensures
        r@ == url_decoded(s@),
{
    let mut result: String = s.to_owned();
    let mut pass: usize = 0;
    while pass < 3
        invariant
            pass <= 3,
            pass == 0 ==> result@ == s@,
            pass == 1 ==> result@ == percent_decoded(s@),
            pass == 2 ==> result@ == percent_decoded(percent_decoded(s@)),
            pass == 3 ==> result@ == url_decoded(s@),
        decreases 3 - pass,
    {
        let next: String = percent_decode(result.as_str());
        if same(next.as_str(), result.as_str()) {
            return result;
        }
        result = next;
        pass = pass + 1;
    }
    result
}

/// A plain ASCII text without `%` is its own decoding.
pub proof fn plain_text_decodes_to_itself(s: Seq<char>)
    requires
        is_ascii_chars(s),
        !s.contains('%'),
    ensures
        percent_decoded(s) == s,
        url_decoded(s) == s,
{
    is_ascii_chars_encode_utf8(s);
    let b = encode_utf8(s);
    assert forall|i: int| 0 <= i < b.len() implies b[i] != 0x25 && (#[trigger] b[i]) as char
        == s[i] by {
        assert(s[i] as u8 == b[i]);
        assert('\0' <= s[i] <= '\u{7f}');
        if s[i] == '%' {
            assert(s.contains('%'));
        }
    }
    lemma_decoded_plain(b, s);
}

proof fn lemma_decoded_plain(b: Seq<u8>, s: Seq<char>)
    requires
        b.len() == s.len(),
        forall|i: int| 0 <= i < b.len() ==> b[i] != 0x25 && (#[trigger] b[i]) as char == s[i],
    ensures
        decoded_bytes(b) == s,
    decreases b.len(),
{
    if b.len() > 0 {
        let b1 = b.skip(1);
        let s1 = s.skip(1);
        assert forall|i: int| 0 <= i < b1.len() implies b1[i] != 0x25 && (#[trigger] b1[i]) as char
            == s1[i] by {
            assert(b1[i] == b[i + 1]);
        }
        lemma_decoded_plain(b1, s1);
        assert(b[0] as char == s[0]);
        assert(seq![s[0]] + s1 =~= s);
    } else {
        assert(s =~= Seq::empty());
    }
}

// ---------------------------------------------------------------------------
// Display names
// ---------------------------------------------------------------------------

/// `s` without its extension; a dot at the very front begins none.
pub open spec fn stem(s: Seq<char>) -> Seq<char> {
    if last_index(s, '.') > 0 {
        s.take(last_index(s, '.'))
    } else {
        s
    }
}

/// A hexadecimal digit.
pub open spec fn is_hex(c: char) -> bool {
    ('0' <= c && c <= '9') || ('a' <= c && c <= 'f') || ('A' <= c && c <= 'F')
}

/// A long run of hexadecimal digits, which tells people nothing.
pub open spec fn hash_like(s: Seq<char>) -> bool {
    s.len() >= 32 && forall|i: int| 0 <= i < s.len() ==> is_hex(#[trigger] s[i])
}

/// An address that names a scheme.
pub open spec fn is_url(raw: Seq<char>) -> bool {
    "http://"@.is_prefix_of(raw) || "https://"@.is_prefix_of(raw) || "rtsp://"@.is_prefix_of(raw)
}

/// What to call a stream or a file. A web address goes by its last segment, decoded
/// and without extension, or by the first label of its host where that segment is
/// empty or a hash; a path goes by its last segment without extension; anything
/// else by itself.
pub open spec fn display_of(raw: Seq<char>) -> Seq<char> {
    if is_url(raw) {
        let decoded = url_decoded(after_last(raw, '/'));
        let parts = split(raw, '/');
        if (hash_like(decoded) || decoded.len() == 0) && parts.len() > 2 {
            parts[2].take(first_index(parts[2], '.'))
        } else {
            stem(decoded)
        }
    } else if raw.len() > 0 && (raw[0] == '/' || raw[0] == '~' || raw[0] == '.') {
        stem(after_last(raw, '/'))
    } else {
        raw
    }
}

/// `s` without its extension.
pub fn strip_ext(s: &str) -> (r: String)
    ensures
        r@ == stem(s@),
{
    if let Some(i) = rfind_char(s, '.') {
        if i > 0 {
            let head: &str = s.substring_char(0, i);
            assert(head@ =~= s@.take(i as int));
            return head.to_owned();
        }
    }
    s.to_owned()
}

/// Whether `s` is a long run of hexadecimal digits.
pub fn is_hex_hash(s: &str) -> (r: bool)
    ensures
        r == hash_like(s@),
{
    let v: Vec<char> = crate::text::chars_of(s);
    if v.len() < 32 {
        return false;
    }
    for i in 0..v.len()
        invariant
            v@ == s@,
            forall|k: int| 0 <= k < i ==> is_hex(#[trigger] v@[k]),
    {
        let c: char = v[i];
        if !(('0' <= c && c <= '9') || ('a' <= c && c <= 'f') || ('A' <= c && c <= 'F')) {
            assert(!is_hex(s@[i as int]));
            return false;
        }
    }
    true
}

/// What to call a stream or a file.
pub fn display_name(raw: &str) -> (r: String)
    ensures
        r@ == display_of(raw@),
{
    if starts_with(raw, "http://") || starts_with(raw, "https://") || starts_with(raw, "rtsp://") {
        let decoded: String = url_decode(tail_after(raw, '/'));
        if is_hex_hash(decoded.as_str()) || is_empty(decoded.as_str()) {
            let parts: Vec<String> = split_char(raw, '/');
            if parts.len() > 2 {
                let host: &str = parts[2].as_str();
                assert(strs(parts@)[2] == host@);
                let n: usize = find_char(host, '.');
                let label: &str = host.substring_char(0, n);
                assert(label@ =~= host@.take(n as int));
                return label.to_owned();
            }
            assert(strs(parts@).len() == parts@.len());
        }
        return strip_ext(decoded.as_str());
    }
    if let Some(c) = first_char(raw) {
        if c == '/' || c == '~' || c == '.' {
            return strip_ext(tail_after(raw, '/'));
        }
    }
    raw.to_owned()
}

// ---------------------------------------------------------------------------
// Media files
// ---------------------------------------------------------------------------

/// The extension of a file name: what follows its last dot, unless that dot is at
/// the very front.
pub open spec fn extension(name: Seq<char>) -> Option<Seq<char>> {
    if last_index(name, '.') > 0 {
        Some(name.skip(last_index(name, '.') + 1))
    } else {
        None
    }
}

/// The extensions of files that a player takes.
pub open spec fn media_extensions() -> Seq<Seq<char>> {
    seq![
        "mkv"@, "mp4"@, "avi"@, "mov"@, "wmv"@, "flv"@, "webm"@, "m4v"@, "ts"@, "mpg"@, "mpeg"@,
        "mp3"@, "flac"@, "ogg"@, "opus"@, "wav"@, "aac"@, "m4a"@, "wma"@, "m3u"@, "m3u8"@, "pls"@,
    ]
}

/// Whether a file of this name is media: by its extension, in either case.
pub fn is_media(name: &str) -> (r: bool)
    ensures
        r == (match extension(name@) {
            Some(e) => media_extensions().contains(lowercase(e)),
            None => false,
        }),
{
    let n: usize = name.unicode_len();
    let i: usize = match rfind_char(name, '.') {
        Some(i) => i,
        None => return false,
    };
    if i == 0 {
        return false;
    }
    let ext: &str = name.substring_char(i + 1, n);
    assert(ext@ =~= name@.skip(i + 1));
    let low: String = lower(ext);
    let exts: Vec<&str> = vec![
        "mkv", "mp4", "avi", "mov", "wmv", "flv", "webm", "m4v", "ts", "mpg", "mpeg", "mp3", "flac",
        "ogg", "opus", "wav", "aac", "m4a", "wma", "m3u", "m3u8", "pls",
    ];
    let ghost all = media_extensions();
    assert(exts@.len() == all.len());
    assert forall|k: int| 0 <= k < all.len() implies (#[trigger] exts@[k])@ == all[k] by {}
    for k in 0..exts.len()
        invariant
            all == media_extensions(),
            exts@.len() == all.len(),
            forall|j: int| 0 <= j < all.len() ==> (#[trigger] exts@[j])@ == all[j],
            forall|j: int| 0 <= j < k ==> all[j] != low@,
            0 < i,
            i == last_index(name@, '.'),
            low@ == lowercase(name@.skip(i + 1)),
    {
        assert(exts@[k as int]@ == all[k as int]);
        if same(exts[k], low.as_str()) {
            assert(all.contains(low@));
            return true;
        }
    }
    false
}

} // verus!
